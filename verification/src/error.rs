//! The closed set of ways in which loading a font can fail.

use vstd::prelude::*;

verus! {

/// Why a load failed. Every error is fatal to the load that raised it: the
/// loader reports the first failure and produces no partial result.
#[derive(Debug, PartialEq, Eq)]
pub enum FormatError {
    /// Fewer bytes are available than a header, field, record or bitmap needs.
    TruncatedInput,
    /// The first section's tag is not `FILE`; `found` is the tag read, as text.
    BadSignature { found: String },
    /// The body of the `FILE` section is not `PFF2`; `found` is the body read, as text.
    BadMagic { found: String },
    /// The section that ends the metadata scan is not `DATA`; `found` is its tag, as text.
    UnexpectedSection { found: String },
    /// A tag or body that had to be shown as text is not valid UTF-8.
    EncodingError,
    /// The character index body, `length` bytes long, is not a whole number of records.
    RecordSizeMismatch { length: usize },
    /// A character index section came after the index had already been filled.
    DuplicateSection,
    /// A character index record for `code_point` has reserved bits set in `flags`.
    InvalidFlags { code_point: u32, flags: u8 },
    /// The glyph data began before point size, maximum width and maximum
    /// height had all been given a non-zero value.
    MissingMetrics,
    /// The glyph data began with no character in the index.
    EmptyIndex,
    /// A glyph is wider or taller than the cell that the font's maxima allow.
    GlyphTooLarge,
    /// The atlas would hold more pixels than this machine can address.
    AtlasTooLarge,
}

/// What a [`FormatError`] says, with its text as a sequence of characters.
pub enum SpecFormatError {
    TruncatedInput,
    BadSignature { found: Seq<char> },
    BadMagic { found: Seq<char> },
    UnexpectedSection { found: Seq<char> },
    EncodingError,
    RecordSizeMismatch { length: usize },
    DuplicateSection,
    InvalidFlags { code_point: u32, flags: u8 },
    MissingMetrics,
    EmptyIndex,
    GlyphTooLarge,
    AtlasTooLarge,
}

impl View for FormatError {
    type V = SpecFormatError;

    open spec fn view(&self) -> SpecFormatError {
        match *self {
            FormatError::TruncatedInput => SpecFormatError::TruncatedInput,
            FormatError::BadSignature { found } => SpecFormatError::BadSignature { found: found@ },
            FormatError::BadMagic { found } => SpecFormatError::BadMagic { found: found@ },
            FormatError::UnexpectedSection { found } => SpecFormatError::UnexpectedSection {
                found: found@,
            },
            FormatError::EncodingError => SpecFormatError::EncodingError,
            FormatError::RecordSizeMismatch { length } => SpecFormatError::RecordSizeMismatch {
                length,
            },
            FormatError::DuplicateSection => SpecFormatError::DuplicateSection,
            FormatError::InvalidFlags { code_point, flags } => SpecFormatError::InvalidFlags {
                code_point,
                flags,
            },
            FormatError::MissingMetrics => SpecFormatError::MissingMetrics,
            FormatError::EmptyIndex => SpecFormatError::EmptyIndex,
            FormatError::GlyphTooLarge => SpecFormatError::GlyphTooLarge,
            FormatError::AtlasTooLarge => SpecFormatError::AtlasTooLarge,
        }
    }
}

/// A result with its error, if it has one, replaced by what the error says.
pub open spec fn result_view<T>(r: Result<T, FormatError>) -> Result<T, SpecFormatError> {
    match r {
        Ok(value) => Ok(value),
        Err(e) => Err(e@),
    }
}

} // verus!
