//! The container format, stated as mathematics: what a buffer of bytes holds
//! or which error it earns. The loader is proved to compute these functions.
//!
//! A file is a run of sections, each an 8 byte header (a 4 byte tag and a
//! big-endian 32 bit length) followed by a body of that length. The first is
//! `FILE` with the body `PFF2`. Sections of metadata follow. The last is
//! `DATA`, whose length field holds the end-of-scan mark: it runs to the end
//! of the file and holds the glyph definitions that the character index
//! points to by absolute offset.

use crate::bytes::{be_u32, in_bounds, u16_at, u32_at, utf8_text};
use crate::error::SpecFormatError;
use crate::glyph::{char_def_at, glyph_in_bounds, glyph_lights, glyph_of, FontGlyph};
use crate::index::index_insert;
use crate::layout::{spec_pack, AtlasLayout};
use crate::metrics::FontMetrics;
use crate::pixel::{opaque_white, transparent};
use rgb::RGBA8;
use vstd::prelude::*;
use vstd::utf8::{
    decode_utf8_encode_utf8, encode_utf8, encode_utf8_decode_utf8, encode_utf8_valid_utf8,
    is_ascii_chars, is_ascii_chars_encode_utf8,
};

verus! {

/// `FILE`: the section that opens a file.
pub const TAG_FILE: u32 = 0x4649_4C45;

/// `NAME`: the font's name, as text.
pub const TAG_NAME: u32 = 0x4E41_4D45;

/// `FAMI`: the font's family, as text.
pub const TAG_FAMI: u32 = 0x4641_4D49;

/// `WEIG`: the font's weight, as text.
pub const TAG_WEIG: u32 = 0x5745_4947;

/// `SLAN`: the font's slant, as text.
pub const TAG_SLAN: u32 = 0x534C_414E;

/// `PTSZ`: the point size.
pub const TAG_PTSZ: u32 = 0x5054_535A;

/// `MAXW`: the width of the widest glyph.
pub const TAG_MAXW: u32 = 0x4D41_5857;

/// `MAXH`: the height of the tallest glyph.
pub const TAG_MAXH: u32 = 0x4D41_5848;

/// `ASCE`: the ascent.
pub const TAG_ASCE: u32 = 0x4153_4345;

/// `DESC`: the descent.
pub const TAG_DESC: u32 = 0x4445_5343;

/// `CHIX`: the character index.
pub const TAG_CHIX: u32 = 0x4348_4958;

/// `DATA`: the glyph definitions.
pub const TAG_DATA: u32 = 0x4441_5441;

/// The length field of the section that ends the scan and runs to the end
/// of the file.
pub const END_OF_SCAN: u32 = 0xFFFF_FFFF;

/// Number of bytes in a section header.
pub const SECTION_HEADER_LEN: usize = 8;

/// Number of bytes in one record of the character index: a code point, a
/// flags byte and an offset.
pub const INDEX_RECORD_LEN: usize = 9;

/// The reserved bits of the flags byte of an index record.
pub const RESERVED_FLAGS: u8 = 0b111;

/// The tag that the four ASCII letters of `name` spell.
pub open spec fn tag_of(name: Seq<char>) -> u32
    recommends
        name.len() == 4,
{
    be_u32(seq![name[0] as u8, name[1] as u8, name[2] as u8, name[3] as u8]) as u32
}

/// Every tag constant is the number that its four letters spell.
pub proof fn lemma_tags_spell_their_names()
    ensures
        TAG_FILE == tag_of("FILE"@),
        TAG_NAME == tag_of("NAME"@),
        TAG_FAMI == tag_of("FAMI"@),
        TAG_WEIG == tag_of("WEIG"@),
        TAG_SLAN == tag_of("SLAN"@),
        TAG_PTSZ == tag_of("PTSZ"@),
        TAG_MAXW == tag_of("MAXW"@),
        TAG_MAXH == tag_of("MAXH"@),
        TAG_ASCE == tag_of("ASCE"@),
        TAG_DESC == tag_of("DESC"@),
        TAG_CHIX == tag_of("CHIX"@),
        TAG_DATA == tag_of("DATA"@),
{
    reveal_strlit("FILE");
    reveal_strlit("NAME");
    reveal_strlit("FAMI");
    reveal_strlit("WEIG");
    reveal_strlit("SLAN");
    reveal_strlit("PTSZ");
    reveal_strlit("MAXW");
    reveal_strlit("MAXH");
    reveal_strlit("ASCE");
    reveal_strlit("DESC");
    reveal_strlit("CHIX");
    reveal_strlit("DATA");
}

/// The four bytes `P`, `F`, `F`, `2` that the body of the `FILE` section
/// must hold.
pub open spec fn magic() -> Seq<u8> {
    seq![0x50u8, 0x46u8, 0x46u8, 0x32u8]
}

/// A body is the four bytes of `magic` exactly when, read as UTF-8 text, it
/// is `PFF2`.
pub proof fn lemma_magic_is_text(body: Seq<u8>)
    ensures
        body == magic() <==> utf8_text(body) == Some("PFF2"@),
{
    let text = "PFF2"@;
    reveal_strlit("PFF2");
    assert(is_ascii_chars(text));
    is_ascii_chars_encode_utf8(text);
    assert(encode_utf8(text) =~= magic());
    encode_utf8_valid_utf8(text);
    encode_utf8_decode_utf8(text);
    if utf8_text(body) == Some(text) {
        decode_utf8_encode_utf8(body);
    }
}

/// One section of a file: its tag and where its body lies.
pub struct Section {
    pub tag: u32,
    /// Index of the first byte of the body.
    pub start: int,
    /// Number of bytes in the body.
    pub len: int,
}

impl Section {
    /// Where a scan begins: an empty section that ends at the first byte.
    pub open spec fn initial() -> Section {
        Section { tag: 0, start: 0, len: 0 }
    }

    /// Index of the first byte after the body.
    pub open spec fn end(self) -> int {
        self.start + self.len
    }

    /// Whether the body lies inside `data`.
    pub open spec fn inside(self, data: Seq<u8>) -> bool {
        in_bounds(data.len() as int, self.start, self.len)
    }

    /// Whether the section was read from a header in `data`.
    pub open spec fn has_header(self, data: Seq<u8>) -> bool {
        self.inside(data) && self.start >= SECTION_HEADER_LEN
    }

    /// The bytes of the body.
    pub open spec fn body(self, data: Seq<u8>) -> Seq<u8> {
        data.subrange(self.start, self.end())
    }

    /// The four bytes of the tag as they stand in the header.
    pub open spec fn tag_bytes(self, data: Seq<u8>) -> Seq<u8> {
        data.subrange(self.start - 8, self.start - 4)
    }
}

/// What has been learned of a font from its metadata sections.
pub struct FontData {
    pub metrics: FontMetrics,
    /// For each code point, the offset of its glyph definition and its
    /// sequence number.
    pub index: Map<u32, (u32, usize)>,
}

impl FontData {
    /// Nothing learned yet.
    pub open spec fn empty() -> FontData {
        FontData { metrics: FontMetrics::unset(), index: Map::empty() }
    }
}

/// A loaded font: the atlas and, for each code point, its glyph.
pub struct FontModel {
    /// The grid of cells of the atlas, and with it the atlas's size.
    pub layout: AtlasLayout,
    /// The pixels of the atlas, row by row.
    pub pixels: Seq<RGBA8>,
    pub glyphs: Map<u32, FontGlyph>,
}

/// Reads the header that follows the section `prev`. The answer is the
/// section found and whether the scan goes on after it.
pub open spec fn spec_read_section(data: Seq<u8>, prev: Section) -> Result<
    (Section, bool),
    SpecFormatError,
> {
    let at = prev.end();
    if !in_bounds(data.len() as int, at, SECTION_HEADER_LEN as int) {
        Err(SpecFormatError::TruncatedInput)
    } else {
        let tag = u32_at(data, at);
        let declared = u32_at(data, at + 4);
        let start = at + SECTION_HEADER_LEN;
        if declared == END_OF_SCAN {
            Ok((Section { tag, start, len: data.len() - start }, false))
        } else if start + declared > data.len() {
            Err(SpecFormatError::TruncatedInput)
        } else {
            Ok((Section { tag, start, len: declared as int }, true))
        }
    }
}

/// The error for a first section whose tag is not `FILE`.
pub open spec fn signature_error(data: Seq<u8>, section: Section) -> SpecFormatError {
    match utf8_text(section.tag_bytes(data)) {
        Some(found) => SpecFormatError::BadSignature { found },
        None => SpecFormatError::EncodingError,
    }
}

/// The error for a `FILE` section whose body is not `PFF2`.
pub open spec fn magic_error(data: Seq<u8>, section: Section) -> SpecFormatError {
    match utf8_text(section.body(data)) {
        Some(found) => SpecFormatError::BadMagic { found },
        None => SpecFormatError::EncodingError,
    }
}

/// The error for a scan that ends on a section other than `DATA`.
pub open spec fn unexpected_section_error(data: Seq<u8>, section: Section) -> SpecFormatError {
    match utf8_text(section.tag_bytes(data)) {
        Some(found) => SpecFormatError::UnexpectedSection { found },
        None => SpecFormatError::EncodingError,
    }
}

/// The big-endian `u16` that a metric section holds at the start of its
/// body.
pub open spec fn spec_read_metric(data: Seq<u8>, section: Section) -> Result<u16, SpecFormatError> {
    if section.len < 2 {
        Err(SpecFormatError::TruncatedInput)
    } else {
        Ok(u16_at(data, section.start))
    }
}

/// Takes `remaining` index records, the first at `data[at..at + 9]`, into
/// `index`, in file order.
pub open spec fn spec_index_records(
    data: Seq<u8>,
    at: int,
    remaining: nat,
    index: Map<u32, (u32, usize)>,
) -> Result<Map<u32, (u32, usize)>, SpecFormatError>
    decreases remaining,
{
    if remaining == 0 {
        Ok(index)
    } else {
        let code_point = u32_at(data, at);
        let flags = data[at + 4];
        let offset = u32_at(data, at + 5);
        if flags & RESERVED_FLAGS != 0 {
            Err(SpecFormatError::InvalidFlags { code_point, flags })
        } else {
            spec_index_records(
                data,
                at + INDEX_RECORD_LEN,
                (remaining - 1) as nat,
                index_insert(index, code_point, offset),
            )
        }
    }
}

/// Reads a character index section into an index that must still be empty.
pub open spec fn spec_parse_character_index(
    data: Seq<u8>,
    section: Section,
    index: Map<u32, (u32, usize)>,
) -> Result<Map<u32, (u32, usize)>, SpecFormatError> {
    if index.dom().len() != 0 {
        Err(SpecFormatError::DuplicateSection)
    } else if section.len % (INDEX_RECORD_LEN as int) != 0 {
        Err(SpecFormatError::RecordSizeMismatch { length: section.len as usize })
    } else {
        spec_index_records(
            data,
            section.start,
            (section.len / (INDEX_RECORD_LEN as int)) as nat,
            index,
        )
    }
}

/// What one metadata section adds to what is known of the font. The four
/// text sections, and every section with a tag that is not listed here, add
/// nothing and are no error.
pub open spec fn spec_parse_section(data: Seq<u8>, section: Section, font: FontData) -> Result<
    FontData,
    SpecFormatError,
> {
    if section.tag == TAG_PTSZ {
        match spec_read_metric(data, section) {
            Ok(v) => Ok(FontData { metrics: FontMetrics { point_size: v, ..font.metrics }, ..font }),
            Err(e) => Err(e),
        }
    } else if section.tag == TAG_MAXW {
        match spec_read_metric(data, section) {
            Ok(v) => Ok(FontData { metrics: FontMetrics { max_width: v, ..font.metrics }, ..font }),
            Err(e) => Err(e),
        }
    } else if section.tag == TAG_MAXH {
        match spec_read_metric(data, section) {
            Ok(v) => Ok(FontData { metrics: FontMetrics { max_height: v, ..font.metrics }, ..font }),
            Err(e) => Err(e),
        }
    } else if section.tag == TAG_ASCE {
        match spec_read_metric(data, section) {
            Ok(v) => Ok(FontData { metrics: FontMetrics { ascent: v, ..font.metrics }, ..font }),
            Err(e) => Err(e),
        }
    } else if section.tag == TAG_DESC {
        match spec_read_metric(data, section) {
            Ok(v) => Ok(FontData { metrics: FontMetrics { descent: v, ..font.metrics }, ..font }),
            Err(e) => Err(e),
        }
    } else if section.tag == TAG_CHIX {
        match spec_parse_character_index(data, section, font.index) {
            Ok(index) => Ok(FontData { index, ..font }),
            Err(e) => Err(e),
        }
    } else {
        Ok(font)
    }
}

/// Walks the sections that follow `section`, taking each into `font`, until
/// one carries the end-of-scan mark. The answer is that last section and
/// what is known of the font by then.
pub open spec fn spec_scan(data: Seq<u8>, section: Section, font: FontData) -> Result<
    (Section, FontData),
    SpecFormatError,
>
    decreases data.len() - section.end(),
{
    match spec_read_section(data, section) {
        Err(e) => Err(e),
        Ok((next, more)) => if !more {
            Ok((next, font))
        } else {
            match spec_parse_section(data, next, font) {
                Err(e) => Err(e),
                Ok(font) => spec_scan(data, next, font),
            }
        },
    }
}

/// Everything that comes before the glyphs: the signature, the metadata
/// sections, and the check that the scan ended on `DATA`.
pub open spec fn spec_font_data(data: Seq<u8>) -> Result<FontData, SpecFormatError> {
    match spec_read_section(data, Section::initial()) {
        Err(e) => Err(e),
        Ok((first, _)) => if first.tag != TAG_FILE {
            Err(signature_error(data, first))
        } else if first.body(data) != magic() {
            Err(magic_error(data, first))
        } else {
            match spec_scan(data, first, FontData::empty()) {
                Err(e) => Err(e),
                Ok((last, font)) => if last.tag != TAG_DATA {
                    Err(unexpected_section_error(data, last))
                } else {
                    Ok(font)
                },
            }
        },
    }
}

/// Whether the definition of some indexed glyph runs past the end of the
/// file.
pub open spec fn some_glyph_truncated(data: Seq<u8>, index: Map<u32, (u32, usize)>) -> bool {
    exists|cp: u32| #[trigger] index.dom().contains(cp) && !glyph_in_bounds(data, index[cp].0 as int)
}

/// Whether some indexed glyph is larger than a cell of `layout`.
pub open spec fn some_glyph_too_large(
    data: Seq<u8>,
    index: Map<u32, (u32, usize)>,
    layout: AtlasLayout,
) -> bool {
    exists|cp: u32| #[trigger]
        index.dom().contains(cp) && !char_def_at(data, index[cp].0 as int).fits_cell(layout)
}

/// Whether some indexed glyph sets the atlas pixel with linear index `p`.
pub open spec fn atlas_pixel_lit(
    data: Seq<u8>,
    index: Map<u32, (u32, usize)>,
    layout: AtlasLayout,
    p: int,
) -> bool {
    exists|cp: u32| #[trigger]
        index.dom().contains(cp) && glyph_lights(
            data,
            index[cp].0 as int,
            layout,
            index[cp].1 as int,
            p,
        )
}

/// The pixels of the atlas: opaque white where a glyph has a set bit,
/// transparent everywhere else.
pub open spec fn atlas_pixels(data: Seq<u8>, index: Map<u32, (u32, usize)>, layout: AtlasLayout) -> Seq<
    RGBA8,
> {
    Seq::new(
        (layout.width * layout.height) as nat,
        |p: int|
            if atlas_pixel_lit(data, index, layout, p) {
                opaque_white()
            } else {
                transparent()
            },
    )
}

/// The glyph of every indexed code point.
pub open spec fn font_glyphs(data: Seq<u8>, font: FontData, layout: AtlasLayout) -> Map<
    u32,
    FontGlyph,
> {
    Map::new(
        |cp: u32| font.index.dom().contains(cp),
        |cp: u32|
            glyph_of(
                char_def_at(data, font.index[cp].0 as int),
                layout,
                font.metrics.point_size,
                font.index[cp].1 as int,
            ),
    )
}

/// Sizes the atlas for the font and decodes every indexed glyph into it.
/// Of the two faults a glyph can have, running past the end of the file is
/// reported before being too large for its cell, whichever glyph has it.
pub open spec fn spec_parse_data_section(data: Seq<u8>, font: FontData) -> Result<
    FontModel,
    SpecFormatError,
> {
    match spec_pack(font.index.dom().len() as int, font.metrics) {
        Err(e) => Err(e),
        Ok(layout) => if some_glyph_truncated(data, font.index) {
            Err(SpecFormatError::TruncatedInput)
        } else if some_glyph_too_large(data, font.index, layout) {
            Err(SpecFormatError::GlyphTooLarge)
        } else {
            Ok(
                FontModel {
                    layout,
                    pixels: atlas_pixels(data, font.index, layout),
                    glyphs: font_glyphs(data, font, layout),
                },
            )
        },
    }
}

/// What loading the file `data` gives.
pub open spec fn spec_load(data: Seq<u8>) -> Result<FontModel, SpecFormatError> {
    match spec_font_data(data) {
        Err(e) => Err(e),
        Ok(font) => spec_parse_data_section(data, font),
    }
}

} // verus!
