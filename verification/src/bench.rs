//! A unit of work for timing the loader.

use crate::error::{result_view, FormatError, SpecFormatError};
use crate::font_loader::load;
use crate::format::spec_load;
use crate::glyph::glyph_table_len;
use vstd::prelude::*;

verus! {

/// What `run_test_font_loader` answers for the file `data`: the number of
/// atlas pixels times the number of glyphs, cut to the machine word.
pub open spec fn spec_font_work(data: Seq<u8>) -> Result<usize, SpecFormatError> {
    match spec_load(data) {
        Ok(font) => Ok(
            ((font.pixels.len() * font.glyphs.dom().len()) % ((usize::MAX + 1) as nat)) as usize,
        ),
        Err(e) => Err(e),
    }
}

/// Loads the font in `data` once and boils the result down to one number,
/// so that a caller who times the load has something to consume.
pub fn run_test_font_loader(data: &[u8]) -> (r: Result<usize, FormatError>)
    ensures
        result_view(r) == spec_font_work(data@),
{
    match load(data) {
        Ok(font) => {
            let pixels: usize = font.0.pixels.len();
            let glyphs: usize = glyph_table_len(&font.1);
            Ok(pixels.wrapping_mul(glyphs))
        },
        Err(e) => Err(e),
    }
}

} // verus!
