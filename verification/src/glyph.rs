//! Glyph definitions as they lie in the file, and glyphs as the loader hands
//! them out.

use crate::bytes::{i16_at, in_bounds, u16_at};
use crate::layout::AtlasLayout;
use ahash::AHashMap;
use vstd::prelude::*;

verus! {

/// The fixed header of a glyph definition. The glyph's bitmap follows it in
/// the file: one bit per pixel, row after row without padding between rows,
/// the most significant bit of each byte first.
#[derive(Debug, Clone, Copy, PartialEq, Eq)]
pub struct PF2CharDef {
    /// Width of the bitmap in pixels.
    pub width: u16,
    /// Height of the bitmap in pixels.
    pub height: u16,
    /// Horizontal offset of the bitmap from the pen position, in pixels.
    pub x_offset: i16,
    /// Vertical offset of the bitmap from the baseline, in pixels.
    pub y_offset: i16,
    /// How far the pen advances after the glyph, in pixels.
    pub device_width: i16,
}

/// Number of bytes that the header of a glyph definition takes.
pub const CHAR_DEF_LEN: usize = 10;

impl PF2CharDef {
    /// Number of bytes that the bitmap takes: `ceil(width * height / 8)`.
    pub open spec fn bitmap_len(self) -> int {
        (self.width * self.height + 7) / 8
    }

    /// Whether the bitmap is no larger than one cell of `layout`.
    pub open spec fn fits_cell(self, layout: AtlasLayout) -> bool {
        self.width <= layout.cell_width && self.height <= layout.cell_height
    }
}

/// The glyph header stored at `data[at..at + 10]`.
pub open spec fn char_def_at(data: Seq<u8>, at: int) -> PF2CharDef {
    PF2CharDef {
        width: u16_at(data, at),
        height: u16_at(data, at + 2),
        x_offset: i16_at(data, at + 4),
        y_offset: i16_at(data, at + 6),
        device_width: i16_at(data, at + 8),
    }
}

/// Whether a whole glyph definition, header and bitmap, lies inside `data`
/// from `at` on.
pub open spec fn glyph_in_bounds(data: Seq<u8>, at: int) -> bool {
    &&& in_bounds(data.len() as int, at, CHAR_DEF_LEN as int)
    &&& in_bounds(
        data.len() as int,
        at + CHAR_DEF_LEN as int,
        char_def_at(data, at).bitmap_len(),
    )
}

/// Bit `i` of the bitmap that starts at `data[base]`, counting from the most
/// significant bit of the first byte.
pub open spec fn bitmap_bit(data: Seq<u8>, base: int, i: int) -> bool {
    (data[base + i / 8] >> ((7 - i % 8) as u8)) & 1 == 1
}

/// Whether the glyph defined at `offset`, drawn into the cell `sequence` of
/// `layout`, sets the atlas pixel with linear index `p`.
pub open spec fn glyph_lights(
    data: Seq<u8>,
    offset: int,
    layout: AtlasLayout,
    sequence: int,
    p: int,
) -> bool {
    let def = char_def_at(data, offset);
    let x = p % (layout.width as int) - layout.cell_x(sequence);
    let y = p / (layout.width as int) - layout.cell_y(sequence);
    &&& 0 <= x < def.width
    &&& 0 <= y < def.height
    &&& bitmap_bit(data, offset + CHAR_DEF_LEN as int, y * def.width + x)
}

/// An exact quotient `num / den` of two whole numbers.
#[derive(Debug, Clone, Copy, PartialEq, Eq)]
pub struct Ratio {
    pub num: i128,
    pub den: u64,
}

/// A pair of quotients: a point or an extent in the plane.
#[derive(Debug, Clone, Copy, PartialEq, Eq)]
pub struct Ratio2 {
    pub x: Ratio,
    pub y: Ratio,
}

/// One glyph of a loaded font. Every field is a pixel quantity over what
/// normalises it: the atlas dimensions for the texture fields, the font's
/// point size for the others.
#[derive(Debug, Clone, Copy, PartialEq, Eq)]
pub struct FontGlyph {
    /// Top left corner of the glyph in the atlas, as fractions of the atlas
    /// width and height.
    pub tex_coord: Ratio2,
    /// Extent of the glyph in the atlas, as fractions of the atlas width and
    /// height.
    pub tex_size: Ratio2,
    /// Offset of the bitmap from the pen position, in em.
    pub offset: Ratio2,
    /// Extent of the bitmap, in em.
    pub size: Ratio2,
    /// Advance of the pen, in em.
    pub width: Ratio,
}

/// The glyph that the loader hands out for the definition `def` placed in
/// the cell `sequence` of `layout`, in a font of `point_size` pixels per em.
pub open spec fn glyph_of(def: PF2CharDef, layout: AtlasLayout, point_size: u16, sequence: int) -> FontGlyph {
    FontGlyph {
        tex_coord: Ratio2 {
            x: Ratio { num: layout.cell_x(sequence) as i128, den: layout.width as u64 },
            y: Ratio { num: layout.cell_y(sequence) as i128, den: layout.height as u64 },
        },
        tex_size: Ratio2 {
            x: Ratio { num: def.width as i128, den: layout.width as u64 },
            y: Ratio { num: def.height as i128, den: layout.height as u64 },
        },
        offset: Ratio2 {
            x: Ratio { num: def.x_offset as i128, den: point_size as u64 },
            y: Ratio { num: def.y_offset as i128, den: point_size as u64 },
        },
        size: Ratio2 {
            x: Ratio { num: def.width as i128, den: point_size as u64 },
            y: Ratio { num: def.height as i128, den: point_size as u64 },
        },
        width: Ratio { num: def.device_width as i128, den: point_size as u64 },
    }
}

/// The glyphs that a map from code point to glyph holds.
pub uninterp spec fn glyph_table(m: AHashMap<u32, FontGlyph>) -> Map<u32, FontGlyph>;

/// Calls `AHashMap::new`, which builds a map without entries.
#[verifier::external_body]
pub(crate) fn glyph_table_new() -> (m: AHashMap<u32, FontGlyph>)
    ensures
        glyph_table(m) =~= Map::empty(),
{
    AHashMap::new()
}

/// Calls `HashMap::len` through `AHashMap`'s `Deref`: the number of entries.
#[verifier::external_body]
pub(crate) fn glyph_table_len(m: &AHashMap<u32, FontGlyph>) -> (n: usize)
    ensures
        n == glyph_table(*m).dom().len(),
{
    m.len()
}

/// Calls `AHashMap::insert`: afterwards `key` maps to `glyph`, and every
/// other key maps to what it did before.
#[verifier::external_body]
pub(crate) fn glyph_table_insert(m: &mut AHashMap<u32, FontGlyph>, key: u32, glyph: FontGlyph)
    ensures
        glyph_table(*final(m)) == glyph_table(*old(m)).insert(key, glyph),
{
    m.insert(key, glyph);
}

} // verus!
