//! What holds of every load, proved from the definitions in `format`.

use crate::atlas::AtlasImage;
use crate::bytes::u32_at;
use crate::error::FormatError;
use crate::font_loader::load_outcome;
use crate::format::{
    atlas_pixel_lit, spec_font_data, spec_index_records, spec_load, spec_parse_section,
    spec_read_section, spec_scan, FontData, Section, INDEX_RECORD_LEN,
};
use crate::glyph::{char_def_at, glyph_lights, glyph_table, FontGlyph};
use crate::index::{index_insert, index_wf, lemma_index_insert_wf};
use crate::layout::{lemma_cell_in_atlas, lemma_layout_of_wf};
use crate::pixel::{opaque_white, transparent};
use ahash::AHashMap;
use vstd::arithmetic::div_mod::{lemma_fundamental_div_mod, lemma_mod_multiples_basic};
use vstd::prelude::*;

verus! {

/// Records taken into a well-formed index leave it well-formed.
proof fn lemma_index_records_wf(
    data: Seq<u8>,
    at: int,
    remaining: nat,
    index: Map<u32, (u32, usize)>,
)
    requires
        index_wf(index),
        index.dom().len() + remaining <= usize::MAX,
    ensures
        spec_index_records(data, at, remaining, index) matches Ok(after) ==> index_wf(after)
            && after.dom().len() <= index.dom().len() + remaining,
    decreases remaining,
{
    if remaining > 0 {
        let code_point = u32_at(data, at);
        let offset = u32_at(data, at + 5);
        lemma_index_insert_wf(index, code_point, offset);
        lemma_index_records_wf(
            data,
            at + INDEX_RECORD_LEN,
            (remaining - 1) as nat,
            index_insert(index, code_point, offset),
        );
    }
}

/// A metadata section leaves the index well-formed.
proof fn lemma_parse_section_wf(data: Seq<u8>, section: Section, font: FontData)
    requires
        data.len() <= usize::MAX,
        section.inside(data),
        index_wf(font.index),
    ensures
        spec_parse_section(data, section, font) matches Ok(after) ==> index_wf(after.index),
{
    if font.index.dom().len() == 0 && section.len % (INDEX_RECORD_LEN as int) == 0 {
        lemma_index_records_wf(
            data,
            section.start,
            (section.len / (INDEX_RECORD_LEN as int)) as nat,
            font.index,
        );
    }
}

/// A scan leaves the index well-formed and ends on a section that was read
/// from a header.
proof fn lemma_scan_wf(data: Seq<u8>, section: Section, font: FontData)
    requires
        data.len() <= usize::MAX,
        section.inside(data),
        index_wf(font.index),
    ensures
        spec_scan(data, section, font) matches Ok(end) ==> index_wf(end.1.index)
            && end.0.has_header(data),
    decreases data.len() - section.end(),
{
    match spec_read_section(data, section) {
        Err(_) => {},
        Ok((next, more)) => {
            if more {
                lemma_parse_section_wf(data, next, font);
                match spec_parse_section(data, next, font) {
                    Err(_) => {},
                    Ok(after) => {
                        lemma_scan_wf(data, next, after);
                    },
                }
            }
        },
    }
}

/// The character index of every file that gets as far as its glyphs is
/// well-formed: its sequence numbers are distinct and count up from zero
/// without reaching the number of entries.
pub proof fn lemma_font_data_wf(data: Seq<u8>)
    requires
        data.len() <= usize::MAX,
    ensures
        spec_font_data(data) matches Ok(font) ==> index_wf(font.index),
{
    match spec_read_section(data, Section::initial()) {
        Err(_) => {},
        Ok((first, _)) => {
            lemma_scan_wf(data, first, FontData::empty());
        },
    }
}

/// A load that succeeds gives an atlas with exactly `width * height`
/// pixels, and a glyph for exactly the code points of the character index.
pub proof fn lemma_load_complete(data: Seq<u8>)
    requires
        spec_load(data) is Ok,
    ensures
        spec_font_data(data) is Ok,
        ({
            let font = spec_font_data(data)->Ok_0;
            let model = spec_load(data)->Ok_0;
            &&& model.pixels.len() == model.layout.width * model.layout.height
            &&& model.glyphs.dom() == font.index.dom()
        }),
{
    let font = spec_font_data(data)->Ok_0;
    let model = spec_load(data)->Ok_0;
    assert(model.glyphs.dom() =~= font.index.dom());
    assert(model.layout.width * model.layout.height >= 0) by (nonlinear_arith)
        requires
            model.layout.width >= 0,
            model.layout.height >= 0,
    ;
}

/// The size of the atlas depends on nothing but the number of indexed
/// glyphs and the two glyph maxima: two files that agree on these three get
/// the same grid and atlases of the same size, whatever their glyphs look
/// like.
pub proof fn lemma_atlas_size_by_counts(a: Seq<u8>, b: Seq<u8>)
    requires
        spec_load(a) is Ok,
        spec_load(b) is Ok,
        spec_font_data(a)->Ok_0.index.dom().len() == spec_font_data(b)->Ok_0.index.dom().len(),
        spec_font_data(a)->Ok_0.metrics.max_width == spec_font_data(b)->Ok_0.metrics.max_width,
        spec_font_data(a)->Ok_0.metrics.max_height == spec_font_data(b)->Ok_0.metrics.max_height,
    ensures
        spec_load(a)->Ok_0.layout == spec_load(b)->Ok_0.layout,
        spec_load(a)->Ok_0.pixels.len() == spec_load(b)->Ok_0.pixels.len(),
{
}

/// Loading is a function of the buffer: two loads of the same bytes give
/// the same pixels and the same glyphs, or fail with the same error.
pub proof fn lemma_load_deterministic(
    data: Seq<u8>,
    first: Result<(AtlasImage, AHashMap<u32, FontGlyph>), FormatError>,
    second: Result<(AtlasImage, AHashMap<u32, FontGlyph>), FormatError>,
)
    requires
        load_outcome(first, spec_load(data)),
        load_outcome(second, spec_load(data)),
    ensures
        match (first, second) {
            (Ok(x), Ok(y)) => {
                &&& x.0.width == y.0.width
                &&& x.0.height == y.0.height
                &&& x.0.pixels@ == y.0.pixels@
                &&& glyph_table(x.1) == glyph_table(y.1)
            },
            (Err(x), Err(y)) => x@ == y@,
            _ => false,
        },
{
}

/// Every glyph sits on the grid of cells: its texture coordinates are
/// fractions of the atlas width and height, and their numerators, which are
/// the coordinates times those dimensions, are whole multiples of the
/// maximum glyph width and height.
pub proof fn lemma_glyph_cell_aligned(data: Seq<u8>, code_point: u32)
    requires
        data.len() <= usize::MAX,
        spec_load(data) is Ok,
        spec_load(data)->Ok_0.glyphs.dom().contains(code_point),
    ensures
        spec_font_data(data) is Ok,
        ({
            let font = spec_font_data(data)->Ok_0;
            let model = spec_load(data)->Ok_0;
            let glyph = model.glyphs[code_point];
            &&& font.metrics.max_width > 0
            &&& font.metrics.max_height > 0
            &&& glyph.tex_coord.x.den == model.layout.width
            &&& glyph.tex_coord.y.den == model.layout.height
            &&& 0 <= glyph.tex_coord.x.num < model.layout.width
            &&& 0 <= glyph.tex_coord.y.num < model.layout.height
            &&& (glyph.tex_coord.x.num as int) % (font.metrics.max_width as int) == 0
            &&& (glyph.tex_coord.y.num as int) % (font.metrics.max_height as int) == 0
        }),
{
    let font = spec_font_data(data)->Ok_0;
    let layout = spec_load(data)->Ok_0.layout;
    let sequence = font.index[code_point].1 as int;
    lemma_font_data_wf(data);
    lemma_layout_of_wf(
        font.index.dom().len() as int,
        font.metrics.max_width,
        font.metrics.max_height,
    );
    lemma_cell_in_atlas(layout, sequence);
    lemma_mod_multiples_basic(sequence % (layout.columns as int), layout.cell_width as int);
    lemma_mod_multiples_basic(sequence / (layout.columns as int), layout.cell_height as int);
}

/// No quotient of a loaded glyph divides by zero: the atlas has at least one
/// column and one row of cells that are at least one pixel wide and high,
/// and a font without a point size does not load.
pub proof fn lemma_glyph_ratios_defined(data: Seq<u8>, code_point: u32)
    requires
        spec_load(data) is Ok,
        spec_load(data)->Ok_0.glyphs.dom().contains(code_point),
    ensures
        ({
            let glyph = spec_load(data)->Ok_0.glyphs[code_point];
            &&& glyph.tex_coord.x.den > 0
            &&& glyph.tex_coord.y.den > 0
            &&& glyph.tex_size.x.den > 0
            &&& glyph.tex_size.y.den > 0
            &&& glyph.offset.x.den > 0
            &&& glyph.offset.y.den > 0
            &&& glyph.size.x.den > 0
            &&& glyph.size.y.den > 0
            &&& glyph.width.den > 0
        }),
{
    let font = spec_font_data(data)->Ok_0;
    let layout = spec_load(data)->Ok_0.layout;
    lemma_layout_of_wf(
        font.index.dom().len() as int,
        font.metrics.max_width,
        font.metrics.max_height,
    );
    assert(layout.columns * layout.cell_width >= 1 && layout.rows * layout.cell_height >= 1)
        by (nonlinear_arith)
        requires
            layout.columns >= 1,
            layout.cell_width >= 1,
            layout.rows >= 1,
            layout.cell_height >= 1,
    ;
}

/// A number lies in at most one block of `m` consecutive numbers that
/// starts at a multiple of `m`.
proof fn lemma_one_block(a: int, b: int, x: int, m: int)
    requires
        m > 0,
        a * m <= x < a * m + m,
        b * m <= x < b * m + m,
    ensures
        a == b,
{
    assert(a == b) by (nonlinear_arith)
        requires
            m > 0,
            a * m <= x < a * m + m,
            b * m <= x < b * m + m,
    ;
}

/// Cells do not overlap, and each shows its own glyph and nothing else:
/// inside the cell of an indexed code point, a pixel is opaque white where
/// the bitmap of that code point's glyph has a set bit, and transparent
/// everywhere else, whatever the other glyphs hold.
pub proof fn lemma_cell_shows_own_glyph(data: Seq<u8>, code_point: u32, p: int)
    requires
        data.len() <= usize::MAX,
        spec_load(data) is Ok,
        spec_load(data)->Ok_0.glyphs.dom().contains(code_point),
        0 <= p < spec_load(data)->Ok_0.pixels.len(),
        ({
            let layout = spec_load(data)->Ok_0.layout;
            let sequence = spec_font_data(data)->Ok_0.index[code_point].1 as int;
            let x = p % (layout.width as int);
            let y = p / (layout.width as int);
            &&& layout.cell_x(sequence) <= x < layout.cell_x(sequence) + layout.cell_width
            &&& layout.cell_y(sequence) <= y < layout.cell_y(sequence) + layout.cell_height
        }),
    ensures
        ({
            let model = spec_load(data)->Ok_0;
            let entry = spec_font_data(data)->Ok_0.index[code_point];
            let lit = glyph_lights(data, entry.0 as int, model.layout, entry.1 as int, p);
            model.pixels[p] == (if lit {
                opaque_white()
            } else {
                transparent()
            })
        }),
{
    let index = spec_font_data(data)->Ok_0.index;
    let metrics = spec_font_data(data)->Ok_0.metrics;
    let layout = spec_load(data)->Ok_0.layout;
    let entry = index[code_point];
    let c = layout.columns as int;
    let x = p % (layout.width as int);
    let y = p / (layout.width as int);
    lemma_font_data_wf(data);
    lemma_layout_of_wf(index.dom().len() as int, metrics.max_width, metrics.max_height);
    if atlas_pixel_lit(data, index, layout, p) {
        let other = choose|cp: u32| #[trigger]
            index.dom().contains(cp) && glyph_lights(
                data,
                index[cp].0 as int,
                layout,
                index[cp].1 as int,
                p,
            );
        let s1 = entry.1 as int;
        let s2 = index[other].1 as int;
        assert(char_def_at(data, index[other].0 as int).fits_cell(layout));
        lemma_one_block(s1 % c, s2 % c, x, layout.cell_width as int);
        lemma_one_block(s1 / c, s2 / c, y, layout.cell_height as int);
        lemma_fundamental_div_mod(s1, c);
        lemma_fundamental_div_mod(s2, c);
        assert(s1 == s2);
        assert(other == code_point);
    }
}

} // verus!
