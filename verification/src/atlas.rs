//! The atlas image and the drawing of glyph bitmaps into it.

use crate::bytes::lemma_len_fits;
use crate::glyph::{char_def_at, glyph_in_bounds, glyph_lights, PF2CharDef, CHAR_DEF_LEN};
use crate::layout::{lemma_cell_in_atlas, AtlasLayout};
use crate::pixel::{opaque_white, opaque_white_pixel, transparent, transparent_pixel};
use rgb::RGBA8;
use vstd::arithmetic::div_mod::{lemma_fundamental_div_mod, lemma_fundamental_div_mod_converse};
use vstd::prelude::*;

verus! {

/// One image that holds the bitmaps of all glyphs of a font, row by row from
/// the top.
#[derive(Debug)]
pub struct AtlasImage {
    /// Width in pixels.
    pub width: usize,
    /// Height in pixels.
    pub height: usize,
    /// The pixels: that of column `x` and row `y` is `pixels[y * width + x]`.
    pub pixels: Vec<RGBA8>,
}

/// `len` transparent pixels.
pub open spec fn blank(len: nat) -> Seq<RGBA8> {
    Seq::new(len, |p: int| transparent())
}

/// The pixels `base` after the glyph defined at `offset` has been drawn into
/// the cell `sequence`: a set bit makes its pixel opaque white, a clear bit
/// leaves its pixel as it was.
pub open spec fn drawn(
    data: Seq<u8>,
    offset: int,
    layout: AtlasLayout,
    sequence: int,
    base: Seq<RGBA8>,
) -> Seq<RGBA8> {
    Seq::new(
        base.len(),
        |p: int|
            if glyph_lights(data, offset, layout, sequence, p) {
                opaque_white()
            } else {
                base[p]
            },
    )
}

/// The pixels `base` after the first `row` rows of the glyph, and the first
/// `col` pixels of the row after them, have been drawn.
pub open spec fn drawn_upto(
    data: Seq<u8>,
    offset: int,
    layout: AtlasLayout,
    sequence: int,
    base: Seq<RGBA8>,
    row: int,
    col: int,
) -> Seq<RGBA8> {
    Seq::new(
        base.len(),
        |p: int|
            {
                let x = p % (layout.width as int) - layout.cell_x(sequence);
                let y = p / (layout.width as int) - layout.cell_y(sequence);
                if glyph_lights(data, offset, layout, sequence, p) && (y < row || (y == row && x
                    < col)) {
                    opaque_white()
                } else {
                    base[p]
                }
            },
    )
}

impl AtlasImage {
    /// Whether there is one pixel for each position.
    pub open spec fn wf(&self) -> bool {
        self.pixels@.len() == self.width * self.height
    }

    /// A fully transparent atlas of the size that `layout` gives.
    pub(crate) fn new(layout: &AtlasLayout) -> (atlas: AtlasImage)
        requires
            layout.wf(),
        ensures
            atlas.wf(),
            atlas.width == layout.width,
            atlas.height == layout.height,
            atlas.pixels@ == blank((layout.width * layout.height) as nat),
    {
        let total: usize = layout.width * layout.height;
        let mut pixels: Vec<RGBA8> = Vec::new();
        let mut i: usize = 0;
        while i < total
            invariant
                i <= total,
                pixels@ =~= blank(i as nat),
            decreases total - i,
        {
            pixels.push(transparent_pixel());
            i += 1;
        }
        AtlasImage { width: layout.width, height: layout.height, pixels }
    }

    /// Draws the bitmap of the glyph defined at `data[offset..]` into the
    /// cell with sequence number `sequence`.
    pub(crate) fn draw_glyph(
        &mut self,
        data: &[u8],
        offset: usize,
        def: &PF2CharDef,
        layout: &AtlasLayout,
        sequence: usize,
    )
        requires
            old(self).wf(),
            layout.wf(),
            old(self).width == layout.width,
            old(self).height == layout.height,
            glyph_in_bounds(data@, offset as int),
            *def == char_def_at(data@, offset as int),
            def.fits_cell(*layout),
            sequence < layout.cells(),
        ensures
            final(self).wf(),
            final(self).width == old(self).width,
            final(self).height == old(self).height,
            final(self).pixels@ == drawn(
                data@,
                offset as int,
                *layout,
                sequence as int,
                old(self).pixels@,
            ),
    {
        let ghost before = self.pixels@;
        let ghost tw = layout.width as int;
        let ghost th = layout.height as int;
        proof {
            lemma_cell_in_atlas(*layout, sequence as int);
        }
        let x0: usize = (sequence % layout.columns) * (layout.cell_width as usize);
        let y0: usize = (sequence / layout.columns) * (layout.cell_height as usize);
        let w: usize = def.width as usize;
        let h: usize = def.height as usize;
        proof {
            lemma_len_fits(data);
        }
        let bits: usize = offset + CHAR_DEF_LEN;
        assert(w * h <= 0xffff * 0xffff) by (nonlinear_arith)
            requires
                0 <= w <= 0xffff,
                0 <= h <= 0xffff,
        ;
        let mut y: usize = 0;
        while y < h
            invariant
                y <= h,
                self.wf(),
                layout.wf(),
                self.width == layout.width,
                self.height == layout.height,
                tw == layout.width,
                th == layout.height,
                before.len() == tw * th,
                x0 == layout.cell_x(sequence as int),
                y0 == layout.cell_y(sequence as int),
                x0 + w <= tw,
                y0 + h <= th,
                w == def.width,
                h == def.height,
                w * h <= 0xffff * 0xffff,
                *def == char_def_at(data@, offset as int),
                bits == offset + CHAR_DEF_LEN,
                bits + (w * h + 7) / 8 <= data@.len() <= usize::MAX,
                self.pixels@ =~= drawn_upto(
                    data@,
                    offset as int,
                    *layout,
                    sequence as int,
                    before,
                    y as int,
                    0,
                ),
            decreases h - y,
        {
            assert(tw * (y0 + y) + tw <= tw * th) by (nonlinear_arith)
                requires
                    0 <= y0 + y < th,
                    tw >= 0,
            ;
            assert(y * w + w <= w * h) by (nonlinear_arith)
                requires
                    0 <= y < h,
                    w >= 0,
            ;
            let row_start: usize = self.width * (y0 + y) + x0;
            let mut x: usize = 0;
            while x < w
                invariant
                    x <= w,
                    y < h,
                    self.wf(),
                    layout.wf(),
                    self.width == layout.width,
                    self.height == layout.height,
                    tw == layout.width,
                    th == layout.height,
                    before.len() == tw * th,
                    x0 == layout.cell_x(sequence as int),
                    y0 == layout.cell_y(sequence as int),
                    x0 + w <= tw,
                    y0 + h <= th,
                    w == def.width,
                    h == def.height,
                    *def == char_def_at(data@, offset as int),
                    bits == offset + CHAR_DEF_LEN,
                    bits + (w * h + 7) / 8 <= data@.len() <= usize::MAX,
                    y * w + w <= w * h,
                    w * h <= 0xffff * 0xffff,
                    tw * (y0 + y) + tw <= tw * th,
                    row_start == tw * (y0 + y) + x0,
                    self.pixels@ =~= drawn_upto(
                        data@,
                        offset as int,
                        *layout,
                        sequence as int,
                        before,
                        y as int,
                        x as int,
                    ),
                decreases w - x,
            {
                let i: usize = y * w + x;
                let byte: u8 = data[bits + i / 8];
                let shift: u8 = (7 - i % 8) as u8;
                let lit: bool = (byte >> shift) & 1 == 1;
                let ghost q = (row_start + x) as int;
                let ghost prior = self.pixels@;
                if lit {
                    self.pixels.set(row_start + x, opaque_white_pixel());
                }
                proof {
                    assert(q == (y0 + y) * tw + (x0 + x)) by (nonlinear_arith)
                        requires
                            q == tw * (y0 + y) + x0 + x,
                    ;
                    lemma_fundamental_div_mod_converse(q, tw, (y0 + y) as int, (x0 + x) as int);
                    let next = drawn_upto(
                        data@,
                        offset as int,
                        *layout,
                        sequence as int,
                        before,
                        y as int,
                        x + 1,
                    );
                    assert forall|p: int| 0 <= p < before.len() implies #[trigger] self.pixels@[p]
                        == next[p] by {
                        lemma_fundamental_div_mod(p, tw);
                        if p != q {
                            assert(!(p / tw == y0 + y && p % tw == x0 + x));
                        }
                    }
                    assert(self.pixels@ =~= next);
                }
                x += 1;
            }
            proof {
                let done = drawn_upto(
                    data@,
                    offset as int,
                    *layout,
                    sequence as int,
                    before,
                    y as int,
                    w as int,
                );
                let next = drawn_upto(
                    data@,
                    offset as int,
                    *layout,
                    sequence as int,
                    before,
                    y + 1,
                    0,
                );
                assert(done =~= next);
            }
            y += 1;
        }
        assert(self.pixels@ =~= drawn(data@, offset as int, *layout, sequence as int, before));
    }
}

} // verus!
