//! The atlas packer: a near-square grid of equal cells, one per glyph.

use crate::error::{result_view, FormatError, SpecFormatError};
use crate::metrics::FontMetrics;
use vstd::arithmetic::div_mod::{lemma_mod_bound, lemma_multiply_divide_lt, lemma_div_pos_is_pos};
use vstd::prelude::*;

verus! {

/// Whether `c` is the square root of `n * h / w`, rounded up to a whole
/// number: the least `c` whose square, times `w`, reaches `n * h`.
pub open spec fn is_column_count(c: int, n: int, w: int, h: int) -> bool {
    &&& c >= 1
    &&& c * c * w >= n * h
    &&& (c - 1) * (c - 1) * w < n * h
}

/// Number of cells in one row of an atlas for `n` glyphs in cells `w` wide
/// and `h` high: `ceil(sqrt(n * h / w))`, so that taller cells give fewer
/// columns.
pub open spec fn column_count(n: int, w: int, h: int) -> int {
    choose|c: int| is_column_count(c, n, w, h)
}

/// Number of rows of cells: `ceil(n / columns)`.
pub open spec fn row_count(n: int, w: int, h: int) -> int {
    (n + column_count(n, w, h) - 1) / column_count(n, w, h)
}

/// Width of the atlas in pixels.
pub open spec fn atlas_width(n: int, w: int, h: int) -> int {
    column_count(n, w, h) * w
}

/// Height of the atlas in pixels.
pub open spec fn atlas_height(n: int, w: int, h: int) -> int {
    row_count(n, w, h) * h
}

/// Whether the atlas has no more pixels than a `usize` can count.
pub open spec fn atlas_fits(n: int, w: int, h: int) -> bool {
    atlas_width(n, w, h) * atlas_height(n, w, h) <= usize::MAX
}

/// The grid that holds the glyphs of one font.
#[derive(Debug, Clone, Copy, PartialEq, Eq)]
pub struct AtlasLayout {
    /// Cells per row.
    pub columns: usize,
    /// Rows of cells.
    pub rows: usize,
    /// Width of one cell in pixels.
    pub cell_width: u16,
    /// Height of one cell in pixels.
    pub cell_height: u16,
    /// Width of the atlas in pixels: `columns * cell_width`.
    pub width: usize,
    /// Height of the atlas in pixels: `rows * cell_height`.
    pub height: usize,
}

impl AtlasLayout {
    /// The layout for `n` glyphs in cells of `w` by `h` pixels.
    pub open spec fn of(n: int, w: u16, h: u16) -> AtlasLayout
        recommends
            atlas_fits(n, w as int, h as int),
    {
        AtlasLayout {
            columns: column_count(n, w as int, h as int) as usize,
            rows: row_count(n, w as int, h as int) as usize,
            cell_width: w,
            cell_height: h,
            width: atlas_width(n, w as int, h as int) as usize,
            height: atlas_height(n, w as int, h as int) as usize,
        }
    }

    /// What holds of every layout that the packer hands out.
    pub open spec fn wf(self) -> bool {
        &&& self.columns >= 1
        &&& self.rows >= 1
        &&& self.cell_width >= 1
        &&& self.cell_height >= 1
        &&& self.width == self.columns * self.cell_width
        &&& self.height == self.rows * self.cell_height
        &&& self.width * self.height <= usize::MAX
    }

    /// Left edge, in pixels, of the cell with sequence number `sequence`.
    pub open spec fn cell_x(self, sequence: int) -> int {
        (sequence % (self.columns as int)) * self.cell_width
    }

    /// Top edge, in pixels, of the cell with sequence number `sequence`.
    pub open spec fn cell_y(self, sequence: int) -> int {
        (sequence / (self.columns as int)) * self.cell_height
    }

    /// Number of cells in the grid.
    pub open spec fn cells(self) -> int {
        self.columns * self.rows
    }
}

/// What the packer answers for `n` indexed glyphs and the metrics `m`.
pub open spec fn spec_pack(n: int, m: FontMetrics) -> Result<AtlasLayout, SpecFormatError> {
    if n == 0 {
        Err(SpecFormatError::EmptyIndex)
    } else if !m.complete() {
        Err(SpecFormatError::MissingMetrics)
    } else if !atlas_fits(n, m.max_width as int, m.max_height as int) {
        Err(SpecFormatError::AtlasTooLarge)
    } else {
        Ok(AtlasLayout::of(n, m.max_width, m.max_height))
    }
}

/// At most one number is the column count of given `n`, `w` and `h`.
pub proof fn lemma_column_count_unique(c1: int, c2: int, n: int, w: int, h: int)
    requires
        w >= 1,
        is_column_count(c1, n, w, h),
        is_column_count(c2, n, w, h),
    ensures
        c1 == c2,
{
    if c1 < c2 {
        assert(c1 * c1 * w <= (c2 - 1) * (c2 - 1) * w) by (nonlinear_arith)
            requires
                1 <= c1 <= c2 - 1,
                w >= 1,
        ;
    } else if c2 < c1 {
        assert(c2 * c2 * w <= (c1 - 1) * (c1 - 1) * w) by (nonlinear_arith)
            requires
                1 <= c2 <= c1 - 1,
                w >= 1,
        ;
    }
}

/// A number found to be the column count is the one that `column_count`
/// names.
pub proof fn lemma_column_count_is(c: int, n: int, w: int, h: int)
    requires
        w >= 1,
        is_column_count(c, n, w, h),
    ensures
        column_count(n, w, h) == c,
{
    lemma_column_count_unique(c, column_count(n, w, h), n, w, h);
}

/// Every cell with a sequence number below the number of cells lies inside
/// the atlas.
pub proof fn lemma_cell_in_atlas(layout: AtlasLayout, sequence: int)
    requires
        layout.wf(),
        0 <= sequence < layout.cells(),
    ensures
        0 <= layout.cell_x(sequence),
        layout.cell_x(sequence) + layout.cell_width <= layout.width,
        0 <= layout.cell_y(sequence),
        layout.cell_y(sequence) + layout.cell_height <= layout.height,
{
    let c = layout.columns as int;
    let r = layout.rows as int;
    let w = layout.cell_width as int;
    let h = layout.cell_height as int;
    lemma_mod_bound(sequence, c);
    lemma_multiply_divide_lt(sequence, c, r);
    lemma_div_pos_is_pos(sequence, c);
    let column = sequence % c;
    let row = sequence / c;
    assert(0 <= column * w && column * w + w <= c * w) by (nonlinear_arith)
        requires
            0 <= column < c,
            w >= 1,
    ;
    assert(0 <= row * h && row * h + h <= r * h) by (nonlinear_arith)
        requires
            0 <= row < r,
            h >= 1,
    ;
}

/// The layout that the packer's formula gives is well-formed and has a
/// cell for every glyph, whenever the atlas fits the machine word.
pub proof fn lemma_layout_of_wf(n: int, w: u16, h: u16)
    requires
        n >= 1,
        w >= 1,
        h >= 1,
        atlas_fits(n, w as int, h as int),
    ensures
        AtlasLayout::of(n, w, h).wf(),
        AtlasLayout::of(n, w, h).cells() >= n,
        AtlasLayout::of(n, w, h).columns == column_count(n, w as int, h as int),
        AtlasLayout::of(n, w, h).rows == row_count(n, w as int, h as int),
        AtlasLayout::of(n, w, h).width == atlas_width(n, w as int, h as int),
        AtlasLayout::of(n, w, h).height == atlas_height(n, w as int, h as int),
        is_column_count(column_count(n, w as int, h as int), n, w as int, h as int),
{
    lemma_column_count_exists(n, w as int, h as int);
    let c = column_count(n, w as int, h as int);
    let r = row_count(n, w as int, h as int);
    assert(r == (n - 1) / c + 1 && r >= 1 && c * r >= n) by (nonlinear_arith)
        requires
            c >= 1,
            n >= 1,
            r == (n + c - 1) / c,
    ;
    let width = c * w;
    let height = r * h;
    assert(width * height >= height && width * height >= width && height >= r && width >= c)
        by (nonlinear_arith)
        requires
            width == c * w,
            height == r * h,
            c >= 1,
            r >= 1,
            w >= 1,
            h >= 1,
    ;
}

/// Some number is the column count of given `n`, `w` and `h`.
pub proof fn lemma_column_count_exists(n: int, w: int, h: int)
    requires
        n >= 1,
        w >= 1,
        h >= 1,
    ensures
        is_column_count(column_count(n, w, h), n, w, h),
{
    assert((1 - 1) * (1 - 1) * w < n * h) by (nonlinear_arith)
        requires
            n >= 1,
            h >= 1,
    ;
    lemma_column_count_search(1, n, w, h);
}

/// Counting up from a number whose predecessor is too small finds the
/// column count.
proof fn lemma_column_count_search(c: int, n: int, w: int, h: int)
    requires
        c >= 1,
        n >= 1,
        w >= 1,
        h >= 1,
        (c - 1) * (c - 1) * w < n * h,
    ensures
        exists|k: int| is_column_count(k, n, w, h),
    decreases n * h - (c - 1) * (c - 1) * w,
{
    if c * c * w >= n * h {
        assert(is_column_count(c, n, w, h));
    } else {
        assert((c - 1) * (c - 1) * w < c * c * w) by (nonlinear_arith)
            requires
                c >= 1,
                w >= 1,
        ;
        lemma_column_count_search(c + 1, n, w, h);
    }
}

/// Binary search for the column count.
fn find_column_count(n: usize, w: u16, h: u16) -> (c: u64)
    requires
        n >= 1,
        w >= 1,
        h >= 1,
    ensures
        is_column_count(c as int, n as int, w as int, h as int),
        c <= 0x100_0000_0000,
{
    assert(1 <= n * h < 0x1_0000_0000_0000_0000_0000) by (nonlinear_arith)
        requires
            1 <= n <= 0xffff_ffff_ffff_ffff,
            1 <= h <= 0xffff,
    ;
    let target: u128 = (n as u128) * (h as u128);
    let mut lo: u64 = 1;
    let mut hi: u64 = 0x100_0000_0000;
    assert(hi * hi * w >= target) by (nonlinear_arith)
        requires
            hi == 0x100_0000_0000,
            w >= 1,
            target < 0x1_0000_0000_0000_0000_0000,
    ;
    assert((lo - 1) * (lo - 1) * w == 0) by (nonlinear_arith)
        requires
            lo == 1,
    ;
    while lo < hi
        invariant
            1 <= lo <= hi <= 0x100_0000_0000,
            w >= 1,
            target == n * h,
            (lo - 1) * (lo - 1) * w < target,
            hi * hi * w >= target,
        decreases hi - lo,
    {
        let mid: u64 = lo + (hi - lo) / 2;
        assert(mid * mid * w <= 0x1_0000_0000_0000_0000_0000 * 0xffff) by (nonlinear_arith)
            requires
                0 <= mid <= 0x100_0000_0000,
                0 <= w <= 0xffff,
        ;
        assert(mid * mid <= 0x1_0000_0000_0000_0000_0000) by (nonlinear_arith)
            requires
                0 <= mid <= 0x100_0000_0000,
        ;
        let reach: u128 = (mid as u128) * (mid as u128) * (w as u128);
        if reach >= target {
            hi = mid;
        } else {
            lo = mid + 1;
        }
    }
    lo
}

/// Sizes the atlas for `glyph_count` glyphs. Only the count and the two
/// maxima decide the size, and no glyph is looked at.
pub fn pack_atlas(glyph_count: usize, metrics: &FontMetrics) -> (r: Result<
    AtlasLayout,
    FormatError,
>)
    ensures
        result_view(r) == spec_pack(glyph_count as int, *metrics),
        r matches Ok(layout) ==> layout.wf() && layout.cells() >= glyph_count,
{
    if glyph_count == 0 {
        return Err(FormatError::EmptyIndex);
    }
    if !metrics.is_complete() {
        return Err(FormatError::MissingMetrics);
    }
    let w: u16 = metrics.max_width;
    let h: u16 = metrics.max_height;
    let columns: u64 = find_column_count(glyph_count, w, h);
    let rows: u64 = (glyph_count as u64 - 1) / columns + 1;
    assert(columns * w <= 0x100_0000_0000 * 0xffff && rows * h <= 0xffff_ffff_ffff_ffff * 0xffff)
        by (nonlinear_arith)
        requires
            0 <= columns <= 0x100_0000_0000,
            0 <= rows <= 0xffff_ffff_ffff_ffff,
            0 <= w <= 0xffff,
            0 <= h <= 0xffff,
    ;
    let width: u64 = columns * (w as u64);
    let height: u128 = (rows as u128) * (h as u128);
    proof {
        let n = glyph_count as int;
        let c = columns as int;
        lemma_column_count_is(c, n, w as int, h as int);
        assert((n + c - 1) / c == (n - 1) / c + 1) by (nonlinear_arith)
            requires
                c >= 1,
                n >= 1,
        ;
        assert(rows == row_count(n, w as int, h as int));
        assert(width == atlas_width(n, w as int, h as int));
        assert(height == atlas_height(n, w as int, h as int));
        assert(c * rows >= n) by (nonlinear_arith)
            requires
                c >= 1,
                n >= 1,
                rows == (n - 1) / c + 1,
        ;
        assert(width * height >= height && width * height >= width && height >= rows && width
            >= c) by (nonlinear_arith)
            requires
                width == c * w,
                height == rows * h,
                c >= 1,
                rows >= 1,
                w >= 1,
                h >= 1,
        ;
    }
    if height > usize::MAX as u128 {
        return Err(FormatError::AtlasTooLarge);
    }
    assert((width as u128) * height <= 0x100_0000_0000_0000 * 0xffff_ffff_ffff_ffff)
        by (nonlinear_arith)
        requires
            0 <= width <= 0x100_0000_0000 * 0xffff,
            0 <= height <= 0xffff_ffff_ffff_ffff,
    ;
    let total: u128 = (width as u128) * height;
    if total > usize::MAX as u128 {
        return Err(FormatError::AtlasTooLarge);
    }
    Ok(
        AtlasLayout {
            columns: columns as usize,
            rows: rows as usize,
            cell_width: w,
            cell_height: h,
            width: width as usize,
            height: height as usize,
        },
    )
}

} // verus!
