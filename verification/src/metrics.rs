//! Scalar font metadata.

use vstd::prelude::*;

verus! {

/// The scalar metadata of a font. A field is zero until its section has been
/// read.
#[derive(Debug, Clone, Copy, PartialEq, Eq)]
pub struct FontMetrics {
    /// Nominal size of the font, in pixels per em.
    pub point_size: u16,
    /// Width of the widest glyph, in pixels.
    pub max_width: u16,
    /// Height of the tallest glyph, in pixels.
    pub max_height: u16,
    /// Distance from the baseline to the top of the line, in pixels.
    pub ascent: u16,
    /// Distance from the baseline to the bottom of the line, in pixels.
    pub descent: u16,
}

impl FontMetrics {
    /// The metrics of a font of which nothing has been read yet.
    pub open spec fn unset() -> FontMetrics {
        FontMetrics { point_size: 0, max_width: 0, max_height: 0, ascent: 0, descent: 0 }
    }

    /// Whether the fields that atlas sizing and glyph normalisation divide by
    /// are all non-zero.
    pub open spec fn complete(self) -> bool {
        self.point_size != 0 && self.max_width != 0 && self.max_height != 0
    }

    /// Metrics with every field zero.
    pub fn new() -> (m: FontMetrics)
        ensures
            m == FontMetrics::unset(),
    {
        FontMetrics { point_size: 0, max_width: 0, max_height: 0, ascent: 0, descent: 0 }
    }

    /// Whether point size, maximum width and maximum height are all
    /// non-zero.
    pub fn is_complete(&self) -> (b: bool)
        ensures
            b == self.complete(),
    {
        self.point_size != 0 && self.max_width != 0 && self.max_height != 0
    }
}

} // verus!
