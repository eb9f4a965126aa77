//! Atlas pixels: 8-bit RGBA values of the `rgb` crate.

use rgb::RGBA8;
use vstd::prelude::*;

verus! {

/// `rgb::Rgba`, a plain record of four public channel fields. Verus reads
/// the fields from the crate itself, so pixels are built and compared like
/// values of any other struct.
#[verifier::external_type_specification]
#[verifier::reject_recursive_types(T)]
#[verifier::reject_recursive_types(A)]
pub struct ExRgba<T, A>(rgb::Rgba<T, A>);

/// The pixel every atlas starts out with: all four channels zero.
pub open spec fn transparent() -> RGBA8 {
    RGBA8 { r: 0, g: 0, b: 0, a: 0 }
}

/// The pixel written for a set bitmap bit: all four channels at their maximum.
pub open spec fn opaque_white() -> RGBA8 {
    RGBA8 { r: 255, g: 255, b: 255, a: 255 }
}

/// A transparent pixel.
pub fn transparent_pixel() -> (p: RGBA8)
    ensures
        p == transparent(),
{
    RGBA8 { r: 0, g: 0, b: 0, a: 0 }
}

/// An opaque white pixel.
pub fn opaque_white_pixel() -> (p: RGBA8)
    ensures
        p == opaque_white(),
{
    RGBA8 { r: 255, g: 255, b: 255, a: 255 }
}

} // verus!
