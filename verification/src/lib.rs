//! A verified loader for PFF2 bitmap fonts.
//!
//! [`font_loader::load`] takes the bytes of a font file and gives back one
//! atlas image that holds the bitmaps of all glyphs, together with a table
//! from code point to the glyph's place in the atlas and its metrics. What
//! it gives for each buffer is defined in [`format`] as a function on
//! sequences of bytes. The loader is proved to compute that function and
//! never to panic, and [`laws`] proves what follows from the definition for
//! every file.
//!
//! The hash maps come from `ahash`, the reading of big-endian fields from
//! `byteorder` and the pixel type from `rgb`. Each call into `ahash`,
//! `byteorder` or an unspecified part of `std` stands in a small function
//! of its own that states, without proof, what the call returns.

pub mod atlas;
pub mod bench;
pub mod bytes;
pub mod error;
pub mod font_loader;
pub mod format;
pub mod glyph;
pub mod index;
pub mod laws;
pub mod layout;
pub mod metrics;
pub mod pixel;
