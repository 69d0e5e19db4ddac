//! Codec for monochrome glyph sheets: dense one-bit-per-pixel packing, the
//! seven-byte sheet header, and the inverse path back to a grayscale raster.

pub mod bitmap;
pub mod bits;
pub mod catalog;
pub mod error;
pub mod header;
pub mod laws;
pub mod listing;
pub mod names;
pub mod pack;
pub mod raster;
pub mod sheet;
pub mod unpack;
