//! A glyph sheet with its metrics, and the file that stands for it.

use crate::bitmap::PackedBitmap;
use crate::header::{GlyphSheetHeader, HEADER_SIZE};
use crate::pack::packed;
use vstd::prelude::*;

verus! {

/// One font variant: the metrics of its glyph cells and the sheet that
/// holds all of its glyphs.
#[derive(Debug)]
pub struct GlyphSheet {
    /// Width of one glyph cell in pixels.
    pub cell_width: u32,
    /// Height of one glyph cell in pixels.
    pub cell_height: u32,
    /// Offset of the baseline from the top of a cell, in pixels.
    pub baseline: u32,
    /// The sheet itself.
    pub image: PackedBitmap,
}

/// The header that a sheet is written with. Each number is cut down to the
/// width of its field: one byte, and two bytes for the sheet width.
pub open spec fn sheet_header(encoding_index: usize, font: GlyphSheet) -> GlyphSheetHeader {
    GlyphSheetHeader {
        encoding_index: (encoding_index % 256) as u8,
        cell_width: (font.cell_width % 256) as u8,
        cell_height: (font.cell_height % 256) as u8,
        baseline: (font.baseline % 256) as u8,
        atlas_width: (font.image@.width % 65536) as u16,
    }
}

/// The bytes of a sheet file: the header, then the packed bitmap with no
/// length in front of it.
pub open spec fn file_bytes(header: GlyphSheetHeader, payload: Seq<u8>) -> Seq<u8> {
    header.bytes() + payload
}

/// Serialises a header and a packed bitmap into the bytes of a sheet file.
/// The pixels are not looked at: the packed bytes are written as they are.
pub fn encode_file(header: &GlyphSheetHeader, bitmap: &PackedBitmap) -> (file: Vec<u8>)
    ensures
        file@ == file_bytes(*header, packed(bitmap@.pixels)),
        file@.len() == HEADER_SIZE + packed(bitmap@.pixels).len(),
{
    let mut file: Vec<u8> = Vec::new();
    header.write(&mut file);
    file.extend_from_slice(bitmap.bytes());
    file
}

/// The header of `font` for the encoding at `encoding_index`.
pub fn header_of(encoding_index: usize, font: &GlyphSheet) -> (header: GlyphSheetHeader)
    ensures
        header == sheet_header(encoding_index, *font),
{
    GlyphSheetHeader {
        encoding_index: (encoding_index % 256) as u8,
        cell_width: (font.cell_width % 256) as u8,
        cell_height: (font.cell_height % 256) as u8,
        baseline: (font.baseline % 256) as u8,
        atlas_width: (font.image.width() % 65536) as u16,
    }
}

/// The bytes of the file for `font` under the encoding at `encoding_index`.
pub fn dump_font(encoding_index: usize, font: &GlyphSheet) -> (file: Vec<u8>)
    ensures
        file@ == file_bytes(sheet_header(encoding_index, *font), packed(font.image@.pixels)),
{
    let header = header_of(encoding_index, font);
    encode_file(&header, &font.image)
}

} // verus!
