//! The fixed seven-byte header that precedes the packed bitmap of a sheet.

use crate::error::CodecError;
use vstd::prelude::*;

verus! {

/// First byte of every sheet file.
pub const FORMAT_TAG: u8 = 0x11;

/// Number of bytes in front of the packed bitmap.
pub const HEADER_SIZE: usize = 7;

/// What the header records of a sheet. The format tag is not a field: it is
/// the same in every header.
#[derive(Clone, Copy, Debug, PartialEq, Eq, Structural)]
pub struct GlyphSheetHeader {
    /// Index of the sheet's character set in the caller's list of encodings.
    pub encoding_index: u8,
    /// Width of one glyph cell in pixels.
    pub cell_width: u8,
    /// Height of one glyph cell in pixels.
    pub cell_height: u8,
    /// Offset of the baseline from the top of a cell, in pixels.
    pub baseline: u8,
    /// Width of the whole sheet in pixels.
    pub atlas_width: u16,
}

/// The two bytes of `v`, low byte first.
pub open spec fn u16_le_bytes(v: u16) -> Seq<u8> {
    seq![(v % 256) as u8, (v / 256) as u8]
}

/// The number whose low byte is `low` and whose high byte is `high`.
pub open spec fn u16_from_le(low: u8, high: u8) -> u16 {
    (low + 256 * high) as u16
}

/// Appends one byte.
pub fn write_u8(out: &mut Vec<u8>, v: u8)
    ensures
        final(out)@ == old(out)@.push(v),
{
    out.push(v);
}

/// Appends a 16-bit number, low byte first.
pub fn write_u16(out: &mut Vec<u8>, v: u16)
    ensures
        final(out)@ == old(out)@ + u16_le_bytes(v),
{
    let low: u8 = (v % 256) as u8;
    let high: u8 = (v / 256) as u8;
    out.push(low);
    out.push(high);
    assert(out@ =~= old(out)@ + u16_le_bytes(v));
}

/// What a file that starts with `bytes` declares of its sheet.
pub open spec fn parsed_header(bytes: Seq<u8>) -> Result<GlyphSheetHeader, CodecError> {
    if bytes.len() < HEADER_SIZE || bytes[0] != FORMAT_TAG {
        Err(CodecError::MalformedHeader)
    } else {
        Ok(
            GlyphSheetHeader {
                encoding_index: bytes[1],
                cell_width: bytes[2],
                cell_height: bytes[3],
                baseline: bytes[4],
                atlas_width: u16_from_le(bytes[5], bytes[6]),
            },
        )
    }
}

impl GlyphSheetHeader {
    /// The seven bytes that stand for this header in a file.
    pub open spec fn bytes(self) -> Seq<u8> {
        seq![
            FORMAT_TAG,
            self.encoding_index,
            self.cell_width,
            self.cell_height,
            self.baseline,
            (self.atlas_width % 256) as u8,
            (self.atlas_width / 256) as u8,
        ]
    }

    /// A header with the given fields.
    pub fn new(encoding_index: u8, cell_width: u8, cell_height: u8, baseline: u8, atlas_width: u16) -> (h:
        Self)
        ensures
            h == (GlyphSheetHeader { encoding_index, cell_width, cell_height, baseline, atlas_width }),
    {
        GlyphSheetHeader { encoding_index, cell_width, cell_height, baseline, atlas_width }
    }

    /// The tag that opens every header.
    pub fn format_tag(&self) -> (tag: u8)
        ensures
            tag == FORMAT_TAG,
    {
        FORMAT_TAG
    }

    /// Appends the header to `out`: tag, encoding index, cell width, cell
    /// height, baseline, then the sheet width, low byte first.
    pub fn write(&self, out: &mut Vec<u8>)
        ensures
            final(out)@ == old(out)@ + self.bytes(),
    {
        write_u8(out, FORMAT_TAG);
        write_u8(out, self.encoding_index);
        write_u8(out, self.cell_width);
        write_u8(out, self.cell_height);
        write_u8(out, self.baseline);
        write_u16(out, self.atlas_width);
        assert(out@ =~= old(out)@ + self.bytes());
    }

    /// The header as seven bytes.
    pub fn to_bytes(&self) -> (bytes: Vec<u8>)
        ensures
            bytes@ == self.bytes(),
            bytes@.len() == HEADER_SIZE,
    {
        let mut bytes: Vec<u8> = Vec::with_capacity(HEADER_SIZE);
        self.write(&mut bytes);
        assert(bytes@ =~= self.bytes());
        bytes
    }

    /// Reads the header at the start of `bytes`. Fails with `MalformedHeader`
    /// where fewer than seven bytes are there or the first is not the tag.
    pub fn parse(bytes: &[u8]) -> (r: Result<Self, CodecError>)
        ensures
            r == parsed_header(bytes@),
    {
        if bytes.len() < HEADER_SIZE {
            return Err(CodecError::MalformedHeader);
        }
        if bytes[0] != FORMAT_TAG {
            return Err(CodecError::MalformedHeader);
        }
        let low: u16 = bytes[5] as u16;
        let high: u16 = bytes[6] as u16;
        Ok(
            GlyphSheetHeader {
                encoding_index: bytes[1],
                cell_width: bytes[2],
                cell_height: bytes[3],
                baseline: bytes[4],
                atlas_width: low + 256 * high,
            },
        )
    }
}

} // verus!
