//! A packed bitmap together with its dimensions.

use crate::bits::{bits_fit, bits_of};
use crate::error::CodecError;
use crate::pack::{all_binary, binary_pixels, lemma_pack_of_bits, pack, packed, packed_len, pixels_of_values};
use crate::unpack::{pixel_samples, rows_of, sample_of, whole_rows, Raster};
use vstd::prelude::*;

verus! {

/// What a packed bitmap stands for: `height` rows of `width` pixels, row after row.
pub struct Grid {
    pub width: nat,
    pub height: nat,
    pub pixels: Seq<bool>,
}

/// A byte buffer of packed pixels with the width and height of the sheet it
/// holds. The buffer is exactly the packed form of the sheet's pixels, so
/// the bits past the last pixel are zero.
#[derive(Debug)]
pub struct PackedBitmap {
    bytes: Vec<u8>,
    width: usize,
    height: usize,
}

impl View for PackedBitmap {
    type V = Grid;

    closed spec fn view(&self) -> Grid {
        Grid {
            width: self.width as nat,
            height: self.height as nat,
            pixels: bits_of(self.bytes@).take(self.width * self.height),
        }
    }
}

impl PackedBitmap {
    /// The width is positive, the pixel count fits a `usize`, and the buffer
    /// is the packed form of exactly that many pixels.
    #[verifier::type_invariant]
    spec fn well_formed(self) -> bool {
        &&& self.width > 0
        &&& self.width * self.height <= usize::MAX
        &&& self.bytes@.len() == packed_len((self.width * self.height) as nat)
        &&& self.bytes@ == packed(bits_of(self.bytes@).take(self.width * self.height))
    }

    /// Packs a grid of pixels, given row after row, that is `width` pixels
    /// wide. Fails with `InvalidDimensions` where `width` is zero or the
    /// pixels do not fill whole rows.
    pub fn from_pixels(pixels: &[bool], width: usize) -> (r: Result<PackedBitmap, CodecError>)
        ensures
            r is Ok <==> whole_rows(pixels@.len(), width as nat),
            r matches Ok(bitmap) ==> bitmap@ == (Grid {
                width: width as nat,
                height: rows_of(pixels@.len(), width as nat),
                pixels: pixels@,
            }),
            r matches Err(e) ==> e == CodecError::InvalidDimensions,
    {
        if width == 0 || pixels.len() % width != 0 {
            return Err(CodecError::InvalidDimensions);
        }
        let height: usize = pixels.len() / width;
        let bytes = pack(pixels);
        proof {
            vstd::arithmetic::div_mod::lemma_fundamental_div_mod(pixels@.len() as int, width as int);
            assert(width * height == pixels@.len());
            assert(bits_of(bytes@).take(pixels@.len() as int) =~= pixels@);
        }
        Ok(PackedBitmap { bytes, width, height })
    }

    /// Packs a grid given as pixel storage values, 0 for background and 1
    /// for ink. A value other than these is refused with
    /// `InvalidPixelInput`; after that the rows are checked as in
    /// `from_pixels`.
    pub fn from_values(values: &[u8], width: usize) -> (r: Result<PackedBitmap, CodecError>)
        ensures
            r is Ok <==> all_binary(values@) && whole_rows(values@.len(), width as nat),
            r matches Ok(bitmap) ==> bitmap@ == (Grid {
                width: width as nat,
                height: rows_of(values@.len(), width as nat),
                pixels: pixels_of_values(values@),
            }),
            r matches Err(e) ==> e == (if all_binary(values@) {
                CodecError::InvalidDimensions
            } else {
                CodecError::InvalidPixelInput
            }),
    {
        match binary_pixels(values) {
            Ok(pixels) => PackedBitmap::from_pixels(pixels.as_slice(), width),
            Err(e) => Err(e),
        }
    }

    /// Takes over bytes that are already packed, for a sheet `width` pixels
    /// wide. Fails with `InvalidDimensions` where `width` is zero or the
    /// bits do not fill whole rows.
    pub fn from_bytes(bytes: Vec<u8>, width: usize) -> (r: Result<PackedBitmap, CodecError>)
        requires
            bits_fit(bytes@.len()),
        ensures
            r is Ok <==> whole_rows(bytes@.len() * 8, width as nat),
            r matches Ok(bitmap) ==> bitmap@ == (Grid {
                width: width as nat,
                height: rows_of(bytes@.len() * 8, width as nat),
                pixels: bits_of(bytes@),
            }),
            r matches Err(e) ==> e == CodecError::InvalidDimensions,
    {
        if width == 0 {
            return Err(CodecError::InvalidDimensions);
        }
        let bits: usize = bytes.len() * 8;
        if bits % width != 0 {
            return Err(CodecError::InvalidDimensions);
        }
        let height: usize = bits / width;
        proof {
            vstd::arithmetic::div_mod::lemma_fundamental_div_mod(bits as int, width as int);
            assert(width * height == bits);
            assert(bits_of(bytes@).take(bits as int) =~= bits_of(bytes@));
            lemma_pack_of_bits(bytes@);
        }
        Ok(PackedBitmap { bytes, width, height })
    }

    /// Pixels per row.
    pub fn width(&self) -> (w: usize)
        ensures
            w == self@.width,
            w > 0,
    {
        proof {
            use_type_invariant(self);
        }
        self.width
    }

    /// Number of rows.
    pub fn height(&self) -> (h: usize)
        ensures
            h == self@.height,
    {
        self.height
    }

    /// The packed bytes.
    pub fn bytes(&self) -> (bytes: &[u8])
        ensures
            bytes@ == packed(self@.pixels),
            self@.pixels.len() == self@.width * self@.height,
            self@.width > 0,
    {
        proof {
            use_type_invariant(self);
        }
        self.bytes.as_slice()
    }

    /// Gives up the packed bytes.
    pub fn into_bytes(self) -> (bytes: Vec<u8>)
        ensures
            bytes@ == packed(self@.pixels),
            self@.pixels.len() == self@.width * self@.height,
    {
        proof {
            use_type_invariant(&self);
        }
        self.bytes
    }

    /// The grayscale raster of the sheet: one sample per pixel, 0 for ink
    /// and 255 for background. The padding bits are left out.
    pub fn to_raster(&self) -> (raster: Raster)
        ensures
            raster.width == self@.width,
            raster.height == self@.height,
            raster.samples@ == pixel_samples(self@.pixels),
            raster.samples@.len() == self@.width * self@.height,
    {
        proof {
            use_type_invariant(self);
        }
        let count: usize = self.width * self.height;
        let mut samples: Vec<u8> = Vec::with_capacity(count);
        let mut i: usize = 0;
        while i < count
            invariant
                i <= count,
                count == self.width * self.height,
                count <= self.bytes@.len() * 8,
                samples@.len() == i,
                forall|t: int| 0 <= t < i ==> #[trigger] samples@[t] == sample_of(bits_of(self.bytes@)[t]),
            decreases count - i,
        {
            let byte: u8 = self.bytes[i / 8];
            let shift: u8 = 7 - (i % 8) as u8;
            let bit: u8 = (byte >> shift) & 1;
            samples.push(if bit == 1 { 0u8 } else { 255u8 });
            i += 1;
        }
        assert(samples@ =~= pixel_samples(self@.pixels));
        Raster { width: self.width, height: self.height, samples }
    }
}

} // verus!
