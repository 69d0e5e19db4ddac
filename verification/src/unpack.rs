//! Expanding packed bits into full-range grayscale samples. Ink is drawn
//! dark: a set bit becomes sample 0, a clear bit becomes sample 255.

use crate::bits::{bit_at, bits_fit, bits_of};
use crate::error::CodecError;
use vstd::prelude::*;

verus! {

/// The sample that stands for an ink pixel.
pub const INK: u8 = 0;

/// The sample that stands for a background pixel.
pub const BACKGROUND: u8 = 255;

/// The grayscale sample of one pixel: ink is 0, background is 255.
pub open spec fn sample_of(ink: bool) -> u8 {
    if ink {
        INK
    } else {
        BACKGROUND
    }
}

/// The samples of a run of pixels.
pub open spec fn pixel_samples(pixels: Seq<bool>) -> Seq<u8> {
    Seq::new(pixels.len(), |i: int| sample_of(pixels[i]))
}

/// The samples of a packed byte sequence: one per bit, in bit order.
pub open spec fn samples_of(bytes: Seq<u8>) -> Seq<u8> {
    Seq::new(bytes.len() * 8, |i: int| sample_of(bit_at(bytes[i / 8], i % 8)))
}

/// Whether `bits` bits fill a whole number of rows of `width` pixels.
pub open spec fn whole_rows(bits: nat, width: nat) -> bool {
    width > 0 && bits % width == 0
}

/// The number of rows of `width` pixels in `bits` bits.
pub open spec fn rows_of(bits: nat, width: nat) -> nat {
    bits / width
}

/// A decoded sheet: `height` rows of `width` samples, row after row.
#[derive(Debug)]
pub struct Raster {
    pub width: usize,
    pub height: usize,
    pub samples: Vec<u8>,
}

/// What a raster stands for.
pub struct RasterView {
    pub width: nat,
    pub height: nat,
    pub samples: Seq<u8>,
}

impl View for Raster {
    type V = RasterView;

    open spec fn view(&self) -> RasterView {
        RasterView { width: self.width as nat, height: self.height as nat, samples: self.samples@ }
    }
}

/// The raster of packed bytes at `width` pixels per row, or
/// `InvalidDimensions` where the width is zero or the bits do not fill
/// whole rows. The height is the number of bits divided by the width.
pub open spec fn unpacked(bytes: Seq<u8>, width: nat) -> Result<RasterView, CodecError> {
    if whole_rows(bytes.len() * 8, width) {
        Ok(RasterView { width, height: rows_of(bytes.len() * 8, width), samples: samples_of(bytes) })
    } else {
        Err(CodecError::InvalidDimensions)
    }
}

/// Expands every byte into eight samples, most significant bit first:
/// a set bit gives 0, a clear bit gives 255.
pub fn convert_bpp(input: &[u8]) -> (output: Vec<u8>)
    requires
        bits_fit(input@.len()),
    ensures
        output@ == samples_of(input@),
        output@.len() == input@.len() * 8,
        forall|i: int|
            0 <= i < output@.len() ==> #[trigger] output@[i] == (if bits_of(input@)[i] {
                0u8
            } else {
                255u8
            }),
{
    let n: usize = input.len();
    let mut output: Vec<u8> = Vec::with_capacity(n * 8);
    let mut k: usize = 0;
    while k < n
        invariant
            n == input@.len(),
            n * 8 <= usize::MAX,
            k <= n,
            output@.len() == k * 8,
            forall|i: int| 0 <= i < k * 8 ==> #[trigger] output@[i] == samples_of(input@)[i],
        decreases n - k,
    {
        let byte: u8 = input[k];
        let mut j: u8 = 0;
        while j < 8
            invariant
                n == input@.len(),
                n * 8 <= usize::MAX,
                k < n,
                j <= 8,
                byte == input@[k as int],
                output@.len() == k * 8 + j,
                forall|i: int| 0 <= i < k * 8 + j ==> #[trigger] output@[i] == samples_of(input@)[i],
            decreases 8 - j,
        {
            let shift: u8 = 7 - j;
            let bit: u8 = (byte >> shift) & 1;
            let sample: u8 = if bit == 1 {
                INK
            } else {
                BACKGROUND
            };
            assert(sample == sample_of(bit_at(byte, j as int)));
            output.push(sample);
            j += 1;
        }
        k += 1;
    }
    assert(output@ =~= samples_of(input@));
    output
}

/// The number of rows that a payload of `payload_len` bytes holds at
/// `width` pixels per row. The bits must fill whole rows.
pub fn derive_height(payload_len: usize, width: usize) -> (r: Result<usize, CodecError>)
    requires
        bits_fit(payload_len as nat),
    ensures
        whole_rows((payload_len * 8) as nat, width as nat) ==> r == Ok::<usize, CodecError>(
            rows_of((payload_len * 8) as nat, width as nat) as usize,
        ),
        !whole_rows((payload_len * 8) as nat, width as nat) ==> r == Err::<usize, CodecError>(
            CodecError::InvalidDimensions,
        ),
{
    if width == 0 {
        return Err(CodecError::InvalidDimensions);
    }
    let bits: usize = payload_len * 8;
    if bits % width != 0 {
        return Err(CodecError::InvalidDimensions);
    }
    Ok(bits / width)
}

/// Decodes packed bytes into a raster of `width` samples per row. Fails with
/// `InvalidDimensions` where `width` is zero or the bits do not fill whole rows.
pub fn unpack(bytes: &[u8], width: usize) -> (r: Result<Raster, CodecError>)
    requires
        bits_fit(bytes@.len()),
    ensures
        r matches Ok(raster) ==> unpacked(bytes@, width as nat) == Ok::<RasterView, CodecError>(raster@),
        r matches Err(e) ==> unpacked(bytes@, width as nat) == Err::<RasterView, CodecError>(e),
        r matches Ok(raster) ==> raster.samples@.len() == raster.width * raster.height,
{
    match derive_height(bytes.len(), width) {
        Err(e) => Err(e),
        Ok(height) => {
            let samples = convert_bpp(bytes);
            proof {
                vstd::arithmetic::div_mod::lemma_fundamental_div_mod(
                    (bytes@.len() * 8) as int,
                    width as int,
                );
            }
            Ok(Raster { width, height, samples })
        },
    }
}

} // verus!
