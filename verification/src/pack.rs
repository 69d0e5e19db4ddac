//! Packing binary pixels into bytes, eight pixels per byte, most significant
//! bit first, the last byte padded with zero bits.

use crate::bits::{bit_at, bits_of, byte_of, lemma_byte_from_its_bits, lemma_byte_of_bits};
use crate::error::CodecError;
use vstd::prelude::*;

verus! {

/// Pixel `i` of `pixels`; positions past the end count as background.
pub open spec fn pixel_at(pixels: Seq<bool>, i: int) -> bool {
    0 <= i < pixels.len() && pixels[i]
}

/// The byte that holds the eight pixels starting at `start`.
pub open spec fn group_byte(pixels: Seq<bool>, start: int) -> u8 {
    byte_of(
        pixel_at(pixels, start),
        pixel_at(pixels, start + 1),
        pixel_at(pixels, start + 2),
        pixel_at(pixels, start + 3),
        pixel_at(pixels, start + 4),
        pixel_at(pixels, start + 5),
        pixel_at(pixels, start + 6),
        pixel_at(pixels, start + 7),
    )
}

/// Number of bytes that `n` pixels occupy.
pub open spec fn packed_len(n: nat) -> nat {
    (n + 7) / 8
}

/// The packed form of a pixel sequence.
pub open spec fn packed(pixels: Seq<bool>) -> Seq<u8> {
    Seq::new(packed_len(pixels.len()), |k: int| group_byte(pixels, 8 * k))
}

/// The pixels followed by background up to the next multiple of eight.
pub open spec fn padded(pixels: Seq<bool>) -> Seq<bool> {
    Seq::new(packed_len(pixels.len()) * 8, |i: int| pixel_at(pixels, i))
}

/// Whether bit `s` of `raw`, counted from the least significant bit, is set.
spec fn low_bit(raw: u8, s: int) -> bool {
    (raw >> (s as u8)) & 1 == 1
}

/// With `j` pixels shifted into `raw`, the one taken at step `t` sits at bit `j - 1 - t`.
spec fn holds_pixel(raw: u8, j: int, pixels: Seq<bool>, start: int, t: int) -> bool {
    low_bit(raw, j - 1 - t) == pixel_at(pixels, start + t)
}

/// Shifting a pixel in from the right moves every bit up by one place and
/// puts the pixel in the lowest.
proof fn lemma_shift_in(raw: u8, s: u8, ink: bool)
    by (bit_vector)
    requires
        s < 7,
    ensures
        (((raw << 1u8 | (if ink { 1u8 } else { 0u8 })) >> ((s + 1) as u8)) & 1 == 1) == ((raw >> s) & 1 == 1),
        (((raw << 1u8 | (if ink { 1u8 } else { 0u8 })) >> 0u8) & 1 == 1) == ink,
{
}

/// Packs the eight pixels starting at `start` into one byte.
fn pack_group(pixels: &[bool], start: usize) -> (byte: u8)
    requires
        start <= pixels@.len(),
    ensures
        byte == group_byte(pixels@, start as int),
{
    let avail: usize = pixels.len() - start;
    let mut raw: u8 = 0;
    let mut j: usize = 0;
    while j < 8
        invariant
            j <= 8,
            start <= pixels@.len() <= usize::MAX,
            avail == pixels@.len() - start,
            forall|t: int| 0 <= t < j ==> #[trigger] holds_pixel(raw, j as int, pixels@, start as int, t),
        decreases 8 - j,
    {
        let ink: bool = j < avail && pixels[start + j];
        let next: u8 = (raw << 1u8) | (if ink { 1u8 } else { 0u8 });
        proof {
            assert forall|t: int| 0 <= t < j + 1 implies #[trigger] holds_pixel(
                next,
                j + 1,
                pixels@,
                start as int,
                t,
            ) by {
                if t < j {
                    assert(holds_pixel(raw, j as int, pixels@, start as int, t));
                    lemma_shift_in(raw, (j - 1 - t) as u8, ink);
                } else {
                    lemma_shift_in(raw, 0, ink);
                }
            }
        }
        raw = next;
        j += 1;
    }
    proof {
        assert(holds_pixel(raw, 8, pixels@, start as int, 0));
        assert(holds_pixel(raw, 8, pixels@, start as int, 1));
        assert(holds_pixel(raw, 8, pixels@, start as int, 2));
        assert(holds_pixel(raw, 8, pixels@, start as int, 3));
        assert(holds_pixel(raw, 8, pixels@, start as int, 4));
        assert(holds_pixel(raw, 8, pixels@, start as int, 5));
        assert(holds_pixel(raw, 8, pixels@, start as int, 6));
        assert(holds_pixel(raw, 8, pixels@, start as int, 7));
        lemma_byte_from_its_bits(raw);
    }
    raw
}

/// Read back bit by bit, the packed form is the pixels followed by background.
pub proof fn lemma_packed_bits(pixels: Seq<bool>)
    ensures
        bits_of(packed(pixels)) == padded(pixels),
{
    assert forall|i: int| 0 <= i < packed_len(pixels.len()) * 8 implies #[trigger] bits_of(
        packed(pixels),
    )[i] == padded(pixels)[i] by {
        let k = i / 8;
        let s = 8 * k;
        lemma_byte_of_bits(
            pixel_at(pixels, s),
            pixel_at(pixels, s + 1),
            pixel_at(pixels, s + 2),
            pixel_at(pixels, s + 3),
            pixel_at(pixels, s + 4),
            pixel_at(pixels, s + 5),
            pixel_at(pixels, s + 6),
            pixel_at(pixels, s + 7),
        );
        assert(packed(pixels)[k] == group_byte(pixels, s));
        assert(i == s + i % 8);
    }
    assert(bits_of(packed(pixels)) =~= padded(pixels));
}

/// Packing the bits of any byte sequence gives the sequence back.
pub proof fn lemma_pack_of_bits(bytes: Seq<u8>)
    ensures
        packed(bits_of(bytes)) == bytes,
{
    let bits = bits_of(bytes);
    assert(packed_len(bits.len()) == bytes.len());
    assert forall|k: int| 0 <= k < bytes.len() implies #[trigger] packed(bits)[k] == bytes[k] by {
        lemma_byte_from_its_bits(bytes[k]);
        assert(pixel_at(bits, 8 * k) == bit_at(bytes[k], 0));
        assert(pixel_at(bits, 8 * k + 1) == bit_at(bytes[k], 1));
        assert(pixel_at(bits, 8 * k + 2) == bit_at(bytes[k], 2));
        assert(pixel_at(bits, 8 * k + 3) == bit_at(bytes[k], 3));
        assert(pixel_at(bits, 8 * k + 4) == bit_at(bytes[k], 4));
        assert(pixel_at(bits, 8 * k + 5) == bit_at(bytes[k], 5));
        assert(pixel_at(bits, 8 * k + 6) == bit_at(bytes[k], 6));
        assert(pixel_at(bits, 8 * k + 7) == bit_at(bytes[k], 7));
        assert(packed(bits)[k] == group_byte(bits, 8 * k));
    }
    assert(packed(bits) =~= bytes);
}

/// Packs `pixels`, taken in row-major order, eight to a byte. The first pixel
/// of each group of eight takes the most significant bit; a last group of
/// fewer than eight is filled up with zero bits.
pub fn pack(pixels: &[bool]) -> (bytes: Vec<u8>)
    ensures
        bytes@ == packed(pixels@),
        bytes@.len() == packed_len(pixels@.len()),
        bits_of(bytes@) == padded(pixels@),
{
    let n: usize = pixels.len();
    let count: usize = n / 8 + (if n % 8 != 0 { 1usize } else { 0usize });
    let mut bytes: Vec<u8> = Vec::with_capacity(count);
    let mut k: usize = 0;
    while k < count
        invariant
            n == pixels@.len(),
            count == packed_len(n as nat),
            k <= count,
            bytes@.len() == k,
            forall|j: int| 0 <= j < k ==> bytes@[j] == group_byte(pixels@, 8 * j),
        decreases count - k,
    {
        let byte: u8 = pack_group(pixels, k * 8);
        bytes.push(byte);
        k += 1;
    }
    proof {
        assert(bytes@ =~= packed(pixels@));
        lemma_packed_bits(pixels@);
    }
    bytes
}

/// Whether a grayscale sample counts as ink: every sample but 0 does.
pub open spec fn is_ink(luma: u8) -> bool {
    luma != 0
}

/// The pixels of a run of grayscale samples.
pub open spec fn thresholded(luma: Seq<u8>) -> Seq<bool> {
    Seq::new(luma.len(), |i: int| is_ink(luma[i]))
}

/// The pixels that a run of storage values stands for, where every value is 0 or 1.
pub open spec fn pixels_of_values(values: Seq<u8>) -> Seq<bool> {
    Seq::new(values.len(), |i: int| values[i] == 1)
}

/// Whether every value is a binary pixel, 0 or 1.
pub open spec fn all_binary(values: Seq<u8>) -> bool {
    forall|i: int| 0 <= i < values.len() ==> #[trigger] values[i] <= 1
}

/// Thresholds grayscale samples: a sample is ink unless it is 0.
pub fn threshold(luma: &[u8]) -> (pixels: Vec<bool>)
    ensures
        pixels@ == thresholded(luma@),
{
    let n: usize = luma.len();
    let mut pixels: Vec<bool> = Vec::with_capacity(n);
    let mut i: usize = 0;
    while i < n
        invariant
            n == luma@.len(),
            i <= n,
            pixels@.len() == i,
            forall|t: int| 0 <= t < i ==> #[trigger] pixels@[t] == is_ink(luma@[t]),
        decreases n - i,
    {
        pixels.push(luma[i] != 0);
        i += 1;
    }
    assert(pixels@ =~= thresholded(luma@));
    pixels
}

/// The packed atlas of a grayscale image, given as its samples in row-major
/// order: each sample is thresholded to ink or background, then packed.
pub fn load_atlas(luma: &[u8]) -> (bytes: Vec<u8>)
    ensures
        bytes@ == packed(thresholded(luma@)),
{
    let pixels = threshold(luma);
    pack(pixels.as_slice())
}

/// Reads pixel storage values, each of which must be 0 (background) or 1
/// (ink). Any other value is refused with `InvalidPixelInput`; none is
/// coerced.
pub fn binary_pixels(values: &[u8]) -> (r: Result<Vec<bool>, CodecError>)
    ensures
        r is Ok <==> all_binary(values@),
        r matches Ok(pixels) ==> pixels@ == pixels_of_values(values@),
        r matches Err(e) ==> e == CodecError::InvalidPixelInput,
{
    let n: usize = values.len();
    let mut pixels: Vec<bool> = Vec::with_capacity(n);
    let mut i: usize = 0;
    while i < n
        invariant
            n == values@.len(),
            i <= n,
            pixels@.len() == i,
            forall|t: int| 0 <= t < i ==> #[trigger] values@[t] <= 1,
            forall|t: int| 0 <= t < i ==> #[trigger] pixels@[t] == (values@[t] == 1),
        decreases n - i,
    {
        let v: u8 = values[i];
        if v > 1 {
            return Err(CodecError::InvalidPixelInput);
        }
        pixels.push(v == 1);
        i += 1;
    }
    assert(pixels@ =~= pixels_of_values(values@));
    Ok(pixels)
}

/// Packs pixel storage values, 0 for background and 1 for ink. Fails with
/// `InvalidPixelInput` where a value is neither.
pub fn pack_values(values: &[u8]) -> (r: Result<Vec<u8>, CodecError>)
    ensures
        r is Ok <==> all_binary(values@),
        r matches Ok(bytes) ==> bytes@ == packed(pixels_of_values(values@)),
        r matches Err(e) ==> e == CodecError::InvalidPixelInput,
{
    match binary_pixels(values) {
        Ok(pixels) => Ok(pack(pixels.as_slice())),
        Err(e) => Err(e),
    }
}

} // verus!
