//! What holds between the two directions of the codec.

use crate::bits::{bit_at, bits_of};
use crate::error::CodecError;
use crate::header::{parsed_header, u16_from_le, GlyphSheetHeader, FORMAT_TAG, HEADER_SIZE};
use crate::pack::{lemma_packed_bits, packed, padded};
use crate::raster::{decoded, payload_of};
use crate::sheet::file_bytes;
use crate::unpack::{pixel_samples, rows_of, samples_of, whole_rows, RasterView};
use vstd::prelude::*;

verus! {

/// Packing any number of pixels and expanding the bytes again gives the
/// pixels back in the first places: as bits, and as samples with ink dark.
/// What follows them is padding.
pub proof fn lemma_pack_unpack_round_trip(pixels: Seq<bool>)
    ensures
        pixels.len() <= bits_of(packed(pixels)).len() < pixels.len() + 8,
        bits_of(packed(pixels)).take(pixels.len() as int) == pixels,
        samples_of(packed(pixels)).take(pixels.len() as int) == pixel_samples(pixels),
{
    lemma_packed_bits(pixels);
    let n = pixels.len() as int;
    assert(padded(pixels).take(n) =~= pixels);
    assert forall|i: int| 0 <= i < n implies samples_of(packed(pixels))[i] == pixel_samples(pixels)[i] by {
        assert(bits_of(packed(pixels))[i] == padded(pixels)[i]);
    }
    assert(samples_of(packed(pixels)).take(n) =~= pixel_samples(pixels));
}

/// Packing loses nothing: two runs of pixels of one length with the same
/// packed form are the same run.
pub proof fn lemma_packing_is_lossless(a: Seq<bool>, b: Seq<bool>)
    requires
        a.len() == b.len(),
        packed(a) == packed(b),
    ensures
        a == b,
{
    lemma_pack_unpack_round_trip(a);
    lemma_pack_unpack_round_trip(b);
}

/// A byte whose bits below the `used` highest are all clear has none of
/// the low `8 - used` bits set.
proof fn lemma_low_bits_clear(byte: u8, used: u8)
    by (bit_vector)
    requires
        1 <= used <= 7,
        used <= 7 ==> (byte >> 0u8) & 1 != 1,
        used <= 6 ==> (byte >> 1u8) & 1 != 1,
        used <= 5 ==> (byte >> 2u8) & 1 != 1,
        used <= 4 ==> (byte >> 3u8) & 1 != 1,
        used <= 3 ==> (byte >> 4u8) & 1 != 1,
        used <= 2 ==> (byte >> 5u8) & 1 != 1,
        used <= 1 ==> (byte >> 6u8) & 1 != 1,
    ensures
        byte & (0xffu8 >> used) == 0,
{
}

/// Where the number of pixels is not a multiple of eight, the last byte
/// holds the `len % 8` pixels that are left in its high bits, and every bit
/// below them is zero.
pub proof fn lemma_padding_is_zero(pixels: Seq<bool>)
    requires
        pixels.len() % 8 != 0,
    ensures
        packed(pixels).len() > 0,
        forall|i: int| pixels.len() % 8 <= i < 8 ==> !#[trigger] bit_at(packed(pixels).last(), i),
        packed(pixels).last() & (0xffu8 >> ((pixels.len() % 8) as u8)) == 0,
{
    lemma_packed_bits(pixels);
    let n = pixels.len() as int;
    let used = n % 8;
    let k = packed(pixels).len() - 1;
    let last = packed(pixels).last();
    assert(k == n / 8);
    assert forall|i: int| used <= i < 8 implies !#[trigger] bit_at(last, i) by {
        let at = 8 * k + i;
        assert(bits_of(packed(pixels))[at] == padded(pixels)[at]);
        assert(at / 8 == k && at % 8 == i);
    }
    assert(!bit_at(last, 7));
    assert(used <= 6 ==> !bit_at(last, 6));
    assert(used <= 5 ==> !bit_at(last, 5));
    assert(used <= 4 ==> !bit_at(last, 4));
    assert(used <= 3 ==> !bit_at(last, 3));
    assert(used <= 2 ==> !bit_at(last, 2));
    assert(used <= 1 ==> !bit_at(last, 1));
    lemma_low_bits_clear(last, used as u8);
}

/// Sample `i` is 0 exactly where bit `i` is set, and 255 where it is clear;
/// no other sample occurs.
pub proof fn lemma_polarity(bytes: Seq<u8>, i: int)
    requires
        0 <= i < bytes.len() * 8,
    ensures
        samples_of(bytes) == pixel_samples(bits_of(bytes)),
        bits_of(bytes)[i] <==> samples_of(bytes)[i] == 0,
        !bits_of(bytes)[i] <==> samples_of(bytes)[i] == 255,
        samples_of(bytes)[i] == 0 || samples_of(bytes)[i] == 255,
{
    assert(samples_of(bytes) =~= pixel_samples(bits_of(bytes)));
}

/// Reading back what `write` emitted gives the same header, whatever follows it.
pub proof fn lemma_header_round_trip(h: GlyphSheetHeader, rest: Seq<u8>)
    ensures
        (h.bytes() + rest).len() == HEADER_SIZE + rest.len(),
        (h.bytes() + rest).subrange(0, HEADER_SIZE as int) == h.bytes(),
        parsed_header(h.bytes() + rest) == Ok::<GlyphSheetHeader, CodecError>(h),
{
    let file = h.bytes() + rest;
    assert(file.subrange(0, HEADER_SIZE as int) =~= h.bytes());
    assert(file[0] == FORMAT_TAG);
    assert(file[5] == (h.atlas_width % 256) as u8);
    assert(file[6] == (h.atlas_width / 256) as u8);
    assert(u16_from_le(file[5], file[6]) == h.atlas_width);
}

/// Writing out what was read from seven bytes that start with the tag gives those bytes again.
pub proof fn lemma_header_bytes_round_trip(bytes: Seq<u8>)
    requires
        bytes.len() == HEADER_SIZE,
        bytes[0] == FORMAT_TAG,
    ensures
        parsed_header(bytes) is Ok,
        parsed_header(bytes)->Ok_0.bytes() == bytes,
{
    let h = parsed_header(bytes)->Ok_0;
    assert(h.bytes() =~= bytes);
}

/// A file made of a header and a payload decodes by the header's sheet
/// width alone. Where the width is positive and divides the number of
/// payload bits, the height is the quotient and there is one sample per
/// bit; in every other case the file is refused with `InvalidDimensions`.
pub proof fn lemma_dimension_derivation(header: GlyphSheetHeader, payload: Seq<u8>)
    ensures
        ({
            let bits = payload.len() * 8;
            let width = header.atlas_width as nat;
            let outcome = decoded(file_bytes(header, payload));
            if width > 0 && bits % width == 0 {
                &&& outcome == Ok::<RasterView, CodecError>(
                    RasterView { width, height: bits / width, samples: samples_of(payload) },
                )
                &&& samples_of(payload).len() == width * (bits / width)
            } else {
                outcome == Err::<RasterView, CodecError>(CodecError::InvalidDimensions)
            }
        }),
{
    let file = file_bytes(header, payload);
    lemma_header_round_trip(header, payload);
    assert(payload_of(file) =~= payload);
    if whole_rows(payload.len() * 8, header.atlas_width as nat) {
        vstd::arithmetic::div_mod::lemma_fundamental_div_mod(
            (payload.len() * 8) as int,
            header.atlas_width as int,
        );
    }
}

/// A sheet whose pixels fill whole rows and whole bytes comes back from its
/// file as it went in: as many rows as it had, each pixel as its sample.
/// A sheet that ends in the middle of a byte does not: its padding is read
/// back as pixels, and the file decodes to another shape or not at all.
pub proof fn lemma_file_round_trip(header: GlyphSheetHeader, pixels: Seq<bool>)
    requires
        whole_rows(pixels.len(), header.atlas_width as nat),
        pixels.len() % 8 == 0,
    ensures
        decoded(file_bytes(header, packed(pixels))) == Ok::<RasterView, CodecError>(
            RasterView {
                width: header.atlas_width as nat,
                height: rows_of(pixels.len(), header.atlas_width as nat),
                samples: pixel_samples(pixels),
            },
        ),
{
    let payload = packed(pixels);
    assert(payload.len() * 8 == pixels.len());
    lemma_dimension_derivation(header, payload);
    lemma_pack_unpack_round_trip(pixels);
    assert(samples_of(payload).take(pixels.len() as int) =~= samples_of(payload));
}

} // verus!
