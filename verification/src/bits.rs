//! The bit-level model shared by the packer and the unpacker: pixels sit
//! eight to a byte, the first pixel of each group in the most significant bit.

use vstd::prelude::*;

verus! {

/// Bit `i` of `byte`, counted from the most significant bit (`i` in `0..8`).
pub open spec fn bit_at(byte: u8, i: int) -> bool {
    (byte >> ((7 - i) as u8)) & 1 == 1
}

/// All bits of a byte sequence in order, eight per byte, most significant first.
pub open spec fn bits_of(bytes: Seq<u8>) -> Seq<bool> {
    Seq::new(bytes.len() * 8, |i: int| bit_at(bytes[i / 8], i % 8))
}

/// Whether the bits of `len` bytes can be counted in a `usize`, as they must
/// be to hold one sample for each.
pub open spec fn bits_fit(len: nat) -> bool {
    len * 8 <= usize::MAX
}

/// `mask` where `set` holds, and 0 where it does not.
pub open spec fn mask_if(set: bool, mask: u8) -> u8 {
    if set {
        mask
    } else {
        0
    }
}

/// The byte whose bits, most significant first, are `b0` to `b7`.
pub open spec fn byte_of(
    b0: bool,
    b1: bool,
    b2: bool,
    b3: bool,
    b4: bool,
    b5: bool,
    b6: bool,
    b7: bool,
) -> u8 {
    mask_if(b0, 0x80) | mask_if(b1, 0x40) | mask_if(b2, 0x20) | mask_if(b3, 0x10) | mask_if(b4, 0x08)
        | mask_if(b5, 0x04) | mask_if(b6, 0x02) | mask_if(b7, 0x01)
}

/// Each bit of `byte_of(..)` is the argument at that position.
pub proof fn lemma_byte_of_bits(
    b0: bool,
    b1: bool,
    b2: bool,
    b3: bool,
    b4: bool,
    b5: bool,
    b6: bool,
    b7: bool,
)
    by (bit_vector)
    ensures
        bit_at(byte_of(b0, b1, b2, b3, b4, b5, b6, b7), 0) == b0,
        bit_at(byte_of(b0, b1, b2, b3, b4, b5, b6, b7), 1) == b1,
        bit_at(byte_of(b0, b1, b2, b3, b4, b5, b6, b7), 2) == b2,
        bit_at(byte_of(b0, b1, b2, b3, b4, b5, b6, b7), 3) == b3,
        bit_at(byte_of(b0, b1, b2, b3, b4, b5, b6, b7), 4) == b4,
        bit_at(byte_of(b0, b1, b2, b3, b4, b5, b6, b7), 5) == b5,
        bit_at(byte_of(b0, b1, b2, b3, b4, b5, b6, b7), 6) == b6,
        bit_at(byte_of(b0, b1, b2, b3, b4, b5, b6, b7), 7) == b7,
{
}

/// A byte is determined by its eight bits.
pub proof fn lemma_byte_from_its_bits(byte: u8)
    by (bit_vector)
    ensures
        byte == byte_of(
            bit_at(byte, 0),
            bit_at(byte, 1),
            bit_at(byte, 2),
            bit_at(byte, 3),
            bit_at(byte, 4),
            bit_at(byte, 5),
            bit_at(byte, 6),
            bit_at(byte, 7),
        ),
{
}

} // verus!
