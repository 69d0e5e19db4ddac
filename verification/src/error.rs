//! The ways in which the codec rejects its input.

use vstd::prelude::*;

verus! {

/// Why an encode or decode step refused its input.
#[derive(Clone, Copy, Debug, PartialEq, Eq, Structural)]
pub enum CodecError {
    /// The file is shorter than a header, or its first byte is not the format tag.
    MalformedHeader,
    /// The sheet width is zero, or the bit count is not a whole number of rows.
    InvalidDimensions,
    /// A pixel value handed to the packer is neither 0 nor 1.
    InvalidPixelInput,
    /// The raster encoder refused the decoded image.
    ImageEncoding,
}

} // verus!
