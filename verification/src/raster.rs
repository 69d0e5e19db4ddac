//! Reading a sheet file back: header, payload, raster, and the raster as a
//! PNG image for inspection.

use crate::error::CodecError;
use crate::header::{parsed_header, GlyphSheetHeader, HEADER_SIZE};
use crate::unpack::{unpack, unpacked, Raster, RasterView};
use image::codecs::png::{CompressionType, FilterType, PngEncoder};
use image::{ExtendedColorType, ImageEncoder, ImageError};
use vstd::prelude::*;
use vstd::slice::slice_subrange;

verus! {

/// The packed bitmap of a file: everything behind the header.
pub open spec fn payload_of(file: Seq<u8>) -> Seq<u8> {
    file.subrange(HEADER_SIZE as int, file.len() as int)
}

/// The number of bits behind the header of a file of `len` bytes.
pub open spec fn payload_bits(len: nat) -> nat {
    if len <= HEADER_SIZE {
        0
    } else {
        ((len - HEADER_SIZE) * 8) as nat
    }
}

/// The raster that a file decodes to, or why it does not decode. The header
/// is looked at first; then the declared width must be positive and divide
/// the number of payload bits. The height is that quotient.
///
/// A file records no height and no checksum. A payload that lost or gained
/// bytes still decodes, to a sheet of another height, whenever its bits fill
/// whole rows; and padding bits at the end of a payload are read as pixels.
pub open spec fn decoded(file: Seq<u8>) -> Result<RasterView, CodecError> {
    match parsed_header(file) {
        Err(e) => Err(e),
        Ok(header) => unpacked(payload_of(file), header.atlas_width as nat),
    }
}

/// Decodes a sheet file into its grayscale raster. The cell size, the
/// baseline and the encoding index of the header play no part: the raster
/// shows the whole sheet.
pub fn decode_font(file: &[u8]) -> (r: Result<Raster, CodecError>)
    requires
        payload_bits(file@.len()) <= usize::MAX,
    ensures
        r matches Ok(raster) ==> decoded(file@) == Ok::<RasterView, CodecError>(raster@),
        r matches Err(e) ==> decoded(file@) == Err::<RasterView, CodecError>(e),
        r matches Ok(raster) ==> raster.samples@.len() == raster.width * raster.height,
{
    let header = match GlyphSheetHeader::parse(file) {
        Ok(h) => h,
        Err(e) => {
            return Err(e);
        },
    };
    let payload = slice_subrange(file, HEADER_SIZE, file.len());
    unpack(payload, header.atlas_width as usize)
}

/// The error type of the `image` crate. Nothing is claimed of its values:
/// they are passed on unopened.
#[verifier::external_type_specification]
#[verifier::external_body]
pub struct ExImageError(image::ImageError);

/// The PNG file that the PNG encoder of the `image` crate, as linked, set to
/// its best compression and to no row filter, produces for an 8-bit
/// grayscale image of the given samples and size; `None` where the encoder
/// reports an error.
pub uninterp spec fn png_image(samples: Seq<u8>, width: u32, height: u32) -> Option<Seq<u8>>;

/// Calls `PngEncoder::new_with_quality(..).write_image(..)` of the `image`
/// crate on an in-memory buffer, for 8-bit grayscale. The encoder panics
/// unless the buffer holds `width * height` samples, so that is required.
/// Of the outcome the contract claims only that it is the one that these
/// samples and this size always give: the bytes written, or an error.
#[verifier::external_body]
fn encode_png(samples: &[u8], width: u32, height: u32) -> (r: Result<Vec<u8>, ImageError>)
    requires
        samples@.len() == width * height,
    ensures
        r matches Ok(png) ==> png_image(samples@, width, height) == Some(png@),
        r is Err ==> png_image(samples@, width, height) is None,
{
    let mut png = Vec::new();
    let encoder = PngEncoder::new_with_quality(&mut png, CompressionType::Best, FilterType::NoFilter);
    encoder.write_image(samples, width, height, ExtendedColorType::L8)?;
    Ok(png)
}

/// What the library reports for an outcome of the PNG encoder: the encoded
/// bytes, or `ImageEncoding` in place of the encoder's own error.
pub fn encoding_outcome(outcome: Result<Vec<u8>, ImageError>) -> (r: Result<Vec<u8>, CodecError>)
    ensures
        outcome matches Ok(png) ==> r == Ok::<Vec<u8>, CodecError>(png),
        outcome is Err ==> r == Err::<Vec<u8>, CodecError>(CodecError::ImageEncoding),
{
    match outcome {
        Ok(png) => Ok(png),
        Err(_) => Err(CodecError::ImageEncoding),
    }
}

/// What `raster_to_png` returns for a raster with this view.
pub open spec fn png_of(raster: RasterView) -> Result<Seq<u8>, CodecError> {
    match png_image(raster.samples, raster.width as u32, raster.height as u32) {
        Some(png) => Ok(png),
        None => Err(CodecError::ImageEncoding),
    }
}

/// Encodes a raster as a single-channel 8-bit PNG image.
pub fn raster_to_png(raster: &Raster) -> (r: Result<Vec<u8>, CodecError>)
    requires
        raster.width <= u32::MAX,
        raster.height <= u32::MAX,
        raster.samples@.len() == raster.width * raster.height,
    ensures
        r matches Ok(png) ==> png_of(raster@) == Ok::<Seq<u8>, CodecError>(png@),
        r matches Err(e) ==> png_of(raster@) == Err::<Seq<u8>, CodecError>(e),
{
    let outcome = encode_png(raster.samples.as_slice(), raster.width as u32, raster.height as u32);
    encoding_outcome(outcome)
}

/// The PNG image that a sheet file is exported to, or why it is not.
pub open spec fn exported(file: Seq<u8>) -> Result<Seq<u8>, CodecError> {
    match decoded(file) {
        Err(e) => Err(e),
        Ok(raster) => png_of(raster),
    }
}

/// Exports a sheet file as a PNG image of the whole sheet, `atlas_width`
/// pixels wide, ink dark on a light ground. The sizes of a PNG image are
/// 32-bit numbers, so the payload may not hold more bits than that.
pub fn font_to_image(file: &[u8]) -> (r: Result<Vec<u8>, CodecError>)
    requires
        payload_bits(file@.len()) <= u32::MAX,
    ensures
        r matches Ok(png) ==> exported(file@) == Ok::<Seq<u8>, CodecError>(png@),
        r matches Err(e) ==> exported(file@) == Err::<Seq<u8>, CodecError>(e),
{
    let raster = match decode_font(file) {
        Ok(raster) => raster,
        Err(e) => {
            return Err(e);
        },
    };
    proof {
        assert(raster.samples@.len() == payload_bits(file@.len()));
        assert(raster.height <= raster.width * raster.height) by (nonlinear_arith)
            requires
                raster.width >= 1,
        ;
    }
    raster_to_png(&raster)
}

} // verus!
