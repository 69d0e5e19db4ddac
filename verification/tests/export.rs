use fff_codec::error::CodecError;
use fff_codec::raster::{decode_font, encoding_outcome, font_to_image, raster_to_png};
use fff_codec::unpack::Raster;

const PNG_SIGNATURE: [u8; 8] = [137, 80, 78, 71, 13, 10, 26, 10];

#[test]
fn exported_image_shows_the_row() {
    let file = [0x11, 0x00, 0x08, 0x08, 0x07, 0x08, 0x00, 0xAA];
    let png = font_to_image(&file).unwrap();
    assert_eq!(&png[..8], &PNG_SIGNATURE);
    let decoded = image::load_from_memory(&png).unwrap();
    assert_eq!(decoded.color(), image::ColorType::L8);
    let luma = decoded.to_luma8();
    assert_eq!((luma.width(), luma.height()), (8, 1));
    assert_eq!(luma.into_raw(), vec![0, 255, 0, 255, 0, 255, 0, 255]);
}

#[test]
fn exported_image_has_sheet_width_and_derived_height() {
    let mut file = vec![0x11, 2, 4, 6, 5, 16, 0];
    file.extend([0xFF, 0x00, 0x0F, 0xF0, 0x81, 0x7E]);
    let raster = decode_font(&file).unwrap();
    let png = font_to_image(&file).unwrap();
    let luma = image::load_from_memory(&png).unwrap().to_luma8();
    assert_eq!((luma.width(), luma.height()), (16, 3));
    assert_eq!(luma.into_raw(), raster.samples);
}

#[test]
fn export_gives_the_same_bytes_each_time() {
    let file = [0x11, 0x00, 0x08, 0x08, 0x07, 0x08, 0x00, 0xAA, 0x55];
    assert_eq!(font_to_image(&file), font_to_image(&file));
}

#[test]
fn export_refuses_malformed_header() {
    assert_eq!(font_to_image(&[0x11, 0, 8]), Err(CodecError::MalformedHeader));
    assert_eq!(font_to_image(&[0x00, 0, 8, 8, 7, 8, 0, 0xAA]), Err(CodecError::MalformedHeader));
}

#[test]
fn export_refuses_inexact_dimensions() {
    assert_eq!(font_to_image(&[0x11, 0, 8, 8, 7, 3, 0, 0xAA]), Err(CodecError::InvalidDimensions));
    assert_eq!(font_to_image(&[0x11, 0, 8, 8, 7, 0, 0, 0xAA]), Err(CodecError::InvalidDimensions));
}

#[test]
fn export_of_sheet_without_rows_is_refused_by_encoder() {
    assert_eq!(font_to_image(&[0x11, 0, 8, 8, 7, 8, 0]), Err(CodecError::ImageEncoding));
}

#[test]
fn raster_to_png_round_trips_through_decoder() {
    let raster = Raster { width: 3, height: 2, samples: vec![0, 255, 0, 255, 0, 255] };
    let png = raster_to_png(&raster).unwrap();
    let luma = image::load_from_memory(&png).unwrap().to_luma8();
    assert_eq!((luma.width(), luma.height()), (3, 2));
    assert_eq!(luma.into_raw(), vec![0, 255, 0, 255, 0, 255]);
}

#[test]
fn encoding_outcome_maps_encoder_error() {
    assert_eq!(encoding_outcome(Ok(vec![1, 2, 3])), Ok(vec![1, 2, 3]));
    let failure = image::ImageError::IoError(std::io::Error::other("disk"));
    assert_eq!(encoding_outcome(Err(failure)), Err(CodecError::ImageEncoding));
}
