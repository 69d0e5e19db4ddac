use fff_codec::bitmap::PackedBitmap;
use fff_codec::error::CodecError;
use fff_codec::header::{write_u16, write_u8, GlyphSheetHeader, FORMAT_TAG, HEADER_SIZE};
use fff_codec::pack::{binary_pixels, load_atlas, pack, pack_values, threshold};
use fff_codec::raster::decode_font;
use fff_codec::sheet::{dump_font, encode_file, header_of, GlyphSheet};
use fff_codec::unpack::{convert_bpp, derive_height, unpack, BACKGROUND, INK};

fn pixels_of(samples: &[u8]) -> Vec<bool> {
    samples.iter().map(|s| *s == 0).collect()
}

#[test]
fn pack_alternating_row_is_0xaa() {
    let row = [true, false, true, false, true, false, true, false];
    assert_eq!(pack(&row), vec![0xAA]);
}

#[test]
fn pack_puts_first_pixel_in_most_significant_bit() {
    let mut row = [false; 8];
    row[0] = true;
    assert_eq!(pack(&row), vec![0x80]);
    row[0] = false;
    row[7] = true;
    assert_eq!(pack(&row), vec![0x01]);
}

#[test]
fn pack_pads_last_byte_with_zero_bits() {
    let pixels = [true; 11];
    let bytes = pack(&pixels);
    assert_eq!(bytes, vec![0xFF, 0b1110_0000]);
    assert_eq!(bytes[1] & (0xFF >> 3), 0);
}

#[test]
fn pack_of_nothing_is_empty() {
    assert_eq!(pack(&[]), Vec::<u8>::new());
}

#[test]
fn pack_length_is_rounded_up() {
    for n in 0..40usize {
        let pixels = vec![true; n];
        assert_eq!(pack(&pixels).len(), (n + 7) / 8);
    }
}

#[test]
fn pack_then_unpack_gives_pixels_back_for_any_count() {
    for n in 0..67usize {
        let pixels: Vec<bool> = (0..n).map(|i| (i * 7 + i / 3) % 5 < 2).collect();
        let bytes = pack(&pixels);
        let samples = convert_bpp(&bytes);
        assert_eq!(pixels_of(&samples[..n]), pixels);
        assert!(samples[n..].iter().all(|s| *s == BACKGROUND));
    }
}

#[test]
fn pack_values_accepts_only_zero_and_one() {
    assert_eq!(pack_values(&[1, 0, 1, 0, 1, 0, 1, 0]), Ok(vec![0xAA]));
    assert_eq!(pack_values(&[1, 1, 0]), Ok(vec![0b1100_0000]));
    assert_eq!(pack_values(&[]), Ok(vec![]));
    assert_eq!(pack_values(&[0, 2, 1]), Err(CodecError::InvalidPixelInput));
    assert_eq!(pack_values(&[255]), Err(CodecError::InvalidPixelInput));
}

#[test]
fn binary_pixels_reads_zero_and_one_only() {
    assert_eq!(binary_pixels(&[0, 1, 1, 0]), Ok(vec![false, true, true, false]));
    assert_eq!(binary_pixels(&[0, 1, 3, 0]), Err(CodecError::InvalidPixelInput));
}

#[test]
fn bitmap_from_values_checks_values_then_rows() {
    let bitmap = PackedBitmap::from_values(&[1, 0, 0, 1, 1, 1], 3).unwrap();
    assert_eq!((bitmap.width(), bitmap.height()), (3, 2));
    assert_eq!(bitmap.bytes(), &[0b1001_1100]);
    assert!(matches!(PackedBitmap::from_values(&[1, 0, 0, 1, 1, 1], 4), Err(CodecError::InvalidDimensions)));
    assert!(matches!(PackedBitmap::from_values(&[1, 0, 7, 1, 1, 1], 3), Err(CodecError::InvalidPixelInput)));
    assert!(matches!(PackedBitmap::from_values(&[1, 0, 7, 1, 1, 1], 4), Err(CodecError::InvalidPixelInput)));
}

#[test]
fn threshold_takes_every_nonzero_sample_as_ink() {
    assert_eq!(threshold(&[0, 1, 127, 128, 255, 0]), vec![false, true, true, true, true, false]);
}

#[test]
fn load_atlas_thresholds_then_packs() {
    assert_eq!(load_atlas(&[255, 0, 9, 0, 1, 0, 200, 0]), vec![0xAA]);
    assert_eq!(load_atlas(&[0, 0, 0, 0, 0, 0, 0, 0, 77]), vec![0x00, 0x80]);
}

#[test]
fn convert_bpp_inverts_polarity() {
    assert_eq!(INK, 0);
    assert_eq!(BACKGROUND, 255);
    assert_eq!(convert_bpp(&[0xAA]), vec![0, 255, 0, 255, 0, 255, 0, 255]);
    assert_eq!(
        convert_bpp(&[0x80, 0x01]),
        vec![0, 255, 255, 255, 255, 255, 255, 255, 255, 255, 255, 255, 255, 255, 255, 0]
    );
    assert_eq!(convert_bpp(&[]), Vec::<u8>::new());
}

#[test]
fn derive_height_exact_and_inexact() {
    assert_eq!(derive_height(420, 80), Ok(42));
    assert_eq!(derive_height(1, 8), Ok(1));
    assert_eq!(derive_height(3, 12), Ok(2));
    assert_eq!(derive_height(1, 5), Err(CodecError::InvalidDimensions));
    assert_eq!(derive_height(1, 0), Err(CodecError::InvalidDimensions));
    assert_eq!(derive_height(0, 0), Err(CodecError::InvalidDimensions));
    assert_eq!(derive_height(0, 8), Ok(0));
}

#[test]
fn unpack_gives_width_times_height_samples() {
    let raster = unpack(&[0xF0, 0x0F], 4).unwrap();
    assert_eq!(raster.width, 4);
    assert_eq!(raster.height, 4);
    assert_eq!(raster.samples, vec![0, 0, 0, 0, 255, 255, 255, 255, 255, 255, 255, 255, 0, 0, 0, 0]);
    assert!(matches!(unpack(&[0xF0], 3), Err(CodecError::InvalidDimensions)));
    assert!(matches!(unpack(&[0xF0], 0), Err(CodecError::InvalidDimensions)));
}

#[test]
fn write_u8_and_u16_append_little_endian() {
    let mut out = vec![9];
    write_u8(&mut out, 0x11);
    write_u16(&mut out, 0x1234);
    write_u16(&mut out, 8);
    assert_eq!(out, vec![9, 0x11, 0x34, 0x12, 8, 0]);
}

#[test]
fn header_bytes_are_exact() {
    let header = GlyphSheetHeader::new(3, 5, 7, 6, 0x1234);
    assert_eq!(header.format_tag(), 0x11);
    assert_eq!(FORMAT_TAG, 0x11);
    assert_eq!(HEADER_SIZE, 7);
    assert_eq!(header.to_bytes(), vec![0x11, 3, 5, 7, 6, 0x34, 0x12]);
    assert_eq!(GlyphSheetHeader::parse(&[0x11, 3, 5, 7, 6, 0x34, 0x12, 0xFF]), Ok(header));
    let mut out = vec![1, 2];
    header.write(&mut out);
    assert_eq!(out, vec![1, 2, 0x11, 3, 5, 7, 6, 0x34, 0x12]);
}

#[test]
fn header_survives_write_and_parse() {
    for width in [0u16, 1, 8, 255, 256, 0x8000, 0xFFFF] {
        let header = GlyphSheetHeader::new(13, 10, 20, 16, width);
        assert_eq!(GlyphSheetHeader::parse(&header.to_bytes()), Ok(header));
    }
}

#[test]
fn header_rejects_short_or_untagged_input() {
    assert_eq!(GlyphSheetHeader::parse(&[0x11, 0, 8, 8, 7, 8]), Err(CodecError::MalformedHeader));
    assert_eq!(GlyphSheetHeader::parse(&[0x10, 0, 8, 8, 7, 8, 0]), Err(CodecError::MalformedHeader));
    assert_eq!(GlyphSheetHeader::parse(&[]), Err(CodecError::MalformedHeader));
}

#[test]
fn bitmap_from_pixels_checks_rows() {
    let pixels = [true, false, true, false, true, false];
    let bitmap = PackedBitmap::from_pixels(&pixels, 3).unwrap();
    assert_eq!(bitmap.width(), 3);
    assert_eq!(bitmap.height(), 2);
    assert_eq!(bitmap.bytes(), &[0b1010_1000]);
    assert!(matches!(PackedBitmap::from_pixels(&pixels, 4), Err(CodecError::InvalidDimensions)));
    assert!(matches!(PackedBitmap::from_pixels(&pixels, 0), Err(CodecError::InvalidDimensions)));
    assert!(matches!(PackedBitmap::from_pixels(&[], 0), Err(CodecError::InvalidDimensions)));
    let empty = PackedBitmap::from_pixels(&[], 5).unwrap();
    assert_eq!(empty.height(), 0);
    assert_eq!(empty.into_bytes(), Vec::<u8>::new());
}

#[test]
fn bitmap_from_bytes_checks_rows() {
    let bitmap = PackedBitmap::from_bytes(vec![0xF0, 0x0F, 0xAA], 12).unwrap();
    assert_eq!(bitmap.width(), 12);
    assert_eq!(bitmap.height(), 2);
    assert_eq!(bitmap.bytes(), &[0xF0, 0x0F, 0xAA]);
    assert!(matches!(PackedBitmap::from_bytes(vec![0xF0, 0x0F, 0xAA], 5), Err(CodecError::InvalidDimensions)));
    assert!(matches!(PackedBitmap::from_bytes(vec![0xF0], 0), Err(CodecError::InvalidDimensions)));
}

#[test]
fn bitmap_to_raster_leaves_padding_out() {
    let pixels = [true, false, false, true, true, false, true, true, false, true];
    let bitmap = PackedBitmap::from_pixels(&pixels, 5).unwrap();
    assert_eq!(bitmap.bytes().len(), 2);
    let raster = bitmap.to_raster();
    assert_eq!(raster.width, 5);
    assert_eq!(raster.height, 2);
    assert_eq!(raster.samples, vec![0, 255, 255, 0, 0, 255, 0, 0, 255, 0]);
}

#[test]
fn header_of_sheet_cuts_numbers_to_field_width() {
    let image = PackedBitmap::from_pixels(&vec![false; 300 * 2], 300).unwrap();
    let sheet = GlyphSheet { cell_width: 257, cell_height: 8, baseline: 511, image };
    let header = header_of(256 + 13, &sheet);
    assert_eq!(header, GlyphSheetHeader::new(13, 1, 8, 255, 300));
    let wide = PackedBitmap::from_pixels(&vec![false; 65544], 65544).unwrap();
    let sheet = GlyphSheet { cell_width: 4, cell_height: 6, baseline: 5, image: wide };
    assert_eq!(header_of(0, &sheet).atlas_width, 8);
}

#[test]
fn end_to_end_single_row() {
    let row = [true, false, true, false, true, false, true, false];
    assert_eq!(pack(&row), vec![0xAA]);
    let bitmap = PackedBitmap::from_pixels(&row, 8).unwrap();
    let header = GlyphSheetHeader::new(0, 8, 8, 7, 8);
    let file = encode_file(&header, &bitmap);
    assert_eq!(file.len(), 8);
    assert_eq!(file, vec![0x11, 0x00, 0x08, 0x08, 0x07, 0x08, 0x00, 0xAA]);
    let raster = decode_font(&file).unwrap();
    assert_eq!(raster.width, 8);
    assert_eq!(raster.height, 1);
    assert_eq!(raster.samples, vec![0, 255, 0, 255, 0, 255, 0, 255]);
}

#[test]
fn dump_font_writes_header_then_bitmap() {
    let row = [true, false, true, false, true, false, true, false];
    let image = PackedBitmap::from_pixels(&row, 8).unwrap();
    let sheet = GlyphSheet { cell_width: 8, cell_height: 8, baseline: 7, image };
    assert_eq!(dump_font(0, &sheet), vec![0x11, 0x00, 0x08, 0x08, 0x07, 0x08, 0x00, 0xAA]);
    assert_eq!(dump_font(5, &sheet)[1], 5);
}

#[test]
fn decode_font_checks_header_first() {
    assert!(matches!(decode_font(&[]), Err(CodecError::MalformedHeader)));
    assert!(matches!(decode_font(&[0x11, 0, 8, 8, 7, 8]), Err(CodecError::MalformedHeader)));
    assert!(matches!(decode_font(&[0x12, 0, 8, 8, 7, 0, 0, 0xAA]), Err(CodecError::MalformedHeader)));
}

#[test]
fn decode_font_checks_dimensions() {
    assert!(matches!(decode_font(&[0x11, 0, 8, 8, 7, 0, 0, 0xAA]), Err(CodecError::InvalidDimensions)));
    assert!(matches!(decode_font(&[0x11, 0, 8, 8, 7, 0, 0]), Err(CodecError::InvalidDimensions)));
    assert!(matches!(decode_font(&[0x11, 0, 8, 8, 7, 5, 0, 0xAA]), Err(CodecError::InvalidDimensions)));
    assert!(matches!(decode_font(&[0x11, 0, 8, 8, 7, 0, 1, 0xAA]), Err(CodecError::InvalidDimensions)));
}

#[test]
fn decode_font_derives_height_from_payload() {
    let mut file = vec![0x11, 1, 5, 7, 6, 80, 0];
    file.extend(std::iter::repeat(0x0F).take(420));
    let raster = decode_font(&file).unwrap();
    assert_eq!(raster.width, 80);
    assert_eq!(raster.height, 42);
    assert_eq!(raster.samples.len(), 80 * 42);
    assert_eq!(&raster.samples[..8], &[255, 255, 255, 255, 0, 0, 0, 0]);
    let empty = decode_font(&[0x11, 1, 5, 7, 6, 80, 0]).unwrap();
    assert_eq!((empty.width, empty.height, empty.samples.len()), (80, 0, 0));
}

#[test]
fn decode_font_reads_width_as_unsigned_little_endian() {
    let mut file = vec![0x11, 0, 8, 8, 7, 0x00, 0x80];
    file.extend(std::iter::repeat(0xFF).take(4096));
    let raster = decode_font(&file).unwrap();
    assert_eq!(raster.width, 0x8000);
    assert_eq!(raster.height, 1);
}

#[test]
fn padded_sheet_decodes_to_another_shape() {
    let pixels = [true, true, true, true];
    let bitmap = PackedBitmap::from_pixels(&pixels, 4).unwrap();
    assert_eq!(bitmap.height(), 1);
    let file = encode_file(&GlyphSheetHeader::new(0, 4, 1, 0, 4), &bitmap);
    let raster = decode_font(&file).unwrap();
    assert_eq!(raster.height, 2);
    assert_eq!(raster.samples, vec![0, 0, 0, 0, 255, 255, 255, 255]);
}

fn shift_in_reference(pixels: &[bool]) -> Vec<u8> {
    let mut bytes = Vec::new();
    let mut raw: u8 = 0;
    for (i, ink) in pixels.iter().enumerate() {
        raw = raw << 1 | u8::from(*ink);
        if i % 8 == 7 {
            bytes.push(raw);
            raw = 0;
        }
    }
    if pixels.len() % 8 != 0 {
        bytes.push(raw << (8 - pixels.len() % 8));
    }
    bytes
}

#[test]
fn pack_agrees_with_shifting_bits_in_one_by_one() {
    let mut state: u32 = 0x2545_F491;
    for n in [0usize, 1, 7, 8, 9, 15, 16, 17, 63, 64, 65, 1000] {
        let pixels: Vec<bool> = (0..n)
            .map(|_| {
                state ^= state << 13;
                state ^= state >> 17;
                state ^= state << 5;
                state & 1 == 1
            })
            .collect();
        assert_eq!(pack(&pixels), shift_in_reference(&pixels));
    }
}

#[test]
fn packing_the_samples_of_bytes_gives_the_bytes_back() {
    let bytes: Vec<u8> = (0..=255).collect();
    let samples = convert_bpp(&bytes);
    assert_eq!(pack(&pixels_of(&samples)), bytes);
}
