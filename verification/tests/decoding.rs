use std::io::Cursor;

use image::codecs::jpeg::JpegEncoder;
use image::codecs::png::PngEncoder;
use image::codecs::tiff::TiffEncoder;
use image::{ColorType, DynamicImage, ImageDecoder, ImageEncoder, ImageReader, Limits};
use moxcms::ColorProfile;
use photo_intake::decode::{
    decode_classified_file, decode_image_from_bytes as decode_bytes, decode_image_from_path,
    orient_decoded_image, read_exif_orientation_from_bytes, settle_committed_raw,
    settle_image_fallback, settle_raw_fallback,
};
use photo_intake::error::{ImageError, ImageResult};
use photo_intake::image_crate::{
    apply_icc_profile_to_srgb, decode_bytes_with_image_crate, decode_preview_jpeg,
    settle_image_attempt, settle_preview_jpeg, settle_srgb, ImageAttempt,
};
use photo_intake::jpeg_xl_preflight::JpegXlPreflightDecoder;
use photo_intake::orientation::{
    apply_exif_orientation, checked_orientation, raw_orientation_to_exif, RawOrientation,
};
use photo_intake::raw_pipeline::{
    decode_best_raw_preview, decode_raw_source_to_dynamic_image, embedded_jpeg, preview_budget,
    raw_decode_panicked, select_raw_preview, settle_development,
    validate_raw_dimensions_before_decode, PreviewBudget, RawDecodeOutcome, RawPreview,
    SensorImage,
};
use photo_intake::raw_limits::RawDecodePlan;
use photo_intake::sniff::bytes_look_like_raw;
use photo_intake::tiff_fallback::{
    decode_tiff_from_bytes, dynamic_image_from_tiff, should_attempt_tiff_fallback, ImageFormat,
    ProfiledImage, TiffColorType, TiffParts, TiffReading, TiffSamples, TiffTrouble,
};
use photo_intake::types::{DecodedImage, Dimensions, RgbImage, RgbValues};
use rawler::formats::tiff::reader::TiffReader;
use rawler::formats::tiff::GenericTiffReader;
use rawler::rawsource::RawSource;
use tiff::decoder::{Decoder as TiffDecoder, DecodingResult};
use tiff::encoder::colortype::RGB8;
use tiff::encoder::TiffEncoder as TiffCrateEncoder;
use tiff::tags::Tag;

fn reject_raw(_: &[u8]) -> ImageResult<RawDecodeOutcome> {
    Ok(RawDecodeOutcome::ProbeRejected("no RAW".to_owned()))
}

fn no_heif_orientation(_: &[u8]) -> Option<u8> {
    None
}

fn decode_image_from_bytes(image_bytes: &[u8]) -> ImageResult<DecodedImage> {
    decode_bytes(image_bytes, reject_raw, decode_general, read_tiff, no_heif_orientation)
}

fn decode_general(image_bytes: &[u8]) -> ImageAttempt {
    jxl_oxide::integration::register_image_decoding_hook();
    let reader = ImageReader::new(Cursor::new(image_bytes)).with_guessed_format();
    decode_reader(reader.map_err(|e| e.to_string())?, Limits::default())
}

fn decode_jpeg(image_bytes: &[u8], budget: PreviewBudget) -> ImageAttempt {
    let mut limits = Limits::default();
    limits.max_image_width = Some(budget.max_image_width);
    limits.max_image_height = Some(budget.max_image_height);
    limits.max_alloc = Some(budget.max_alloc);
    let bytes = Cursor::new(image_bytes);
    decode_reader(ImageReader::with_format(bytes, image::ImageFormat::Jpeg), limits)
}

fn decode_reader(reader: ImageReader<Cursor<&[u8]>>, mut limits: Limits) -> ImageAttempt {
    let mut decoder = reader.into_decoder().map_err(|e| e.to_string())?;
    let icc_profile = decoder.icc_profile().unwrap_or(None);
    limits.reserve(decoder.total_bytes()).map_err(|e| e.to_string())?;
    decoder.set_limits(limits).map_err(|e| e.to_string())?;
    let image = DynamicImage::from_decoder(decoder).map_err(|e| e.to_string())?;
    let (width, height) = (image.width(), image.height());
    let image = match image {
        DynamicImage::ImageRgb16(_) => deep_picture(width, height, image.into_rgb16().into_raw()),
        _ => flat_picture(width, height, image.into_rgb8().into_raw()),
    };
    Ok(ProfiledImage { image, icc_profile })
}

fn read_tiff(image_bytes: &[u8]) -> TiffReading {
    let mut decoder = TiffDecoder::new(Cursor::new(image_bytes))
        .map_err(|e| TiffTrouble::Opening(e.to_string()))?;
    let (width, height) =
        decoder.dimensions().map_err(|e| TiffTrouble::Dimensions(e.to_string()))?;
    let color_type = match decoder.colortype() {
        Ok(tiff::ColorType::RGB(bits)) => TiffColorType::RGB(bits),
        Ok(other) => TiffColorType::Other(format!("{other:?}")),
        Err(e) => return Err(TiffTrouble::ColorType(e.to_string())),
    };
    let icc_profile = decoder.get_tag_u8_vec(Tag::IccProfile).ok();
    let samples = match decoder.read_image() {
        Ok(DecodingResult::U8(data)) => TiffSamples::U8(data),
        Ok(DecodingResult::U16(data)) => TiffSamples::U16(data),
        Ok(_) => TiffSamples::Unsupported,
        Err(e) => return Err(TiffTrouble::ImageData(e.to_string())),
    };
    let dimensions = Dimensions { width, height };
    Ok(TiffParts { dimensions, color_type, icc_profile, samples })
}

fn picture(width: u32, height: u32, rgb: Vec<u8>) -> DecodedImage {
    DecodedImage { dimensions: Dimensions { width, height }, rgb }
}

fn flat_picture(width: u32, height: u32, rgb: Vec<u8>) -> RgbImage {
    RgbImage { dimensions: Dimensions { width, height }, rgb: RgbValues::Bytes(rgb) }
}

fn deep_picture(width: u32, height: u32, rgb: Vec<u16>) -> RgbImage {
    RgbImage { dimensions: Dimensions { width, height }, rgb: RgbValues::Words(rgb) }
}

/// A decoded image that still has to be converted.
fn undecided(image: DecodedImage) -> RgbImage {
    RgbImage { dimensions: image.dimensions, rgb: RgbValues::Bytes(image.rgb) }
}

/// One byte for each pixel of an image whose red values tell them apart.
fn reds(image: &DecodedImage) -> (u32, u32, Vec<u8>) {
    let Dimensions { width, height } = image.dimensions;
    (width, height, image.rgb.iter().copied().step_by(3).collect())
}

fn numbered(width: u32, height: u32) -> DecodedImage {
    let rgb = (0..width * height).flat_map(|i| [i as u8, 100, 200]).collect();
    picture(width, height, rgb)
}

#[test]
fn attempts_tiff_fallback_for_tiff_format() {
    assert!(should_attempt_tiff_fallback(Some(ImageFormat::Tiff)));
}

#[test]
fn skips_tiff_fallback_for_non_tiff_formats() {
    assert!(!should_attempt_tiff_fallback(None));
    assert!(!should_attempt_tiff_fallback(Some(ImageFormat::Jpeg)));
    assert!(!should_attempt_tiff_fallback(Some(ImageFormat::Png)));
    assert!(!should_attempt_tiff_fallback(Some(ImageFormat::Avif)));
}

#[test]
fn maps_raw_orientation_to_exif_orientation() {
    assert_eq!(raw_orientation_to_exif(RawOrientation::Normal), Some(1));
    assert_eq!(
        raw_orientation_to_exif(RawOrientation::HorizontalFlip),
        Some(2)
    );
    assert_eq!(raw_orientation_to_exif(RawOrientation::Rotate180), Some(3));
    assert_eq!(
        raw_orientation_to_exif(RawOrientation::VerticalFlip),
        Some(4)
    );
    assert_eq!(raw_orientation_to_exif(RawOrientation::Transpose), Some(5));
    assert_eq!(raw_orientation_to_exif(RawOrientation::Rotate90), Some(6));
    assert_eq!(raw_orientation_to_exif(RawOrientation::Transverse), Some(7));
    assert_eq!(raw_orientation_to_exif(RawOrientation::Rotate270), Some(8));
    assert_eq!(raw_orientation_to_exif(RawOrientation::Unknown), None);
}

#[test]
fn plain_tiff_bytes_decode_via_image_crate() {
    let mut encoded = Vec::new();
    TiffEncoder::new(Cursor::new(&mut encoded))
        .write_image(&[10u8, 20, 30], 1, 1, ColorType::Rgb8.into())
        .unwrap();
    assert!(!bytes_look_like_raw(&encoded));

    let decoded = decode_image_from_bytes(&encoded).unwrap();

    assert_eq!(decoded.dimensions.width, 1);
    assert_eq!(decoded.dimensions.height, 1);
    assert_eq!(decoded.rgb, vec![10, 20, 30]);
}

#[test]
fn camera_exif_tiff_bytes_still_decode_as_tiff() {
    let tiff_bytes = encode_rgb8_tiff_with_camera_exif(&[40, 50, 60], "SONY", "ILCE-7M3");
    assert!(bytes_look_like_raw(&tiff_bytes));

    let decoded = decode_image_from_bytes(&tiff_bytes).unwrap();

    assert_eq!(decoded.dimensions.width, 1);
    assert_eq!(decoded.dimensions.height, 1);
    assert_eq!(decoded.rgb, vec![40, 50, 60]);
}

fn encode_rgb8_tiff_with_camera_exif(pixel: &[u8; 3], make: &str, model: &str) -> Vec<u8> {
    let mut encoded = Cursor::new(Vec::new());
    let mut tiff_encoder = TiffCrateEncoder::new(&mut encoded).unwrap();
    let mut image = tiff_encoder.new_image::<RGB8>(1, 1).unwrap();
    image.encoder().write_tag(Tag::Make, make).unwrap();
    image.encoder().write_tag(Tag::Model, model).unwrap();
    image.write_data(pixel).unwrap();
    encoded.into_inner()
}

#[test]
fn decode_applies_embedded_png_display_p3_profile() {
    let display_p3_icc = ColorProfile::new_display_p3().encode().unwrap();
    let png = encode_rgb8_png_with_icc(&[128, 0, 0], display_p3_icc);

    let decoded = decode_image_from_bytes(&png).unwrap();

    assert_eq!(decoded.dimensions.width, 1);
    assert_eq!(decoded.dimensions.height, 1);
    assert!(
        decoded.rgb[0] > 128,
        "expected red channel to move into sRGB"
    );
    assert_eq!(decoded.rgb[1], 0);
    assert_eq!(decoded.rgb[2], 0);
}

#[test]
fn decode_leaves_embedded_png_srgb_profile_unchanged() {
    let srgb_icc = ColorProfile::new_srgb().encode().unwrap();
    let png = encode_rgb8_png_with_icc(&[128, 64, 32], srgb_icc);

    let decoded = decode_image_from_bytes(&png).unwrap();

    assert_eq!(decoded.rgb, vec![128, 64, 32]);
}

fn encode_rgb8_png_with_icc(pixel: &[u8; 3], icc_profile: Vec<u8>) -> Vec<u8> {
    let mut encoded = Vec::new();
    let mut encoder = PngEncoder::new(&mut encoded);
    encoder.set_icc_profile(icc_profile).unwrap();
    encoder
        .write_image(pixel, 1, 1, ColorType::Rgb8.into())
        .unwrap();
    encoded
}

fn append_tiff_long(encoded: &mut Vec<u8>, tag: u16, value: u32) {
    encoded.extend_from_slice(&tag.to_le_bytes());
    encoded.extend_from_slice(&4u16.to_le_bytes());
    encoded.extend_from_slice(&1u32.to_le_bytes());
    encoded.extend_from_slice(&value.to_le_bytes());
}

fn append_tiff_short(encoded: &mut Vec<u8>, tag: u16, value: u16) {
    encoded.extend_from_slice(&tag.to_le_bytes());
    encoded.extend_from_slice(&3u16.to_le_bytes());
    encoded.extend_from_slice(&1u32.to_le_bytes());
    encoded.extend_from_slice(&value.to_le_bytes());
    encoded.extend_from_slice(&0u16.to_le_bytes());
}

/// The RAW pipeline on a DNG whose sensor data stand in the first directory and
/// whose preview is a JPEG in the sub-directory of it.
fn decode_dng_with_preview(encoded: &[u8]) -> ImageResult<RawDecodeOutcome> {
    let source = RawSource::new_from_slice(encoded);
    let tiff = GenericTiffReader::new(&mut Cursor::new(encoded), 0, 0, None, &[0x014a]).unwrap();
    let root = tiff.root_ifd();
    let preview_ifd = &root.sub_ifds().get(&0x014a).unwrap()[0];
    let embedded = embedded_jpeg(preview_ifd).unwrap();
    decode_raw_source_to_dynamic_image(
        Ok(()),
        || {
            validate_raw_dimensions_before_decode(
                Ok(None),
                || Ok(Some(root.clone())),
                || Vec::new(),
                &source,
                "<bytes>",
                &|_: &[u8]| Err("no lossless JPEG".to_owned()),
                &|decoder| Ok(JpegXlPreflightDecoder::Waiting(decoder)),
            )
        },
        || {
            decode_best_raw_preview(
                Ok(vec![embedded.preview]),
                |index| {
                    assert_eq!(index, 0);
                    let end = embedded.offset + embedded.length;
                    Ok(encoded[embedded.offset..end].to_vec())
                },
                decode_jpeg,
                || None,
                "<bytes>",
            )
        },
        || -> Result<SensorImage<()>, String> { panic!("the sensor data are not to be decoded") },
        |_| Ok(None),
        || None,
        "<bytes>",
    )
}

#[test]
fn oversized_dng_applies_embedded_preview_icc_profile_without_raw_decode() {
    let preview_width = 1920;
    let preview_height = 1080;
    let display_p3_icc = ColorProfile::new_display_p3().encode().unwrap();
    let preview_pixel = [128, 0, 0];
    let preview_pixels = preview_pixel
        .into_iter()
        .cycle()
        .take((preview_width * preview_height * 3) as usize)
        .collect::<Vec<_>>();
    let mut jpeg = Vec::new();
    let mut jpeg_encoder = JpegEncoder::new_with_quality(&mut jpeg, 100);
    jpeg_encoder.set_icc_profile(display_p3_icc).unwrap();
    jpeg_encoder
        .write_image(
            &preview_pixels,
            preview_width,
            preview_height,
            ColorType::Rgb8.into(),
        )
        .unwrap();
    let expected_preview = decode_image_from_bytes(&jpeg).unwrap();
    assert!(
        expected_preview.rgb[0] > preview_pixel[0],
        "test profile should visibly move the red channel into sRGB"
    );

    let root_entry_count = 7_u16;
    let preview_entry_count = 6_u16;
    let preview_ifd_offset = 8 + 2 + u32::from(root_entry_count) * 12 + 4;
    let jpeg_offset = preview_ifd_offset + 2 + u32::from(preview_entry_count) * 12 + 4;
    let mut dng = Vec::new();
    dng.extend_from_slice(b"II*\0");
    dng.extend_from_slice(&8_u32.to_le_bytes());
    dng.extend_from_slice(&root_entry_count.to_le_bytes());
    append_tiff_long(&mut dng, 0x0100, 6001); // ImageWidth
    append_tiff_long(&mut dng, 0x0101, 6000); // ImageLength: 36,006,000 px
    append_tiff_short(&mut dng, 0x0102, 16); // BitsPerSample
    append_tiff_short(&mut dng, 0x0103, 1); // Compression
    append_tiff_short(&mut dng, 0x0106, 32_803); // CFA photometric
    append_tiff_long(&mut dng, 0x014a, preview_ifd_offset); // SubIFDs
    dng.extend_from_slice(&0xc612_u16.to_le_bytes()); // DNGVersion
    dng.extend_from_slice(&1_u16.to_le_bytes()); // BYTE
    dng.extend_from_slice(&4_u32.to_le_bytes());
    dng.extend_from_slice(&[1, 4, 0, 0]);
    dng.extend_from_slice(&0_u32.to_le_bytes());
    assert_eq!(dng.len(), preview_ifd_offset as usize);

    dng.extend_from_slice(&preview_entry_count.to_le_bytes());
    append_tiff_long(&mut dng, 0x00fe, 1); // reduced-resolution image
    append_tiff_long(&mut dng, 0x0100, preview_width);
    append_tiff_long(&mut dng, 0x0101, preview_height);
    append_tiff_short(&mut dng, 0x0103, 7); // JPEG compression
    append_tiff_long(&mut dng, 0x0201, jpeg_offset);
    append_tiff_long(&mut dng, 0x0202, jpeg.len() as u32);
    dng.extend_from_slice(&0_u32.to_le_bytes());
    assert_eq!(dng.len(), jpeg_offset as usize);
    dng.extend_from_slice(&jpeg);

    let decoded =
        decode_bytes(&dng, decode_dng_with_preview, decode_general, read_tiff, no_heif_orientation)
            .expect("eligible preview should be returned");
    assert_eq!(
        (decoded.dimensions.width, decoded.dimensions.height),
        (1920, 1080)
    );
    assert_eq!(&decoded.rgb[..3], &expected_preview.rgb[..3]);
}

#[test]
fn jpeg_xl_bytes_decode() {
    // A lossless 2x2 black RGB codestream.
    let codestream = [
        0xff, 0x0a, 0x08, 0x10, 0x10, 0x09, 0x08, 0x02, 0x01, 0x00, 0x8c, 0x02, 0x4b, 0x18, 0x9b,
        0x9c, 0x71, 0x84, 0x03, 0x38, 0x80, 0x03, 0x38, 0x20, 0x4a, 0xc0, 0x39, 0x05, 0x01, 0x00,
        0x20, 0x44, 0x80, 0x08, 0x10, 0x01, 0x22, 0x40, 0x84, 0xff, 0xf7, 0xef, 0xf9, 0xef, 0xa1,
        0x31, 0xe7, 0x9c, 0x6b, 0xed, 0x73, 0x6f, 0x92, 0x24, 0x09, 0x01, 0x55, 0x55, 0x55, 0x55,
        0x55, 0xd5, 0xff, 0xff, 0xff, 0x73, 0xef, 0xeb, 0xee, 0xee, 0xee, 0x86, 0xff, 0xf7, 0xef,
        0xf9, 0xef, 0xa1, 0x31, 0xe7, 0x9c, 0x6b, 0xed, 0x73, 0x6f, 0x92, 0x24, 0x09, 0x01, 0x55,
        0x55, 0x55, 0x55, 0x55, 0xd5, 0xff, 0xff, 0xff, 0x73, 0xef, 0xeb, 0xee, 0xee, 0xee, 0x86,
        0xff, 0xf7, 0xef, 0xf9, 0xef, 0xa1, 0x31, 0xe7, 0x9c, 0x6b, 0xed, 0x73, 0x6f, 0x92, 0x24,
        0x09, 0x01, 0x55, 0x55, 0x55, 0x55, 0x55, 0xd5, 0xff, 0xff, 0xff, 0x73, 0xef, 0xeb, 0xee,
        0xee, 0xee, 0x86, 0xff, 0xf7, 0xef, 0xf9, 0xef, 0xa1, 0x31, 0xe7, 0x9c, 0x6b, 0xed, 0x73,
        0x6f, 0x92, 0x24, 0x09, 0x01, 0x55, 0x55, 0x55, 0x55, 0x55, 0xd5, 0xff, 0xff, 0xff, 0x73,
        0xef, 0xeb, 0xee, 0xee, 0xee, 0x3e, 0x00, 0x00, 0x00, 0x00,
    ];
    let decoded = decode_image_from_bytes(&codestream).unwrap();
    assert_eq!(reds(&decoded), (2, 2, vec![0; 4]));
}

#[test]
fn orientation_moves_every_pixel() {
    // 0 1 2
    // 3 4 5
    for (orientation, width, height, pixels) in [
        (1, 3, 2, [0, 1, 2, 3, 4, 5]),
        (2, 3, 2, [2, 1, 0, 5, 4, 3]),
        (3, 3, 2, [5, 4, 3, 2, 1, 0]),
        (4, 3, 2, [3, 4, 5, 0, 1, 2]),
        (5, 2, 3, [0, 3, 1, 4, 2, 5]),
        (6, 2, 3, [3, 0, 4, 1, 5, 2]),
        (7, 2, 3, [5, 2, 4, 1, 3, 0]),
        (8, 2, 3, [2, 5, 1, 4, 0, 3]),
        (9, 3, 2, [0, 1, 2, 3, 4, 5]),
    ] {
        let turned = apply_exif_orientation(numbered(3, 2), orientation);
        assert_eq!(reds(&turned), (width, height, pixels.to_vec()), "{orientation}");
    }
}

#[test]
fn orientation_agrees_with_the_image_crate() {
    for orientation in 1..=8u8 {
        let rgb = image::RgbImage::from_raw(3, 2, numbered(3, 2).rgb).unwrap();
        let mut expected = image::DynamicImage::ImageRgb8(rgb);
        expected.apply_orientation(image::metadata::Orientation::from_exif(orientation).unwrap());
        let turned = apply_exif_orientation(numbered(3, 2), orientation);
        assert_eq!(turned.rgb, expected.into_rgb8().into_raw());
    }
}

#[test]
fn orientation_is_undone() {
    for (orientation, inverse) in
        [(1, 1), (2, 2), (3, 3), (4, 4), (5, 5), (6, 8), (7, 7), (8, 6)]
    {
        let turned = apply_exif_orientation(numbered(3, 2), orientation);
        let back = apply_exif_orientation(turned, inverse);
        assert_eq!(reds(&back), reds(&numbered(3, 2)));
    }
}

#[test]
fn only_eight_orientations_mean_anything() {
    assert_eq!(checked_orientation(None), None);
    assert_eq!(checked_orientation(Some(0)), None);
    assert_eq!(checked_orientation(Some(1)), Some(1));
    assert_eq!(checked_orientation(Some(8)), Some(8));
    assert_eq!(checked_orientation(Some(9)), None);
    assert_eq!(checked_orientation(Some(257)), None);
}

/// A 2x1 TIFF with an orientation tag.
fn oriented_tiff(orientation: u16) -> Vec<u8> {
    let mut encoded = Cursor::new(Vec::new());
    let mut tiff_encoder = TiffCrateEncoder::new(&mut encoded).unwrap();
    let mut image = tiff_encoder.new_image::<RGB8>(2, 1).unwrap();
    image.encoder().write_tag(Tag::Orientation, orientation).unwrap();
    image.write_data(&[1, 0, 0, 2, 0, 0]).unwrap();
    encoded.into_inner()
}

#[test]
fn exif_orientation_is_applied() {
    let tiff = oriented_tiff(6);
    assert_eq!(read_exif_orientation_from_bytes(&tiff), Some(6));
    assert_eq!(reds(&decode_image_from_bytes(&tiff).unwrap()), (1, 2, vec![1, 2]));
    let mirrored = oriented_tiff(2);
    assert_eq!(reds(&decode_image_from_bytes(&mirrored).unwrap()), (2, 1, vec![2, 1]));
    assert_eq!(read_exif_orientation_from_bytes(&oriented_tiff(9)), None);
    assert_eq!(read_exif_orientation_from_bytes(b"none"), None);
}

#[test]
fn orientation_of_a_heif_comes_from_elsewhere() {
    let heif = orient_decoded_image(numbered(3, 2), true, || Some(3), || panic!("not asked"));
    assert_eq!(reds(&heif), (3, 2, vec![5, 4, 3, 2, 1, 0]));
    let other = orient_decoded_image(numbered(3, 2), false, || panic!("not asked"), || Some(2));
    assert_eq!(reds(&other), (3, 2, vec![2, 1, 0, 5, 4, 3]));
    let unknown = orient_decoded_image(numbered(3, 2), false, || None, || Some(77));
    assert_eq!(reds(&unknown), reds(&numbered(3, 2)));
}

fn tiff_image(
    width: u32,
    height: u32,
    color: TiffColorType,
    samples: TiffSamples,
) -> Result<Vec<u8>, String> {
    dynamic_image_from_tiff("a.tif", Dimensions { width, height }, color, samples)
        .map(|image| image.into_decoded().rgb)
        .map_err(|error| error.message())
}

#[test]
fn tiff_samples_become_rgb() {
    let bytes = |data: &[u8]| TiffSamples::U8(data.to_vec());
    let words = |data: &[u16]| TiffSamples::U16(data.to_vec());
    assert_eq!(
        tiff_image(2, 1, TiffColorType::Gray(8), bytes(&[7, 9])),
        Ok(vec![7, 7, 7, 9, 9, 9])
    );
    assert_eq!(
        tiff_image(1, 2, TiffColorType::GrayA(8), bytes(&[7, 1, 9, 2])),
        Ok(vec![7, 7, 7, 9, 9, 9])
    );
    assert_eq!(
        tiff_image(1, 1, TiffColorType::RGB(8), bytes(&[1, 2, 3])),
        Ok(vec![1, 2, 3])
    );
    assert_eq!(
        tiff_image(1, 1, TiffColorType::RGBA(8), bytes(&[1, 2, 3, 4])),
        Ok(vec![1, 2, 3])
    );
    assert_eq!(
        tiff_image(1, 1, TiffColorType::Gray(16), words(&[65_535])),
        Ok(vec![255, 255, 255])
    );
    assert_eq!(
        tiff_image(1, 1, TiffColorType::GrayA(16), words(&[128, 0])),
        Ok(vec![0, 0, 0])
    );
    assert_eq!(
        tiff_image(1, 1, TiffColorType::RGB(16), words(&[129, 257, 386])),
        Ok(vec![1, 1, 2])
    );
    assert_eq!(
        tiff_image(1, 1, TiffColorType::RGBA(16), words(&[0, 32_768, 65_407, 5])),
        Ok(vec![0, 128, 255])
    );
}

#[test]
fn sixteen_bits_are_narrowed_as_by_the_image_crate() {
    for sample in [0u16, 1, 127, 128, 129, 256, 257, 385, 386, 32_767, 32_768, 65_406, 65_535] {
        let buffer: image::ImageBuffer<image::Luma<u16>, Vec<u16>> =
            image::ImageBuffer::from_raw(1, 1, vec![sample]).unwrap();
        let expected = image::DynamicImage::ImageLuma16(buffer).into_rgb8().into_raw();
        let given = tiff_image(1, 1, TiffColorType::Gray(16), TiffSamples::U16(vec![sample]));
        assert_eq!(given, Ok(expected));
    }
}

#[test]
fn unfit_tiff_samples_are_told() {
    assert_eq!(
        tiff_image(2, 2, TiffColorType::RGB(8), TiffSamples::U8(vec![0; 11])),
        Err("decoded TIFF buffer length does not match dimensions for 'a.tif': 2x2, color_type=RGB(8)".to_owned())
    );
    assert_eq!(
        tiff_image(1, 1, TiffColorType::RGB(8), TiffSamples::U16(vec![0; 3])),
        Err("unsupported TIFF pixel format for 'a.tif': color_type=RGB(8), sample_type=u16".to_owned())
    );
    assert_eq!(
        tiff_image(1, 1, TiffColorType::Other("CMYK(8)".to_owned()), TiffSamples::U8(vec![0; 4])),
        Err("unsupported TIFF pixel format for 'a.tif': color_type=CMYK(8), sample_type=u8".to_owned())
    );
    assert_eq!(
        tiff_image(1, 1, TiffColorType::Gray(32), TiffSamples::Unsupported),
        Err("unsupported TIFF pixel format for 'a.tif': color_type=Gray(32), sample_type=unsupported".to_owned())
    );
}

#[test]
fn tiff_bytes_decode_on_their_own() {
    let decoded = decode_tiff_from_bytes(&oriented_tiff(1), "a.tif", read_tiff).unwrap();
    assert_eq!(reds(&decoded.image.into_decoded()), (2, 1, vec![1, 2]));
    assert!(decoded.icc_profile.is_none());
    assert!(
        decode_tiff_from_bytes(b"nothing", "a.tif", read_tiff)
            .unwrap_err()
            .message()
            .starts_with("failed to initialize TIFF decoder: ")
    );
}

#[test]
fn tiff_steps_fail_one_by_one() {
    for (trouble, text) in [
        (TiffTrouble::Opening("x".to_owned()), "failed to initialize TIFF decoder: x"),
        (TiffTrouble::Dimensions("x".to_owned()), "failed to read TIFF dimensions: x"),
        (TiffTrouble::ColorType("x".to_owned()), "failed to read TIFF color type: x"),
        (TiffTrouble::ImageData("x".to_owned()), "failed to decode TIFF image data: x"),
    ] {
        let failed = decode_tiff_from_bytes(b"II", "a.tif", |bytes| {
            assert_eq!(bytes, b"II");
            Err(trouble)
        });
        assert_eq!(failed.unwrap_err().message(), text);
    }
}

#[test]
fn format_is_guessed_before_the_fallback() {
    let refuse = |_: &[u8]| -> ImageAttempt { Err("bad".to_owned()) };
    let unread = |_: &[u8]| -> TiffReading { panic!("not asked") };
    let tiff = oriented_tiff(1);
    let saved = decode_bytes_with_image_crate(&tiff, refuse, read_tiff);
    assert_eq!(reds(&saved.unwrap()), (2, 1, vec![1, 2]));
    let png = encode_rgb8_png_with_icc(&[1, 2, 3], ColorProfile::new_srgb().encode().unwrap());
    let lost = decode_bytes_with_image_crate(&png, refuse, unread);
    assert_eq!(lost.unwrap_err().message(), "bad");
    let shown = decode_bytes_with_image_crate(&tiff, decode_general, unread);
    assert_eq!(reds(&shown.unwrap()), (2, 1, vec![1, 2]));
    let both = decode_bytes_with_image_crate(&tiff[..16], refuse, |_: &[u8]| {
        Err(TiffTrouble::Opening("cut".to_owned()))
    });
    assert_eq!(
        both.unwrap_err().message(),
        "failed to decode TIFF with image crate: bad; fallback with tiff crate also failed: failed to initialize TIFF decoder: cut"
    );
}

#[test]
fn tiff_fallback_is_tried_for_tiffs_alone() {
    let profiled = || ProfiledImage { image: undecided(numbered(1, 1)), icc_profile: None };
    let unused = || panic!("not asked");
    let shown = settle_image_attempt(Ok(profiled()), Some(ImageFormat::Tiff), unused).unwrap();
    assert_eq!(reds(&shown), (1, 1, vec![0]));
    let other = settle_image_attempt(Err("bad".to_owned()), Some(ImageFormat::Png), unused);
    assert_eq!(other.unwrap_err().message(), "bad");
    let saved =
        settle_image_attempt(Err("bad".to_owned()), Some(ImageFormat::Tiff), || Ok(profiled()));
    assert_eq!(reds(&saved.unwrap()), (1, 1, vec![0]));
    let lost = settle_image_attempt(Err("bad".to_owned()), Some(ImageFormat::Tiff), || {
        Err(ImageError::Decode("worse".to_owned()))
    });
    assert_eq!(
        lost.unwrap_err().message(),
        "failed to decode TIFF with image crate: bad; fallback with tiff crate also failed: worse"
    );
}

fn decode_error(text: &str) -> ImageError {
    ImageError::Decode(text.to_owned())
}

#[test]
fn errors_of_both_decoders_are_told() {
    assert_eq!(
        settle_image_fallback("raw", Err(decode_error("image"))).unwrap_err().message(),
        "raw; image crate fallback also failed: image"
    );
    assert!(matches!(
        settle_image_fallback("raw", Err(ImageError::Other("io".to_owned()))),
        Err(ImageError::Other(text)) if text == "io"
    ));
    assert_eq!(
        settle_raw_fallback(decode_error("image"), Err(decode_error("raw"))).unwrap_err().message(),
        "failed to decode image with image crate: image; RAW fallback also failed: raw"
    );
    let garbage = decode_image_from_bytes(b"neither image nor RAW").unwrap_err().message();
    assert!(garbage.starts_with("failed to decode image with image crate: "));
    assert!(garbage.ends_with("; RAW fallback also failed: no RAW"));
    let raw_garbage = decode_image_from_bytes(b"FUJIFILM").unwrap_err().message();
    assert!(raw_garbage.starts_with("no RAW; image crate fallback also failed: "));
}

#[test]
fn raw_bytes_are_shown_by_the_raw_decoder() {
    let shown = decode_bytes(
        b"FUJIFILM",
        |_: &[u8]| Ok(RawDecodeOutcome::Decoded(numbered(2, 1))),
        |_: &[u8]| panic!("the general decoder is not to be asked"),
        |_: &[u8]| panic!("the TIFF decoder is not to be asked"),
        no_heif_orientation,
    );
    assert_eq!(reds(&shown.unwrap()), (2, 1, vec![0, 1]));
    let fatal = decode_bytes(
        b"FUJIFILM",
        |_: &[u8]| Err(ImageError::Other("disk".to_owned())),
        decode_general,
        read_tiff,
        no_heif_orientation,
    );
    assert!(matches!(fatal, Err(ImageError::Other(text)) if text == "disk"));
}

#[test]
fn committed_raw_is_never_shown_by_the_general_decoder() {
    let result = decode_image_from_path(
        "a/photo.nef",
        true,
        10,
        || Ok(RawDecodeOutcome::ProbeRejected("unknown camera".to_owned())),
        || panic!("the general decoder is not to be asked"),
    );
    assert_eq!(
        result.unwrap_err().message(),
        "'a/photo.nef' looks like a camera RAW but no RAW decoder matched (camera model not supported by rawler?), refusing thumbnail fallback: unknown camera"
    );
    let oversized = decode_image_from_path(
        "photo.nef",
        true,
        268_435_457,
        || panic!("the RAW decoder is not to be asked"),
        || panic!("the general decoder is not to be asked"),
    );
    assert_eq!(
        oversized.unwrap_err().message(),
        "RAW image 'photo.nef' is too large to decode safely: 268435457 bytes exceeds 268435456 bytes"
    );
    let settled = settle_committed_raw("x", Ok(RawDecodeOutcome::Decoded(numbered(1, 1))));
    assert_eq!(reds(&settled.unwrap()), (1, 1, vec![0]));
}

#[test]
fn misnamed_raw_falls_back_to_the_general_decoder() {
    for (path, magic_is_raw) in [("photo.dng", false), ("photo.tif", true)] {
        let shown = decode_image_from_path(
            path,
            magic_is_raw,
            10,
            || Err(ImageError::Decode("no sensor data".to_owned())),
            || Ok(numbered(2, 1)),
        );
        assert_eq!(reds(&shown.unwrap()), (2, 1, vec![0, 1]));
    }
    let oversized = decode_classified_file(
        "photo.tif",
        false,
        true,
        268_435_457,
        || panic!("the RAW decoder is not to be asked"),
        || Err(ImageError::Decode("no image".to_owned())),
    );
    assert_eq!(
        oversized.unwrap_err().message(),
        "RAW decode skipped: 268435457 bytes exceeds 268435456 bytes; image crate fallback also failed: no image"
    );
}

#[test]
fn plain_file_is_left_to_the_general_decoder() {
    let shown = decode_image_from_path(
        "photo.jpg",
        false,
        u64::MAX,
        || panic!("the RAW decoder is not to be asked"),
        || Ok(numbered(2, 1)),
    );
    assert_eq!(reds(&shown.unwrap()), (2, 1, vec![0, 1]));
}

fn preview(width: u32, height: u32, is_jpeg: bool) -> RawPreview {
    RawPreview { width, height, is_jpeg }
}

#[test]
fn largest_usable_preview_is_selected() {
    let previews = vec![
        preview(1920, 1080, true),
        preview(4000, 3000, false),
        preview(1080, 1920, true),
        preview(20_001, 10_000, true),
        preview(1600, 1000, true),
    ];
    // Of two with as many pixels, the later one.
    assert_eq!(select_raw_preview(&previews), Some(2));
    assert_eq!(select_raw_preview(&vec![preview(100, 100, true)]), None);
    assert_eq!(select_raw_preview(&vec![]), None);
}

#[test]
fn preview_budget_grows_with_the_preview() {
    assert_eq!(
        preview_budget(&preview(1920, 1080, true)),
        PreviewBudget {
            max_image_width: 1920,
            max_image_height: 1080,
            max_alloc: 1920 * 1080 * 4 + 16 * 1024 * 1024,
        }
    );
    assert_eq!(preview_budget(&preview(u32::MAX, u32::MAX, true)).max_alloc, u64::MAX);
}

fn show_preview(
    previews: Result<Vec<RawPreview>, String>,
    encoded: Result<Vec<u8>, String>,
    attempt: ImageAttempt,
) -> Result<DecodedImage, String> {
    let bytes = encoded.clone();
    let list = previews.clone();
    decode_best_raw_preview(
        previews,
        |index| {
            assert_eq!(index, 0);
            encoded
        },
        |image_bytes, budget| {
            assert_eq!(image_bytes, bytes.unwrap());
            assert_eq!(budget, preview_budget(&list.unwrap()[0]));
            attempt
        },
        || Some(3),
        "a.dng",
    )
    .map_err(|error| error.message())
}

#[test]
fn preview_stands_in_for_a_large_raw() {
    let list = || Ok(vec![preview(1920, 1080, true)]);
    let bytes = || Ok(vec![1, 2, 3]);
    let unread = || Err("unread".to_owned());
    let plain =
        |image: DecodedImage| Ok(ProfiledImage { image: undecided(image), icc_profile: None });
    let mut rgb = vec![0u8; 1920 * 1080 * 3];
    rgb[0] = 9;
    let shown = show_preview(list(), bytes(), plain(picture(1920, 1080, rgb))).unwrap();
    assert_eq!(shown.rgb[shown.rgb.len() - 3], 9);
    assert_eq!(
        show_preview(list(), bytes(), plain(numbered(3, 2))).unwrap_err(),
        "embedded RAW preview for 'a.dng' decoded to ineligible dimensions 3x2"
    );
    assert_eq!(
        show_preview(list(), Err("eof".to_owned()), unread()).unwrap_err(),
        "failed to read embedded RAW preview 1920x1080 for 'a.dng': eof"
    );
    assert_eq!(
        show_preview(list(), bytes(), Err("bad".to_owned())).unwrap_err(),
        "failed to decode embedded RAW preview 1920x1080 for 'a.dng': bad"
    );
    assert_eq!(
        show_preview(Err("io".to_owned()), bytes(), unread()).unwrap_err(),
        "failed to inspect embedded RAW previews for 'a.dng': io"
    );
    assert_eq!(
        show_preview(
            Ok(vec![preview(10, 20, true), preview(4000, 3000, false)]),
            bytes(),
            unread()
        )
        .unwrap_err(),
        "RAW image 'a.dng' exceeds 36000000 pixels and has no usable embedded JPEG preview (requires short edge >= 1080px and <= 200000000 pixels; found: 10x20, 4000x3000)"
    );
    assert!(
        show_preview(Ok(vec![]), bytes(), unread()).unwrap_err().ends_with("found: none)")
    );
}

#[test]
fn preview_is_converted_to_srgb() {
    let display_p3 = ColorProfile::new_display_p3().encode().unwrap();
    let rgb: Vec<u8> = [128u8, 0, 0].into_iter().cycle().take(1920 * 1080 * 3).collect();
    let image = flat_picture(1920, 1080, rgb);
    let attempt = Ok(ProfiledImage { image, icc_profile: Some(display_p3) });
    let list = Ok(vec![preview(1920, 1080, true)]);
    assert!(show_preview(list, Ok(vec![]), attempt).unwrap().rgb[0] > 128);
}

#[test]
fn preview_jpeg_keeps_to_its_budget() {
    let mut jpeg = Vec::new();
    JpegEncoder::new_with_quality(&mut jpeg, 100)
        .write_image(&[50u8; 4 * 2 * 3], 4, 2, ColorType::Rgb8.into())
        .unwrap();
    let budget = preview_budget(&preview(4, 2, true));
    let image = decode_preview_jpeg(&jpeg, budget, decode_jpeg).unwrap();
    assert_eq!((image.dimensions.width, image.dimensions.height), (4, 2));
    let tight = PreviewBudget { max_image_width: 3, ..budget };
    assert!(decode_preview_jpeg(&jpeg, tight, decode_jpeg).is_err());
}

#[test]
fn development_is_oriented_by_the_metadata_first() {
    let shown = |metadata: Option<u32>, sensor: RawOrientation| {
        match settle_development(Ok(Some(numbered(3, 2))), metadata, sensor, "a.raw") {
            Ok(RawDecodeOutcome::Decoded(image)) => reds(&image),
            other => panic!("{other:?}"),
        }
    };
    assert_eq!(shown(Some(3), RawOrientation::Rotate90), (3, 2, vec![5, 4, 3, 2, 1, 0]));
    assert_eq!(shown(Some(99), RawOrientation::Rotate90), (2, 3, vec![3, 0, 4, 1, 5, 2]));
    assert_eq!(shown(None, RawOrientation::Unknown), (3, 2, vec![0, 1, 2, 3, 4, 5]));
}

fn develop(
    probe: Result<(), String>,
    plan: ImageResult<RawDecodePlan>,
    sensor: Result<(usize, usize), String>,
    developed: Result<Option<DecodedImage>, String>,
) -> Result<RawDecodeOutcome, String> {
    decode_raw_source_to_dynamic_image(
        probe,
        || plan,
        || Err(ImageError::Decode("no preview".to_owned())),
        || {
            sensor.map(|(width, height)| SensorImage {
                width,
                height,
                orientation: RawOrientation::Normal,
                data: 5u8,
            })
        },
        |data| {
            assert_eq!(data, 5);
            developed
        },
        || None,
        "a.raw",
    )
    .map_err(|error| error.message())
}

#[test]
fn raw_decoder_fails_step_by_step() {
    let ok = || Ok(RawDecodePlan::Develop);
    match develop(Err("unknown".to_owned()), ok(), Ok((1, 1)), Ok(None)) {
        Ok(RawDecodeOutcome::ProbeRejected(text)) => {
            assert_eq!(text, "input not recognized as a supported camera RAW: unknown")
        }
        other => panic!("{other:?}"),
    }
    assert_eq!(
        develop(Ok(()), Err(ImageError::Decode("no plan".to_owned())), Ok((1, 1)), Ok(None))
            .unwrap_err(),
        "no plan"
    );
    assert_eq!(
        develop(Ok(()), Ok(RawDecodePlan::UseEmbeddedPreview), Ok((1, 1)), Ok(None)).unwrap_err(),
        "no preview"
    );
    assert_eq!(
        develop(Ok(()), ok(), Err("cut".to_owned()), Ok(None)).unwrap_err(),
        "failed to decode RAW image: cut"
    );
    assert_eq!(
        develop(Ok(()), ok(), Ok((6001, 6000)), Ok(None)).unwrap_err(),
        "RAW image 'a.raw' is too large to develop safely: 6001x6000 exceeds 36000000 pixels"
    );
    assert_eq!(
        develop(Ok(()), ok(), Ok((1, 1)), Err("dark".to_owned())).unwrap_err(),
        "failed to develop RAW image: dark"
    );
    assert_eq!(
        develop(Ok(()), ok(), Ok((1, 1)), Ok(None)).unwrap_err(),
        "failed to materialize developed RAW image for 'a.raw'"
    );
    assert_eq!(
        develop(Ok(()), ok(), Ok((1, 1)), Ok(Some(picture(0, 5, vec![])))).unwrap_err(),
        "RAW image 'a.raw' decoded to invalid dimensions 0x5"
    );
    match develop(Ok(()), ok(), Ok((3, 2)), Ok(Some(numbered(3, 2)))) {
        Ok(RawDecodeOutcome::Decoded(image)) => assert_eq!(reds(&image), reds(&numbered(3, 2))),
        other => panic!("{other:?}"),
    }
}

#[test]
fn panics_of_the_raw_decoder_are_told() {
    assert_eq!(
        raw_decode_panicked("panic.raw", "synthetic panic").message(),
        "RAW decoder panicked while decoding 'panic.raw': synthetic panic"
    );
}

#[test]
fn converted_values_are_narrowed() {
    let shown = settle_srgb(flat_picture(1, 1, vec![1, 2, 3]), Some(vec![129, 65_535, 128]));
    assert_eq!(shown.rgb, vec![1, 255, 0]);
    let kept = settle_srgb(flat_picture(1, 1, vec![1, 2, 3]), None);
    assert_eq!(kept.rgb, vec![1, 2, 3]);
    let narrowed = settle_srgb(deep_picture(1, 1, vec![129, 65_535, 128]), None);
    assert_eq!(narrowed.rgb, vec![1, 255, 0]);
}

#[test]
fn profile_is_applied_or_left_aside() {
    let display_p3 = ColorProfile::new_display_p3().encode().unwrap();
    let red = || flat_picture(1, 1, vec![128, 0, 0]);
    let unchanged = vec![128, 0, 0];
    let converted = apply_icc_profile_to_srgb(red(), Some(&display_p3));
    assert!(converted.rgb[0] > 128);
    assert_eq!(apply_icc_profile_to_srgb(red(), Some(b"no profile")).rgb, unchanged);
    assert_eq!(apply_icc_profile_to_srgb(red(), None).rgb, unchanged);
}

#[test]
fn deep_values_are_converted_before_they_are_narrowed() {
    let display_p3 = ColorProfile::new_display_p3().encode().unwrap();
    let shown = |rgb: Vec<u16>| {
        apply_icc_profile_to_srgb(deep_picture(1, 1, rgb), Some(&display_p3)).rgb[0]
    };
    // Values that are one and the same in 8 bits are told apart by the conversion.
    let steps: Vec<u16> = (0..256u16).map(|i| 257 * i).collect();
    let told_apart = steps[1..255].iter().any(|&step| {
        shown(vec![step - 128, 0, 0]) != shown(vec![step + 128, 0, 0])
    });
    assert!(told_apart);
    assert_eq!(
        apply_icc_profile_to_srgb(deep_picture(1, 1, vec![257, 514, 771]), None).rgb,
        vec![1, 2, 3]
    );
}

#[test]
fn sixteen_bit_tiff_keeps_its_values_until_it_is_shown() {
    let parts = |icc_profile: Option<Vec<u8>>| TiffParts {
        dimensions: Dimensions { width: 1, height: 1 },
        color_type: TiffColorType::RGB(16),
        icc_profile,
        samples: TiffSamples::U16(vec![1000, 2000, 3000]),
    };
    let decoded = decode_tiff_from_bytes(b"II", "a.tif", |_: &[u8]| Ok(parts(None))).unwrap();
    assert!(matches!(&decoded.image.rgb, RgbValues::Words(words) if *words == [1000, 2000, 3000]));
    assert_eq!(decoded.into_srgb().rgb, vec![4, 8, 12]);
}

#[test]
fn preview_attempt_is_shown_or_told() {
    let profiled = ProfiledImage { image: undecided(numbered(2, 1)), icc_profile: None };
    assert_eq!(reds(&settle_preview_jpeg(Ok(profiled)).unwrap()), (2, 1, vec![0, 1]));
    assert_eq!(settle_preview_jpeg(Err("bad".to_owned())).unwrap_err(), "bad");
    let budget = preview_budget(&preview(4, 2, true));
    assert!(decode_preview_jpeg(b"no JPEG", budget, decode_jpeg).is_err());
}
