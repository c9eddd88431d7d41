use std::io::Cursor;

use photo_intake::dng::{
    padded_dng_dimension, raw_candidate_dimensions, raw_dimensions_from_ifd,
    validate_dng_raw_ifd_allocation,
};
use photo_intake::dng_block::DngBlockContext;
use photo_intake::dng_codec::{
    validate_dng_blocks,
    validate_dng_embedded_codec_dimensions as validate_codecs, validate_dng_jpeg_xl_header,
    validate_dng_lossless_jpeg_sample_count, BlockDemand, LosslessHeader,
};
use photo_intake::error::ImageResult;
use photo_intake::jpeg_xl::{
    jpeg_xl_canvas_intersection, summarize_jpeg_xl_header,
    validate_jpeg_xl_dependency_frame_layouts, JpegXlExtraChannel, JpegXlFrameLayout,
    JpegXlHeaderDimensions, JpegXlImageHeader,
};
use photo_intake::jpeg_xl_preflight::{
    inspect_jpeg_xl_header as inspect_header, JpegXlPreflightDecoder,
};
use photo_intake::raw_limits::{validate_raw_dimensions, RawDecodePlan};
use photo_intake::raw_pipeline::validate_raw_dimensions_before_decode;
use rawler::decompressors::ljpeg::LjpegDecompressor;
use rawler::formats::tiff::reader::TiffReader;
use rawler::formats::tiff::{GenericTiffReader, IFD};
use rawler::rawsource::RawSource;

fn inspect_lossless_jpeg(payload: &[u8]) -> LosslessHeader {
    LjpegDecompressor::new(payload).map(|decoder| (decoder.width(), decoder.height()))
}

fn validate_dng_embedded_codec_dimensions(
    raw_ifd: &IFD,
    source: &RawSource,
    source_name: &str,
) -> ImageResult<()> {
    validate_codecs(raw_ifd, source, source_name, &inspect_lossless_jpeg, &try_init)
}

fn try_init(
    decoder: jxl_oxide::UninitializedJxlImage,
) -> Result<JpegXlPreflightDecoder, String> {
    match decoder.try_init() {
        Ok(jxl_oxide::InitializeResult::NeedMoreData(waiting)) => {
            Ok(JpegXlPreflightDecoder::Waiting(waiting))
        }
        Ok(jxl_oxide::InitializeResult::Initialized(image)) => {
            Ok(JpegXlPreflightDecoder::Image(image))
        }
        Err(e) => Err(e.to_string()),
    }
}

fn inspect_jpeg_xl_header(
    payload: &[u8],
    context: DngBlockContext<'_>,
) -> ImageResult<JpegXlHeaderDimensions> {
    inspect_header(payload, context, &try_init)
}

fn validate_tiff_raw_candidate_dimensions(encoded: &[u8], source_name: &str) -> ImageResult<()> {
    let tiff = parse_tiff(encoded);
    for ifd in tiff.find_ifds_with_filter(|ifd| raw_candidate_dimensions(ifd).is_some()) {
        if let Some((width, height)) = raw_candidate_dimensions(ifd) {
            validate_raw_dimensions(width, height, source_name)?;
        }
    }
    Ok(())
}

#[test]
fn rejects_oversized_tiff_raw_candidate_from_header_dimensions() {
    let encoded = minimal_tiff_with_raw_candidate_dimensions(50_000, 4_001);
    let error = validate_tiff_raw_candidate_dimensions(&encoded, "huge.dng")
        .expect_err("oversized TIFF RAW candidate should fail before decode");

    assert!(error.message().contains("50000x4001"));
    assert!(error.message().contains("exceeds 36000000 pixels"));
}

#[test]
fn rejects_dng_sample_allocation_larger_than_nominal_dimensions() {
    let encoded = minimal_tiff_with_long_entries(&[
        (0x0100, 20_000), // ImageWidth
        (0x0101, 10_000), // ImageLength
        (0x0111, 0),      // StripOffsets
        (0x0115, 2),      // SamplesPerPixel
    ]);
    let tiff = parse_tiff(&encoded);

    let error = validate_dng_raw_ifd_allocation(tiff.root_ifd(), "wide-samples.dng")
        .expect_err("decoded samples should be bounded before allocation");

    assert!(error.message().contains("40000x10000"));
    assert!(error.message().contains("exceeds 200000000 samples"));
}

#[test]
fn rejects_dng_tile_padding_larger_than_nominal_dimensions() {
    let encoded = minimal_tiff_with_long_entries(&[
        (0x0100, 1),      // ImageWidth
        (0x0101, 1),      // ImageLength
        (0x0115, 1),      // SamplesPerPixel
        (0x0142, 50_000), // TileWidth
        (0x0143, 10_000), // TileLength
        (0x0144, 0),      // TileOffsets
    ]);
    let tiff = parse_tiff(&encoded);

    let error = validate_dng_raw_ifd_allocation(tiff.root_ifd(), "padded.dng")
        .expect_err("padded decoded samples should be bounded before allocation");

    assert!(error.message().contains("50000x10000"));
    assert!(error.message().contains("exceeds 200000000 samples"));
}

#[test]
fn accepts_matching_lossless_jpeg_dng_strip_dimensions() {
    let jpeg = synthetic_lossless_jpeg_header(8, 4);
    let encoded = minimal_dng_with_single_strip_payload(8, 4, 4, 1, 7, &jpeg);
    let tiff = parse_tiff(&encoded);
    let source = RawSource::new_from_slice(&encoded);

    validate_dng_embedded_codec_dimensions(tiff.root_ifd(), &source, "matching.dng")
        .expect("matching embedded lossless-JPEG dimensions should pass preflight");
}

#[test]
fn accepts_reshaped_lossless_jpeg_dng_tile_samples() {
    // DNG permits the JPEG axes to differ from the tile axes when their
    // total sample counts match. rawler flattens this 4x8 JPEG buffer and
    // rechunks its 32 samples into four destination rows of eight.
    let jpeg = synthetic_lossless_jpeg_header(4, 8);
    let encoded = minimal_dng_with_single_tile_payload(8, 4, 8, 4, 1, 7, &jpeg);
    let tiff = parse_tiff(&encoded);
    let source = RawSource::new_from_slice(&encoded);

    validate_dng_embedded_codec_dimensions(tiff.root_ifd(), &source, "reshaped.dng")
        .expect("reshaped lossless-JPEG samples should pass preflight");
}

#[test]
fn rejects_lossless_jpeg_samples_not_aligned_to_destination_rows() {
    let context = DngBlockContext::new("strip", 1, "partial-row.dng");
    let error = validate_dng_lossless_jpeg_sample_count(5, 4, 8, 2, 4, context)
        .expect_err("partial destination rows should fail preflight");

    assert!(error.message().contains("declares 20 samples (5x4)"));
    assert!(error.message().contains("complete destination rows of 8"));
}

#[test]
fn rejects_oversized_lossless_jpeg_dng_tile_dimensions_before_decode() {
    // The TIFF allocation is only 1x1, while the embedded SOF advertises
    // a multi-gigabyte 50,000x50,000 u16 image. Header inspection must
    // reject it without constructing rawler's payload-sized PixU16.
    let jpeg = synthetic_lossless_jpeg_header(50_000, 50_000);
    let encoded = minimal_dng_with_single_tile_payload(1, 1, 1, 1, 1, 7, &jpeg);
    let tiff = parse_tiff(&encoded);
    let source = RawSource::new_from_slice(&encoded);

    let error =
        validate_dng_embedded_codec_dimensions(tiff.root_ifd(), &source, "embedded-huge.dng")
            .expect_err("embedded lossless-JPEG dimensions should be checked before decode");

    assert!(
        error
            .message()
            .contains("declares 2500000000 samples (50000x50000)")
    );
    assert!(error.message().contains("expected 1..=1 samples"));
}

#[test]
fn rejects_unparseable_jpeg_xl_dng_payload_before_decode() {
    let encoded = minimal_dng_with_single_tile_payload(
        1,
        1,
        1,
        1,
        1,
        52_546,
        b"not a JPEG-XL codestream",
    );
    let tiff = parse_tiff(&encoded);
    let source = RawSource::new_from_slice(&encoded);

    let error =
        validate_dng_embedded_codec_dimensions(tiff.root_ifd(), &source, "invalid-jxl.dng")
            .expect_err("invalid JPEG-XL headers should fail closed before decode");

    assert!(error.message().contains("failed to inspect JPEG-XL"));
}

#[test]
fn accepts_matching_jpeg_xl_dng_tile_dimensions() {
    let encoded =
        minimal_dng_with_single_tile_payload(2, 2, 2, 2, 3, 52_546, tiny_rgb_jpeg_xl());
    let tiff = parse_tiff(&encoded);
    let source = RawSource::new_from_slice(&encoded);

    validate_dng_embedded_codec_dimensions(tiff.root_ifd(), &source, "matching-jxl.dng")
        .expect("matching embedded JPEG-XL dimensions should pass preflight");
}

#[test]
fn accepts_jpeg_xl_container_with_large_leading_metadata() {
    let payload =
        jpeg_xl_container_with_leading_metadata(tiny_rgb_jpeg_xl(), 1024 * 1024 + 4096);
    jxl_oxide::JxlImage::builder()
        .read(Cursor::new(&payload))
        .expect("the underlying decoder should accept the metadata-bearing container");
    let encoded = minimal_dng_with_single_tile_payload(2, 2, 2, 2, 3, 52_546, &payload);
    let tiff = parse_tiff(&encoded);
    let source = RawSource::new_from_slice(&encoded);

    validate_dng_embedded_codec_dimensions(tiff.root_ifd(), &source, "container-metadata.dng")
        .expect("container metadata should not consume the codestream inspection budget");
}

#[test]
fn accepts_progressive_dc_jpeg_xl_dependencies() {
    let payload = progressive_dc_jpeg_xl();
    let image = jxl_oxide::JxlImage::builder()
        .read(Cursor::new(&payload))
        .expect("progressive fixture should decode");
    assert!(
        !image
            .frame(0)
            .unwrap()
            .header()
            .frame_type
            .is_normal_frame()
    );
    assert_eq!(image.frame_by_keyframe(0).unwrap().index(), 2);

    let encoded = minimal_dng_with_single_tile_payload(32, 32, 32, 32, 3, 52_546, &payload);
    let tiff = parse_tiff(&encoded);
    let source = RawSource::new_from_slice(&encoded);

    validate_dng_embedded_codec_dimensions(tiff.root_ifd(), &source, "progressive-dc.dng")
        .expect("bounded LF dependency frames should pass JPEG-XL preflight");
}

#[test]
fn rejects_oversized_reference_only_jpeg_xl_dependency_before_decode() {
    let error = validate_jpeg_xl_dependency_frame_layouts(
        &[JpegXlFrameLayout {
            is_reference_only: true,
            x0: 0,
            y0: 0,
            width: 50_000,
            height: 50_000,
        }],
        2,
        2,
        3,
        12,
        DngBlockContext::new("tile", 0, "referenced-frame.dng"),
    )
    .expect_err("a leading reference-only frame should fail preflight");

    assert!(error.message().contains("dependency frames require"));
    assert!(error.message().contains("reference-only=true"));
    assert!(error.message().contains("dimensions=50000x50000"));
}

#[test]
fn bounds_cropped_jpeg_xl_dependencies_by_the_rendered_canvas_intersection() {
    validate_jpeg_xl_dependency_frame_layouts(
        &[JpegXlFrameLayout {
            is_reference_only: false,
            x0: -50_000,
            y0: 0,
            width: 50_002,
            height: 2,
        }],
        2,
        2,
        3,
        12,
        DngBlockContext::new("tile", 0, "cropped.dng"),
    )
    .expect("non-reference frames render only their intersection with the canvas");
}

fn minimal_tiff_with_raw_candidate_dimensions(width: u32, height: u32) -> Vec<u8> {
    minimal_tiff_with_long_entries(&[(0x0100, width), (0x0101, height), (0x0111, 0)])
}

fn minimal_tiff_with_long_entries(entries: &[(u16, u32)]) -> Vec<u8> {
    let mut encoded = Vec::new();
    encoded.extend_from_slice(b"II*\0");
    encoded.extend_from_slice(&8u32.to_le_bytes());
    encoded.extend_from_slice(&(entries.len() as u16).to_le_bytes());
    for &(tag, value) in entries {
        append_tiff_long(&mut encoded, tag, value);
    }
    encoded.extend_from_slice(&0u32.to_le_bytes());
    encoded
}

fn minimal_dng_with_single_strip_payload(
    width: u32,
    height: u32,
    rows_per_strip: u32,
    samples_per_pixel: u16,
    compression: u16,
    payload: &[u8],
) -> Vec<u8> {
    const ENTRY_COUNT: u16 = 7;
    let payload_offset = 8 + 2 + usize::from(ENTRY_COUNT) * 12 + 4;
    let mut encoded = Vec::new();
    encoded.extend_from_slice(b"II*\0");
    encoded.extend_from_slice(&8u32.to_le_bytes());
    encoded.extend_from_slice(&ENTRY_COUNT.to_le_bytes());
    append_tiff_long(&mut encoded, 0x0100, width); // ImageWidth
    append_tiff_long(&mut encoded, 0x0101, height); // ImageLength
    append_tiff_short(&mut encoded, 0x0103, compression); // Compression
    append_tiff_long(&mut encoded, 0x0111, payload_offset as u32); // StripOffsets
    append_tiff_short(&mut encoded, 0x0115, samples_per_pixel); // SamplesPerPixel
    append_tiff_long(&mut encoded, 0x0116, rows_per_strip); // RowsPerStrip
    append_tiff_long(&mut encoded, 0x0117, payload.len() as u32); // StripByteCounts
    encoded.extend_from_slice(&0u32.to_le_bytes());
    assert_eq!(encoded.len(), payload_offset);
    encoded.extend_from_slice(payload);
    encoded
}

#[allow(clippy::too_many_arguments)]
fn minimal_dng_with_single_tile_payload(
    width: u32,
    height: u32,
    tile_width: u32,
    tile_height: u32,
    samples_per_pixel: u16,
    compression: u16,
    payload: &[u8],
) -> Vec<u8> {
    const ENTRY_COUNT: u16 = 8;
    let payload_offset = 8 + 2 + usize::from(ENTRY_COUNT) * 12 + 4;
    let mut encoded = Vec::new();
    encoded.extend_from_slice(b"II*\0");
    encoded.extend_from_slice(&8u32.to_le_bytes());
    encoded.extend_from_slice(&ENTRY_COUNT.to_le_bytes());
    append_tiff_long(&mut encoded, 0x0100, width); // ImageWidth
    append_tiff_long(&mut encoded, 0x0101, height); // ImageLength
    append_tiff_short(&mut encoded, 0x0103, compression); // Compression
    append_tiff_short(&mut encoded, 0x0115, samples_per_pixel); // SamplesPerPixel
    append_tiff_long(&mut encoded, 0x0142, tile_width); // TileWidth
    append_tiff_long(&mut encoded, 0x0143, tile_height); // TileLength
    append_tiff_long(&mut encoded, 0x0144, payload_offset as u32); // TileOffsets
    append_tiff_long(&mut encoded, 0x0145, payload.len() as u32); // TileByteCounts
    encoded.extend_from_slice(&0u32.to_le_bytes());
    assert_eq!(encoded.len(), payload_offset);
    encoded.extend_from_slice(payload);
    encoded
}

fn synthetic_lossless_jpeg_header(width: u16, height: u16) -> Vec<u8> {
    let mut jpeg = Vec::new();
    jpeg.extend_from_slice(&[0xFF, 0xD8]); // SOI
    jpeg.extend_from_slice(&[0xFF, 0xC3]); // SOF3
    jpeg.extend_from_slice(&11u16.to_be_bytes());
    jpeg.push(12); // precision
    jpeg.extend_from_slice(&height.to_be_bytes());
    jpeg.extend_from_slice(&width.to_be_bytes());
    jpeg.push(1); // component count
    jpeg.extend_from_slice(&[1, 0x11, 0]); // id, sampling, quantization table

    jpeg.extend_from_slice(&[0xFF, 0xC4]); // DHT
    jpeg.extend_from_slice(&20u16.to_be_bytes());
    jpeg.push(0); // DC table 0
    jpeg.push(1); // one one-bit code
    jpeg.extend_from_slice(&[0; 15]);
    jpeg.push(0); // Huffman value

    jpeg.extend_from_slice(&[0xFF, 0xDA]); // SOS
    jpeg.extend_from_slice(&8u16.to_be_bytes());
    jpeg.extend_from_slice(&[1, 1, 0]); // component count, id, table
    jpeg.extend_from_slice(&[1, 0, 0]); // predictor, Se/Ah, point transform
    jpeg
}

fn tiny_rgb_jpeg_xl() -> &'static [u8] {
    // A lossless 2x2 black RGB codestream generated by cjxl 0.11.1.
    &[
        0xff, 0x0a, 0x08, 0x10, 0x10, 0x09, 0x08, 0x02, 0x01, 0x00, 0x8c, 0x02, 0x4b, 0x18,
        0x9b, 0x9c, 0x71, 0x84, 0x03, 0x38, 0x80, 0x03, 0x38, 0x20, 0x4a, 0xc0, 0x39, 0x05,
        0x01, 0x00, 0x20, 0x44, 0x80, 0x08, 0x10, 0x01, 0x22, 0x40, 0x84, 0xff, 0xf7, 0xef,
        0xf9, 0xef, 0xa1, 0x31, 0xe7, 0x9c, 0x6b, 0xed, 0x73, 0x6f, 0x92, 0x24, 0x09, 0x01,
        0x55, 0x55, 0x55, 0x55, 0x55, 0xd5, 0xff, 0xff, 0xff, 0x73, 0xef, 0xeb, 0xee, 0xee,
        0xee, 0x86, 0xff, 0xf7, 0xef, 0xf9, 0xef, 0xa1, 0x31, 0xe7, 0x9c, 0x6b, 0xed, 0x73,
        0x6f, 0x92, 0x24, 0x09, 0x01, 0x55, 0x55, 0x55, 0x55, 0x55, 0xd5, 0xff, 0xff, 0xff,
        0x73, 0xef, 0xeb, 0xee, 0xee, 0xee, 0x86, 0xff, 0xf7, 0xef, 0xf9, 0xef, 0xa1, 0x31,
        0xe7, 0x9c, 0x6b, 0xed, 0x73, 0x6f, 0x92, 0x24, 0x09, 0x01, 0x55, 0x55, 0x55, 0x55,
        0x55, 0xd5, 0xff, 0xff, 0xff, 0x73, 0xef, 0xeb, 0xee, 0xee, 0xee, 0x86, 0xff, 0xf7,
        0xef, 0xf9, 0xef, 0xa1, 0x31, 0xe7, 0x9c, 0x6b, 0xed, 0x73, 0x6f, 0x92, 0x24, 0x09,
        0x01, 0x55, 0x55, 0x55, 0x55, 0x55, 0xd5, 0xff, 0xff, 0xff, 0x73, 0xef, 0xeb, 0xee,
        0xee, 0xee, 0x3e, 0x00, 0x00, 0x00, 0x00,
    ]
}

fn progressive_dc_jpeg_xl() -> Vec<u8> {
    // A 32x32 RGB gradient encoded by cjxl 0.11.1 with
    // --progressive_dc=2 --progressive_ac --container=0. It contains two
    // LF dependency frames before the first displayed keyframe.
    decode_hex(&[
        "ff0a47060a2a1805005c00000000000000000030005000504a2834226e3a",
        "0040249ca6619fac3b193de2c3a460040000acc000504204704032104c10",
        "64106cfeffea030050a132cab8c1cbb99e2f3f74584cdbb8ced056db1696",
        "24422924b146030834024333280c4d554d494d4586a6aaa6a4a622435355",
        "53525391a1a9aa29a9a9c8d054d594d4546468aa6a4a6a2a323455352535",
        "15199aaa9a929a8a0c4d554d494d4586a6aaa6a4a62243535553525391a1",
        "a9aa29a9a9c8d054d594d4546468aa6a4a6a2a32345535253515199aaa9a",
        "929a8a0c4d554d494d454a120b83736c604a46cb5f3c5c4962558276def2",
        "cb46197c921fa428a4701bfac66c6e98553a643430e44931d9449804c18d",
        "d68f926a7462b19f82bbb0e7929cac33e626a883d263685da269d7720600",
        "3e60a7016a00089bdeb5033f3914b5a8790ae23bd8dede0e286ad7cafe1c",
        "ef4d7ddb2fa32dc77eb66399c58870d74f9dadf439f0df04d8f8dc59c175",
        "e1927752c5be808c0ff2afe2b1abef0329000c94a1f2d83d0397049a8911",
        "ec22e87e91e8f38f52df1edf9c74939ce48ac705e3d2e9e2660e3f1afb56",
        "ac1218807c3452b61e936bfa0586e97723d04ac4b64aa88beb74f0e4d9be",
        "e72ad03ff3070ce79b47c4472e9f7605db9062cf534060ccdfa7025e7140",
        "4981ab54782e97312d06eab15681943200e0c3a460842800904001640006",
        "2c0002b59f200000152aa38c1bbc9cebf9f24387c5b48deb0c6db56d6149",
        "22944212891a10450330fe050000952492d0f327bbf7d7a8084d49e200f1",
        "363f45210566ab1809879fe369cf77aff67e9f2ab345d57399a91106e892",
        "b100400f00000bd8036800a4000ca250ea5bdb238062",
    ].concat())
}

fn decode_hex(hex: &str) -> Vec<u8> {
    assert!(hex.len().is_multiple_of(2));
    (0..hex.len())
        .step_by(2)
        .map(|offset| u8::from_str_radix(&hex[offset..offset + 2], 16).unwrap())
        .collect()
}

fn jpeg_xl_container_with_leading_metadata(
    codestream: &[u8],
    metadata_bytes: usize,
) -> Vec<u8> {
    let mut container = Vec::new();
    container.extend_from_slice(b"\0\0\0\x0cJXL \r\n\x87\n");
    append_jpeg_xl_box(&mut container, b"ftyp", b"jxl \0\0\0\0jxl ");
    append_jpeg_xl_box(&mut container, b"Exif", &vec![0; metadata_bytes]);
    append_jpeg_xl_box(&mut container, b"jxlc", codestream);
    container
}

fn append_jpeg_xl_box(container: &mut Vec<u8>, box_type: &[u8; 4], payload: &[u8]) {
    let box_size = u32::try_from(8 + payload.len()).expect("test box must fit in u32");
    container.extend_from_slice(&box_size.to_be_bytes());
    container.extend_from_slice(box_type);
    container.extend_from_slice(payload);
}

fn parse_tiff(encoded: &[u8]) -> GenericTiffReader {
    GenericTiffReader::new(&mut Cursor::new(encoded), 0, 0, None, &[])
        .expect("synthetic TIFF should parse")
}

fn append_tiff_long(encoded: &mut Vec<u8>, tag: u16, value: u32) {
    encoded.extend_from_slice(&tag.to_le_bytes());
    encoded.extend_from_slice(&4u16.to_le_bytes());
    encoded.extend_from_slice(&1u32.to_le_bytes());
    encoded.extend_from_slice(&value.to_le_bytes());
}

fn append_tiff_short(encoded: &mut Vec<u8>, tag: u16, value: u16) {
    encoded.extend_from_slice(&tag.to_le_bytes());
    encoded.extend_from_slice(&3u16.to_le_bytes());
    encoded.extend_from_slice(&1u32.to_le_bytes());
    encoded.extend_from_slice(&value.to_le_bytes());
    encoded.extend_from_slice(&0u16.to_le_bytes());
}


const BLOCK: &str = "DNG tile 3 for 'a.dng'";

fn block() -> DngBlockContext<'static> {
    DngBlockContext::new("tile", 3, "a.dng")
}

#[test]
fn block_context_names_the_block() {
    assert_eq!(block().write(), BLOCK);
}

#[test]
fn padding_fills_up_to_whole_tiles() {
    assert_eq!(padded_dng_dimension(100, 32, "width", "a.dng").unwrap(), 128);
    assert_eq!(padded_dng_dimension(96, 32, "width", "a.dng").unwrap(), 96);
    assert_eq!(padded_dng_dimension(0, 32, "width", "a.dng").unwrap(), 0);
    assert_eq!(
        padded_dng_dimension(100, 0, "width", "a.dng").unwrap_err().message(),
        "DNG image 'a.dng' has invalid tile width 0"
    );
    assert_eq!(
        padded_dng_dimension(usize::MAX, usize::MAX - 1, "height", "a.dng").unwrap_err().message(),
        "DNG image 'a.dng' padded height overflows"
    );
}

fn allocation_error(entries: &[(u16, u32)]) -> String {
    let encoded = minimal_tiff_with_long_entries(entries);
    let tiff = parse_tiff(&encoded);
    validate_dng_raw_ifd_allocation(tiff.root_ifd(), "a.dng").unwrap_err().message()
}

#[test]
fn allocation_asks_for_every_tag() {
    assert_eq!(
        allocation_error(&[(0x0100, 10), (0x0111, 0), (0x0115, 1)]),
        "failed to inspect DNG allocation dimensions for 'a.dng'"
    );
    assert_eq!(
        allocation_error(&[(0x0100, 10), (0x0101, 10), (0x0111, 0)]),
        "DNG image 'a.dng' has no SamplesPerPixel value"
    );
    assert_eq!(
        allocation_error(&[(0x0100, 10), (0x0101, 10), (0x0111, 0), (0x0115, 0)]),
        "DNG image 'a.dng' has invalid SamplesPerPixel value 0"
    );
    assert_eq!(
        allocation_error(&[(0x0100, 10), (0x0101, 10), (0x0115, 1)]),
        "failed to inspect DNG storage layout for 'a.dng': General error: IFD has no StripOffsets or TileOffsets tag"
    );
    assert_eq!(
        allocation_error(&[(0x0100, 10), (0x0101, 10), (0x0115, 1), (0x0144, 0)]),
        "tiled DNG image 'a.dng' has no TileWidth value"
    );
    assert_eq!(
        allocation_error(&[(0x0100, 10), (0x0101, 10), (0x0115, 1), (0x0142, 8), (0x0144, 0)]),
        "tiled DNG image 'a.dng' has no TileLength value"
    );
}

#[test]
fn allocation_accepts_a_small_image() {
    let encoded = minimal_tiff_with_long_entries(&[
        (0x0100, 100),
        (0x0101, 50),
        (0x0111, 0),
        (0x0115, 3),
    ]);
    let tiff = parse_tiff(&encoded);
    assert!(validate_dng_raw_ifd_allocation(tiff.root_ifd(), "a.dng").is_ok());
    assert_eq!(raw_dimensions_from_ifd(tiff.root_ifd()), Some((100, 50)));
}

#[test]
fn directory_without_samples_is_no_candidate() {
    let encoded = minimal_tiff_with_long_entries(&[(0x0100, 100), (0x0101, 50)]);
    let tiff = parse_tiff(&encoded);
    assert_eq!(raw_dimensions_from_ifd(tiff.root_ifd()), Some((100, 50)));
    assert_eq!(raw_candidate_dimensions(tiff.root_ifd()), None);
}

#[test]
fn uncompressed_image_needs_no_inspection() {
    let encoded = minimal_dng_with_single_strip_payload(8, 4, 4, 1, 1, b"anything");
    let tiff = parse_tiff(&encoded);
    let source = RawSource::new_from_slice(&encoded);
    assert!(validate_dng_embedded_codec_dimensions(tiff.root_ifd(), &source, "a.dng").is_ok());
}

fn codec_error(encoded: &[u8]) -> String {
    let tiff = parse_tiff(encoded);
    let source = RawSource::new_from_slice(encoded);
    validate_dng_embedded_codec_dimensions(tiff.root_ifd(), &source, "a.dng").unwrap_err().message()
}

#[test]
fn strips_have_to_cover_the_image() {
    let jpeg = synthetic_lossless_jpeg_header(8, 2);
    assert_eq!(
        codec_error(&minimal_dng_with_single_strip_payload(8, 4, 2, 1, 7, &jpeg)),
        "compressed DNG image 'a.dng' declares 1 strips but dimensions require 2"
    );
    assert_eq!(
        codec_error(&minimal_dng_with_single_strip_payload(8, 4, 0, 1, 7, &jpeg)),
        "compressed DNG image 'a.dng' has invalid RowsPerStrip value 0"
    );
    assert_eq!(
        codec_error(&minimal_dng_with_single_strip_payload(8, 4, 4, 0, 7, &jpeg)),
        "DNG image 'a.dng' has invalid SamplesPerPixel value 0"
    );
}

#[test]
fn tiles_have_to_cover_the_image() {
    let jpeg = synthetic_lossless_jpeg_header(8, 4);
    assert_eq!(
        codec_error(&minimal_dng_with_single_tile_payload(16, 4, 8, 4, 1, 7, &jpeg)),
        "compressed DNG image 'a.dng' declares 1 tiles but dimensions require 2"
    );
    assert_eq!(
        codec_error(&minimal_dng_with_single_tile_payload(16, 4, 0, 4, 1, 7, &jpeg)),
        "compressed DNG image 'a.dng' has invalid tile dimensions 0x4"
    );
}

#[test]
fn blocks_have_to_lie_in_the_file() {
    let jpeg = synthetic_lossless_jpeg_header(8, 4);
    let mut tile = minimal_dng_with_single_tile_payload(8, 4, 8, 4, 1, 7, &jpeg);
    tile.pop();
    assert!(codec_error(&tile).starts_with("failed to inspect compressed DNG tiles for 'a.dng': "));
    let mut strip = minimal_dng_with_single_strip_payload(8, 4, 4, 1, 7, &jpeg);
    strip.pop();
    assert!(
        codec_error(&strip).starts_with("failed to inspect compressed DNG strips for 'a.dng': ")
    );
}

#[test]
fn strip_beyond_32_bits_is_refused() {
    let mut encoded = Vec::new();
    encoded.extend_from_slice(b"II*\0");
    encoded.extend_from_slice(&8u32.to_le_bytes());
    encoded.extend_from_slice(&6u16.to_le_bytes());
    append_tiff_long(&mut encoded, 0x0100, 8);
    append_tiff_long(&mut encoded, 0x0101, 4);
    append_tiff_short(&mut encoded, 0x0103, 7);
    append_tiff_long(&mut encoded, 0x0111, u32::MAX);
    append_tiff_short(&mut encoded, 0x0115, 1);
    append_tiff_long(&mut encoded, 0x0117, 2);
    encoded.extend_from_slice(&0u32.to_le_bytes());
    assert_eq!(
        codec_error(&encoded),
        "failed to inspect compressed DNG strips for 'a.dng': the strip table is empty or exceeds 32 bits"
    );
}

#[test]
fn compressed_image_needs_its_tags() {
    let encoded = minimal_tiff_with_long_entries(&[(0x0101, 4), (0x0103, 7), (0x0115, 1)]);
    assert_eq!(
        codec_error(&encoded),
        "compressed DNG image 'a.dng' is missing a required TIFF tag"
    );
}

#[test]
fn damaged_lossless_jpeg_is_told() {
    let encoded = minimal_dng_with_single_tile_payload(8, 4, 8, 4, 1, 7, b"no JPEG at all");
    assert!(
        codec_error(&encoded)
            .starts_with("failed to inspect lossless-JPEG DNG tile 0 for 'a.dng': ")
    );
}

#[test]
fn lossless_jpeg_fills_whole_rows() {
    assert_eq!(
        validate_dng_lossless_jpeg_sample_count(4, 8, 8, 2, 4, block()).unwrap(),
        32
    );
    assert_eq!(
        validate_dng_lossless_jpeg_sample_count(8, 2, 8, 2, 4, block()).unwrap(),
        16
    );
    assert_eq!(
        validate_dng_lossless_jpeg_sample_count(8, 5, 8, 2, 4, block()).unwrap_err().message(),
        "lossless-JPEG DNG tile 3 for 'a.dng' declares 40 samples (8x5); expected 16..=32 samples in complete destination rows of 8"
    );
    assert!(validate_dng_lossless_jpeg_sample_count(0, 0, 0, 0, 4, block()).is_err());
}

#[test]
fn jpeg_xl_has_to_fit_its_block() {
    let demand = BlockDemand {
        pixel_width: 4,
        sample_width: 12,
        minimum_height: 2,
        maximum_height: 4,
        samples_per_pixel: 3,
    };
    let fitting = JpegXlHeaderDimensions {
        width: 4,
        height: 3,
        output_channels: 3,
        rendered_samples: 36,
    };
    assert_eq!(validate_dng_jpeg_xl_header(fitting, demand, block()).unwrap(), 36);
    let wide = JpegXlHeaderDimensions { width: 5, ..fitting };
    assert_eq!(
        validate_dng_jpeg_xl_header(wide, demand, block()).unwrap_err().message(),
        "compressed DNG tile 3 for 'a.dng' has incompatible JPEG-XL pixel dimensions 5x3; expected width 4 and height 2..=4"
    );
    let grey = JpegXlHeaderDimensions { output_channels: 1, ..fitting };
    assert_eq!(
        validate_dng_jpeg_xl_header(grey, demand, block()).unwrap_err().message(),
        "JPEG-XL DNG tile 3 for 'a.dng' declares 1 output channels, expected 3"
    );
    let rich = JpegXlHeaderDimensions { rendered_samples: 49, ..fitting };
    assert_eq!(
        validate_dng_jpeg_xl_header(rich, demand, block()).unwrap_err().message(),
        "JPEG-XL DNG tile 3 for 'a.dng' declares 49 rendered samples, exceeding the expected block allocation 48"
    );
    let long = BlockDemand { pixel_width: 20_000, sample_width: 60_000, ..demand };
    let longer = JpegXlHeaderDimensions { width: 20_000, ..fitting };
    assert_eq!(
        validate_dng_jpeg_xl_header(longer, long, block()).unwrap_err().message(),
        "RAW image 'a.dng' is too large to decode safely: embedded JPEG-XL sample dimensions 60000x3 exceeds maximum side length 50000"
    );
}

#[test]
fn jpeg_xl_of_the_wrong_size_is_refused() {
    let encoded =
        minimal_dng_with_single_tile_payload(4, 2, 4, 2, 3, 52_546, tiny_rgb_jpeg_xl());
    assert_eq!(
        codec_error(&encoded),
        "compressed DNG tile 0 for 'a.dng' has incompatible JPEG-XL pixel dimensions 2x2; expected width 4 and height 2..=2"
    );
}

#[test]
fn jpeg_xl_header_is_inspected() {
    let header = inspect_jpeg_xl_header(tiny_rgb_jpeg_xl(), block()).unwrap();
    assert_eq!(
        header,
        JpegXlHeaderDimensions { width: 2, height: 2, output_channels: 3, rendered_samples: 12 }
    );
    assert_eq!(
        inspect_jpeg_xl_header(b"none", block()).unwrap_err().message(),
        "failed to inspect JPEG-XL DNG tile 3 for 'a.dng': invalid JPEG-XL signature"
    );
    assert_eq!(
        inspect_jpeg_xl_header(&tiny_rgb_jpeg_xl()[..4], block()).unwrap_err().message(),
        "failed to inspect JPEG-XL DNG tile 3 for 'a.dng': first keyframe header exceeds the 16777216-byte codestream inspection budget or is truncated"
    );
}

/// A container with boxes of metadata in front of the codestream.
fn boxed(kinds: &[(&[u8; 4], usize)]) -> Vec<u8> {
    let mut payload = b"\0\0\0\x0cJXL \r\n\x87\n".to_vec();
    for (kind, length) in kinds {
        payload.extend_from_slice(&(8 + *length as u32).to_be_bytes());
        payload.extend_from_slice(*kind);
        payload.resize(payload.len() + length, 7);
    }
    let codestream = tiny_rgb_jpeg_xl();
    payload.extend_from_slice(&(8 + codestream.len() as u32).to_be_bytes());
    payload.extend_from_slice(b"jxlc");
    payload.extend_from_slice(codestream);
    payload
}

#[test]
fn metadata_boxes_change_nothing() {
    let bare = inspect_jpeg_xl_header(&boxed(&[]), block()).unwrap();
    assert_eq!(bare, inspect_jpeg_xl_header(tiny_rgb_jpeg_xl(), block()).unwrap());
    let kinds: [(&[u8; 4], usize); 4] =
        [(b"ftyp", 12), (b"Exif", 0), (b"xml ", 1), (b"abcd", 70_000)];
    assert_eq!(inspect_jpeg_xl_header(&boxed(&kinds), block()).unwrap(), bare);
}

/// A whole box whose size stands behind its type.
fn long_box(kind: &[u8; 4], content: &[u8]) -> Vec<u8> {
    let mut long = vec![0, 0, 0, 1];
    long.extend_from_slice(kind);
    long.extend_from_slice(&(16 + content.len() as u64).to_be_bytes());
    long.extend_from_slice(content);
    long
}

#[test]
fn long_and_compressed_metadata_boxes_change_nothing() {
    let bare = boxed(&[]);
    let expected = inspect_jpeg_xl_header(&bare, block()).unwrap();
    let mut compressed = vec![0, 0, 0, 15];
    compressed.extend_from_slice(b"brobExifabc");
    for metadata in
        [long_box(b"Exif", b""), long_box(b"xml ", &[5; 1000]), compressed, long_box(b"brob", b"abcd")]
    {
        let mut payload = bare[..12].to_vec();
        payload.extend_from_slice(&metadata);
        payload.extend_from_slice(&metadata);
        payload.extend_from_slice(&bare[12..]);
        assert_eq!(inspect_jpeg_xl_header(&payload, block()).unwrap(), expected);
    }
    let mut payload = bare[..12].to_vec();
    payload.extend_from_slice(&long_box(b"brob", b"jxlc"));
    payload.extend_from_slice(&bare[12..]);
    assert!(inspect_jpeg_xl_header(&payload, block()).is_err());
}

#[test]
fn refusal_to_make_an_image_is_told() {
    let refused = inspect_header(tiny_rgb_jpeg_xl(), block(), &|_| Err("bad profile".to_owned()));
    assert_eq!(
        refused.unwrap_err().message(),
        "failed to inspect JPEG-XL DNG tile 3 for 'a.dng': bad profile"
    );
    let waiting = inspect_header(tiny_rgb_jpeg_xl(), block(), &|decoder| {
        Ok(JpegXlPreflightDecoder::Waiting(decoder))
    });
    assert_eq!(
        waiting.unwrap_err().message(),
        "failed to inspect JPEG-XL DNG tile 3 for 'a.dng': first keyframe header exceeds the 16777216-byte codestream inspection budget or is truncated"
    );
}

fn header(orientation: u32, shifts: &[(bool, u32)]) -> JpegXlImageHeader {
    JpegXlImageHeader {
        canvas_width: 5,
        canvas_height: 3,
        orientation,
        grayscale: false,
        extra_channels: shifts
            .iter()
            .map(|&(is_black, dim_shift)| JpegXlExtraChannel { is_black, dim_shift })
            .collect(),
    }
}

#[test]
fn samples_count_every_channel() {
    let plain = summarize_jpeg_xl_header(&header(1, &[]), &[], block()).unwrap();
    assert_eq!(
        plain,
        JpegXlHeaderDimensions { width: 5, height: 3, output_channels: 3, rendered_samples: 45 }
    );
    // Half the width and half the height, both rounded up.
    let black = summarize_jpeg_xl_header(&header(6, &[(false, 0), (true, 1)]), &[], block());
    assert_eq!(
        black.unwrap(),
        JpegXlHeaderDimensions {
            width: 3,
            height: 5,
            output_channels: 4,
            rendered_samples: 45 + 15 + 6,
        }
    );
    assert_eq!(
        summarize_jpeg_xl_header(&header(1, &[(false, 128)]), &[], block()).unwrap_err().message(),
        "JPEG-XL DNG tile 3 for 'a.dng' has invalid extra-channel dimension shift 128"
    );
    let shifted = summarize_jpeg_xl_header(&header(1, &[(false, 127)]), &[], block()).unwrap();
    assert_eq!(shifted.rendered_samples, 46);
}

#[test]
fn canvas_intersection_is_the_common_part() {
    assert_eq!(jpeg_xl_canvas_intersection(0, 10, 4), 4);
    assert_eq!(jpeg_xl_canvas_intersection(-3, 10, 4), 4);
    assert_eq!(jpeg_xl_canvas_intersection(-3, 5, 4), 2);
    assert_eq!(jpeg_xl_canvas_intersection(2, 1, 4), 1);
    assert_eq!(jpeg_xl_canvas_intersection(4, 1, 4), 0);
    assert_eq!(jpeg_xl_canvas_intersection(-10, 3, 4), 0);
    assert_eq!(jpeg_xl_canvas_intersection(i32::MIN, u32::MAX, u32::MAX), 2_147_483_647);
}

fn layout(width: u32, height: u32) -> JpegXlFrameLayout {
    JpegXlFrameLayout { is_reference_only: true, x0: 1, y0: -2, width, height }
}

#[test]
fn dependency_frames_share_a_budget() {
    let frames = [layout(2, 2), layout(2, 2), layout(2, 2)];
    assert!(
        validate_jpeg_xl_dependency_frame_layouts(&frames, 2, 2, 3, 12, block()).is_ok()
    );
    let more = [layout(2, 2), layout(2, 2), layout(2, 2), layout(1, 1)];
    assert_eq!(
        validate_jpeg_xl_dependency_frame_layouts(&more, 2, 2, 3, 12, block())
            .unwrap_err()
            .message(),
        "JPEG-XL DNG tile 3 for 'a.dng' dependency frames require 39 samples by frame 3, exceeding the bounded dependency allocation 36; frame 3 reference-only=true, origin=(1, -2), dimensions=1x1 on a 2x2 canvas"
    );
    assert_eq!(
        validate_jpeg_xl_dependency_frame_layouts(&[], 2, 2, 3, u128::MAX, block())
            .unwrap_err()
            .message(),
        "JPEG-XL DNG tile 3 for 'a.dng' dependency sample budget overflows"
    );
    assert_eq!(
        validate_jpeg_xl_dependency_frame_layouts(
            &[layout(50_001, 1)],
            2,
            2,
            3,
            u128::MAX / 3,
            block()
        )
        .unwrap_err()
        .message(),
        "RAW image 'a.dng' is too large to decode safely: embedded JPEG-XL dependency frame dimensions 50001x1 exceeds maximum side length 50000"
    );
}

fn plan(
    reported: Result<Option<(usize, usize)>, String>,
    found: Result<Option<IFD>, String>,
    candidates: Vec<(usize, usize)>,
    encoded: &[u8],
) -> Result<RawDecodePlan, String> {
    let source = RawSource::new_from_slice(encoded);
    validate_raw_dimensions_before_decode(
        reported,
        || found,
        || candidates,
        &source,
        "a.dng",
        &inspect_lossless_jpeg,
        &try_init,
    )
    .map_err(|error| error.message())
}

#[test]
fn plan_follows_the_first_source_that_knows() {
    assert_eq!(
        plan(Err("broken".to_owned()), Ok(None), vec![], b""),
        Err("failed to inspect RAW dimensions: broken".to_owned())
    );
    assert_eq!(
        plan(Ok(Some((6001, 6000))), Ok(None), vec![(1, 1)], b""),
        Ok(RawDecodePlan::UseEmbeddedPreview)
    );
    assert_eq!(
        plan(Ok(Some((6000, 6000))), Ok(None), vec![(6001, 6000)], b""),
        Ok(RawDecodePlan::Develop)
    );
    assert_eq!(
        plan(Ok(None), Ok(None), vec![(10, 10), (6001, 6000)], b""),
        Ok(RawDecodePlan::UseEmbeddedPreview)
    );
    assert_eq!(plan(Ok(None), Ok(None), vec![(10, 10)], b""), Ok(RawDecodePlan::Develop));
    assert_eq!(
        plan(Ok(None), Err("broken".to_owned()), vec![], b""),
        Err("failed to inspect RAW dimensions: broken".to_owned())
    );
}

#[test]
fn plan_checks_the_buffers_of_what_is_developed() {
    let jpeg = synthetic_lossless_jpeg_header(50_000, 50_000);
    let encoded = minimal_dng_with_single_tile_payload(1, 1, 1, 1, 1, 7, &jpeg);
    let ifd = parse_tiff(&encoded).root_ifd().clone();
    assert!(
        plan(Ok(None), Ok(Some(ifd)), vec![], &encoded)
            .unwrap_err()
            .contains("declares 2500000000 samples")
    );
    let fitting = synthetic_lossless_jpeg_header(8, 4);
    let encoded = minimal_dng_with_single_tile_payload(8, 4, 8, 4, 1, 7, &fitting);
    let ifd = parse_tiff(&encoded).root_ifd().clone();
    assert_eq!(plan(Ok(None), Ok(Some(ifd)), vec![], &encoded), Ok(RawDecodePlan::Develop));
}

/// A DNG of two lossless-JPEG strips.
fn dng_with_two_strips(height: u32, rows_per_strip: u32, strips: [&[u8]; 2]) -> Vec<u8> {
    let tables = 8 + 2 + 7 * 12 + 4;
    let first = tables + 16;
    let second = first + strips[0].len() as u32;
    let mut encoded = Vec::new();
    encoded.extend_from_slice(b"II*\0");
    encoded.extend_from_slice(&8u32.to_le_bytes());
    encoded.extend_from_slice(&7u16.to_le_bytes());
    append_tiff_long(&mut encoded, 0x0100, 8);
    append_tiff_long(&mut encoded, 0x0101, height);
    append_tiff_short(&mut encoded, 0x0103, 7);
    for (tag, table) in [(0x0111u16, tables), (0x0115, 0), (0x0116, 0), (0x0117, tables + 8)] {
        match tag {
            0x0115 => append_tiff_short(&mut encoded, tag, 1),
            0x0116 => append_tiff_long(&mut encoded, tag, rows_per_strip),
            _ => {
                encoded.extend_from_slice(&tag.to_le_bytes());
                encoded.extend_from_slice(&4u16.to_le_bytes());
                encoded.extend_from_slice(&2u32.to_le_bytes());
                encoded.extend_from_slice(&table.to_le_bytes());
            }
        }
    }
    encoded.extend_from_slice(&0u32.to_le_bytes());
    encoded.extend_from_slice(&first.to_le_bytes());
    encoded.extend_from_slice(&second.to_le_bytes());
    encoded.extend_from_slice(&(strips[0].len() as u32).to_le_bytes());
    encoded.extend_from_slice(&(strips[1].len() as u32).to_le_bytes());
    encoded.extend_from_slice(strips[0]);
    encoded.extend_from_slice(strips[1]);
    encoded
}

#[test]
fn final_strip_may_be_filled_up() {
    let full = synthetic_lossless_jpeg_header(8, 3);
    for rows in 1..=3 {
        let last = synthetic_lossless_jpeg_header(8, rows);
        let encoded = dng_with_two_strips(4, 3, [&full, &last]);
        let tiff = parse_tiff(&encoded);
        let source = RawSource::new_from_slice(&encoded);
        assert!(
            validate_dng_embedded_codec_dimensions(tiff.root_ifd(), &source, "a.dng").is_ok()
        );
    }
    let last = synthetic_lossless_jpeg_header(8, 4);
    assert_eq!(
        codec_error(&dng_with_two_strips(4, 3, [&full, &last])),
        "lossless-JPEG DNG strip 1 for 'a.dng' declares 32 samples (8x4); expected 8..=24 samples in complete destination rows of 8"
    );
    let short = synthetic_lossless_jpeg_header(8, 2);
    assert!(
        codec_error(&dng_with_two_strips(4, 3, [&short, &full])).contains("DNG strip 0 for 'a.dng'")
    );
}

#[test]
fn single_strip_gets_no_padding() {
    let jpeg = synthetic_lossless_jpeg_header(8, 8);
    assert_eq!(
        codec_error(&minimal_dng_with_single_strip_payload(8, 4, 8, 1, 7, &jpeg)),
        "lossless-JPEG DNG strip 0 for 'a.dng' declares 64 samples (8x8); expected 32..=32 samples in complete destination rows of 8"
    );
}

#[test]
fn payloads_share_the_sample_limit() {
    // Two strips of 150 million samples each, in an image that claims as much.
    let mut encoded = Vec::new();
    encoded.extend_from_slice(b"none");
    let layout = photo_intake::dng_codec::BlockLayout {
        compression: 7,
        is_tiled: true,
        samples_per_pixel: 1,
        block_width: 15_000,
        sample_width: 15_000,
        block_height: 10_000,
        image_height: 10_000,
        block_count: 2,
    };
    let payloads: Vec<&[u8]> = vec![&encoded, &encoded];
    let inspect = |_: &[u8]| -> LosslessHeader { Ok((15_000, 10_000)) };
    assert_eq!(
        validate_dng_blocks(&layout, &payloads, "a.dng", &inspect, &try_init)
            .unwrap_err()
            .message(),
        "compressed DNG image 'a.dng' is too large to decode safely: embedded codec payloads declare 300000000 samples, exceeding 200000000"
    );
}
