use std::io::Cursor;

use image::codecs::tiff::TiffEncoder;
use image::{ColorType, ImageEncoder};
use photo_intake::sniff::{
    bytes_have_tiff_magic, bytes_look_like_heif, bytes_look_like_raw, file_magic_looks_like_raw,
    path_extension_is_raw, tiff_contains_camera_raw_markers,
};
use tiff::encoder::colortype::RGB8;
use tiff::encoder::TiffEncoder as TiffCrateEncoder;
use tiff::tags::Tag;

#[test]
fn detects_heif_brand_in_bytes() {
    let bytes = b"\0\0\0\x18ftypheic\0\0\0\0";

    assert!(bytes_look_like_heif(bytes));
}

#[test]
fn skips_non_heif_bytes() {
    assert!(!bytes_look_like_heif(b"not an image"));
}

#[test]
fn detects_raw_file_extensions_case_insensitively() {
    assert!(path_extension_is_raw("photo.CR3"));
    assert!(path_extension_is_raw("photo.dng"));
    assert!(path_extension_is_raw("photo.3FR"));
    assert!(!path_extension_is_raw("photo.jpg"));
    assert!(!path_extension_is_raw("photo"));
}

#[test]
fn detects_raw_magic_bytes() {
    assert!(bytes_look_like_raw(b"IIU\0rest")); // Panasonic RW2
    assert!(bytes_look_like_raw(b"IIRO rest")); // Olympus ORF
    assert!(bytes_look_like_raw(b"FUJIFILMCCD-RAW")); // Fujifilm RAF
    assert!(bytes_look_like_raw(b"\0\0\0\x18ftypcrx \0\0\0\0")); // Canon CR3

    assert!(!bytes_look_like_raw(b"\0\0\0\x18ftypheic\0\0\0\0")); // HEIC
    assert!(!bytes_look_like_raw(b"\x89PNG\r\n\x1a\n"));
    assert!(!bytes_look_like_raw(b"\xff\xd8\xff\xe0")); // JPEG
    assert!(!bytes_look_like_raw(b""));
}

#[test]
fn tiff_magic_is_raw_candidate_only_with_camera_markers() {
    let mut plain = Vec::new();
    TiffEncoder::new(Cursor::new(&mut plain))
        .write_image(&[1u8, 2, 3], 1, 1, ColorType::Rgb8.into())
        .unwrap();
    assert!(!bytes_look_like_raw(&plain));

    let with_make = encode_rgb8_tiff_with_camera_exif(&[1, 2, 3], "SONY", "ILCE-7M3");
    assert!(bytes_look_like_raw(&with_make));

    let model_only = encode_rgb8_tiff_with_string_tag(Tag::Model, "DCS560C");
    assert!(bytes_look_like_raw(&model_only));

    let leaf = encode_rgb8_tiff_with_string_tag(Tag::Software, "Camera Library");
    assert!(bytes_look_like_raw(&leaf));
    let edited =
        encode_rgb8_tiff_with_string_tag(Tag::Software, "Adobe Photoshop 27.1");
    assert!(!bytes_look_like_raw(&edited));

    // DNGVersion alone marks a DNG even without Make (hand-rolled: one
    // IFD whose only entry is DNGVersion).
    let mut dng = Vec::new();
    dng.extend_from_slice(b"II*\0");
    dng.extend_from_slice(&8u32.to_le_bytes());
    dng.extend_from_slice(&1u16.to_le_bytes());
    append_tiff_entry(&mut dng, 0xC612, 4, 1, &0x0104u32.to_le_bytes());
    dng.extend_from_slice(&0u32.to_le_bytes());
    assert!(bytes_look_like_raw(&dng));

    // Big-endian TIFF whose single IFD entry is Make ("SONY\0" at 26).
    let big_endian_make =
        b"MM\0*\x00\x00\x00\x08\x00\x01\x01\x0F\x00\x02\x00\x00\x00\x05\x00\x00\x00\x1A\x00\x00\x00\x00SONY\0";
    assert!(bytes_look_like_raw(big_endian_make));

    // Parse trouble stays conservative: truncated TIFFs remain RAW
    // candidates and keep the pre-pre-screen routing.
    assert!(bytes_look_like_raw(b"II*\0rest"));
    assert!(bytes_look_like_raw(b"MM\0*rest"));
}

fn encode_rgb8_tiff_with_string_tag(tag: Tag, value: &str) -> Vec<u8> {
    let mut encoded = Cursor::new(Vec::new());
    let mut tiff_encoder = TiffCrateEncoder::new(&mut encoded).unwrap();
    let mut image = tiff_encoder.new_image::<RGB8>(1, 1).unwrap();
    image.encoder().write_tag(tag, value).unwrap();
    image.write_data(&[1u8, 2, 3]).unwrap();
    encoded.into_inner()
}

fn encode_rgb8_tiff_with_camera_exif(pixel: &[u8; 3], make: &str, model: &str) -> Vec<u8> {
    let mut encoded = Cursor::new(Vec::new());
    let mut tiff_encoder = TiffCrateEncoder::new(&mut encoded).unwrap();
    let mut image = tiff_encoder.new_image::<RGB8>(1, 1).unwrap();
    image.encoder().write_tag(Tag::Make, make).unwrap();
    image.encoder().write_tag(Tag::Model, model).unwrap();
    image.write_data(pixel).unwrap();
    encoded.into_inner()
}

fn append_tiff_entry(encoded: &mut Vec<u8>, tag: u16, kind: u16, count: u32, value: &[u8; 4]) {
    encoded.extend_from_slice(&tag.to_le_bytes());
    encoded.extend_from_slice(&kind.to_le_bytes());
    encoded.extend_from_slice(&count.to_le_bytes());
    encoded.extend_from_slice(value);
}

/// A little-endian TIFF with one directory of the given entries, the offset of
/// a next directory, and a tail that begins at `14 + 12 * entries`.
fn small_tiff(entries: &[(u16, u16, u32, [u8; 4])], next: u32, tail: &[u8]) -> Vec<u8> {
    let mut encoded = Vec::new();
    encoded.extend_from_slice(b"II*\0");
    encoded.extend_from_slice(&8u32.to_le_bytes());
    encoded.extend_from_slice(&(entries.len() as u16).to_le_bytes());
    for (tag, kind, count, value) in entries {
        append_tiff_entry(&mut encoded, *tag, *kind, *count, value);
    }
    encoded.extend_from_slice(&next.to_le_bytes());
    encoded.extend_from_slice(tail);
    encoded
}

#[test]
fn every_heif_brand_is_known() {
    for brand in [
        "heic", "heix", "hevc", "hevx", "heim", "heis", "hevm", "hevs", "mif1", "msf1",
    ] {
        let bytes = format!("\0\0\0\x18ftyp{brand}");
        assert!(bytes_look_like_heif(bytes.as_bytes()));
        assert!(!bytes_look_like_raw(bytes.as_bytes()));
    }
    assert!(!bytes_look_like_heif(b"\0\0\0\x18ftypavif"));
    assert!(!bytes_look_like_heif(b"\0\0\0\x18ftyphei"));
}

#[test]
fn extension_is_that_of_the_file_name() {
    assert!(path_extension_is_raw("/photos.jpg/a.b.Nef"));
    assert!(path_extension_is_raw("dir/x.rw2"));
    assert!(!path_extension_is_raw(".dng"));
    assert!(!path_extension_is_raw("/raw.dng/photo"));
    assert!(!path_extension_is_raw("photo.dng.jpg"));
    assert!(!path_extension_is_raw("photo."));
}

#[test]
fn every_raw_beginning_is_known() {
    for beginning in [
        &b"II\x1a\0"[..],
        b"IIU\0",
        b"IIRO",
        b"IIRS",
        b"MMOR",
        b"FUJIFILM",
        b"FOVb",
        b"\0MRM",
    ] {
        assert!(bytes_look_like_raw(beginning));
        assert!(!bytes_look_like_raw(&beginning[..beginning.len() - 1]));
    }
}

#[test]
fn markers_are_found_along_the_chain() {
    // The second directory, at 26, holds a Model.
    let mut second = Vec::new();
    second.extend_from_slice(&1u16.to_le_bytes());
    append_tiff_entry(&mut second, 0x0110, 2, 4, b"abc\0");
    second.extend_from_slice(&0u32.to_le_bytes());
    let chained = small_tiff(&[(0x0100, 4, 1, [1, 0, 0, 0])], 26, &second);
    assert_eq!(tiff_contains_camera_raw_markers(&chained), Some(true));
    let ended = small_tiff(&[(0x0100, 4, 1, [1, 0, 0, 0])], 0, &second);
    assert_eq!(tiff_contains_camera_raw_markers(&ended), Some(false));
    assert!(!bytes_look_like_raw(&ended));
}

#[test]
fn unreadable_tiffs_stay_raw_candidates() {
    // A chain that comes back to its first directory is too long.
    let looped = small_tiff(&[(0x0100, 4, 1, [1, 0, 0, 0])], 8, b"");
    assert_eq!(tiff_contains_camera_raw_markers(&looped), None);
    assert!(bytes_look_like_raw(&looped));
    let empty = small_tiff(&[], 0, b"");
    assert_eq!(tiff_contains_camera_raw_markers(&empty), None);
    let beyond = small_tiff(&[(0x0100, 4, 1, [1, 0, 0, 0])], 1000, b"");
    assert_eq!(tiff_contains_camera_raw_markers(&beyond), None);
    assert_eq!(tiff_contains_camera_raw_markers(b"no TIFF at all"), None);
    let nothing = b"II*\0\0\0\0\0";
    assert_eq!(tiff_contains_camera_raw_markers(nothing), Some(false));
}

#[test]
fn software_marks_a_leaf_back() {
    let leaf = small_tiff(&[(0x0131, 2, 17, [26, 0, 0, 0])], 0, b" Camera Library\0x");
    assert_eq!(tiff_contains_camera_raw_markers(&leaf), Some(true));
    let number = small_tiff(&[(0x0131, 4, 15, [26, 0, 0, 0])], 0, b"Camera Library\0");
    assert_eq!(tiff_contains_camera_raw_markers(&number), Some(false));
    let long = small_tiff(&[(0x0131, 2, 65, [26, 0, 0, 0])], 0, b"Camera Library\0");
    assert_eq!(tiff_contains_camera_raw_markers(&long), Some(false));
    let cut = small_tiff(&[(0x0131, 2, 15, [26, 0, 0, 0])], 0, b"Camera");
    assert_eq!(tiff_contains_camera_raw_markers(&cut), None);
    let inline = small_tiff(&[(0x0131, 2, 4, *b"abc\0")], 0, b"");
    assert_eq!(tiff_contains_camera_raw_markers(&inline), Some(false));
    let invalid = small_tiff(&[(0x0131, 2, 4, [0xff, 0xfe, 0, 0])], 0, b"");
    assert_eq!(tiff_contains_camera_raw_markers(&invalid), Some(false));
}

#[test]
fn file_is_read_whole_only_where_it_is_a_tiff() {
    let unread = || -> Option<Vec<u8>> { panic!("the file is not to be read") };
    assert!(!file_magic_looks_like_raw(None, unread));
    assert!(file_magic_looks_like_raw(Some(b"FUJIFILMCCD-RAW "), unread));
    assert!(!file_magic_looks_like_raw(Some(b"\xff\xd8\xff\xe0"), unread));
    let plain = small_tiff(&[(0x0100, 4, 1, [1, 0, 0, 0])], 0, b"");
    assert!(bytes_have_tiff_magic(&plain));
    assert!(!file_magic_looks_like_raw(Some(&plain[..16]), || Some(plain.clone())));
    assert!(file_magic_looks_like_raw(Some(&plain[..16]), || None));
}

#[test]
fn extension_is_found_behind_every_separator() {
    for path in ["C:photo.NEF", "C:\\pictures\\a.b.cr2", "dir/x:y.dng", "a\\b:c.arw"] {
        assert!(path_extension_is_raw(path), "{path}");
    }
    for path in ["photo.dng\\copy.jpg", "raw.nef:stream.txt", "C:\\a.cr2.tif"] {
        assert!(!path_extension_is_raw(path), "{path}");
    }
}
