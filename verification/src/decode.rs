//! Decodes images from files and from memory.

use std::io::{BufReader, Cursor};

use vstd::prelude::*;
use vstd::string::*;

use crate::error::{is_decode_error, ImageError, ImageResult};
use crate::image_crate::{decode_bytes_with_image_crate, may_decode, ImageAttempt};
use crate::orientation::{checked_orientation, is_oriented, valid_orientation};
use crate::raw_limits::{input_too_large_text, validate_raw_input_size, RAW_MAX_INPUT_BYTES};
use crate::raw_pipeline::{orient, shows_oriented, RawDecodeOutcome};
use crate::sniff::{
    bytes_look_like_heif, bytes_look_like_raw, common_extension, is_raw_extension, looks_like_heif,
    looks_like_raw, path_extension_is_raw, plain_path, raw_file_name,
};
use crate::text::{
    begins_with, contains, decimal, decimal_text, ends_with, lemma_ends_with, matches_at,
};
use crate::tiff_fallback::{ProfiledImage, TiffReading};
use crate::types::DecodedImage;

verus! {

// ---------------------------------------------------------------------------
// Orientation
// ---------------------------------------------------------------------------

/// The first value of the Exif orientation tag of an image.
pub uninterp spec fn exif_orientation_value(image_bytes: Seq<u8>) -> Option<u32>;

/// The first value of the orientation tag, by `exif::Reader` and
/// `exif::Exif::get_field`.
///
/// Trusted: it depends on the bytes.
#[verifier::external_body]
fn exif_orientation(image_bytes: &[u8]) -> (r: Option<u32>)
    ensures
        r == exif_orientation_value(image_bytes@),
{
    let mut reader = BufReader::new(Cursor::new(image_bytes));
    let exif = exif::Reader::new().read_from_container(&mut reader).ok()?;
    let field = exif.get_field(exif::Tag::Orientation, exif::In::PRIMARY)?;
    field.value.get_uint(0)
}

/// The orientation of an image by its Exif data.
pub fn read_exif_orientation_from_bytes(image_bytes: &[u8]) -> (r: Option<u8>)
    ensures
        r == valid_orientation(exif_orientation_value(image_bytes@)),
{
    checked_orientation(exif_orientation(image_bytes))
}

/// `shown` may be `image`, turned the way its file says. The orientation of a
/// HEIF is for `read_heif_orientation` to tell.
pub open spec fn may_orient<H: FnOnce(&[u8]) -> Option<u8>>(
    shown: DecodedImage,
    image: DecodedImage,
    image_bytes: &[u8],
    read_heif_orientation: H,
) -> bool {
    if looks_like_heif(image_bytes@) {
        exists|orientation: Option<u8>| #[trigger]
            read_heif_orientation.ensures((image_bytes,), orientation) && shows_oriented(
                shown,
                image,
                orientation,
            )
    } else {
        shows_oriented(shown, image, valid_orientation(exif_orientation_value(image_bytes@)))
    }
}

/// Turns an image the way its file says.
pub fn orient_decoded_image_from_bytes<H: FnOnce(&[u8]) -> Option<u8>>(
    image: DecodedImage,
    image_bytes: &[u8],
    read_heif_orientation: H,
) -> (shown: DecodedImage)
    requires
        image.well_formed(),
        read_heif_orientation.requires((image_bytes,)),
    ensures
        may_orient(shown, image, image_bytes, read_heif_orientation),
        shown.well_formed(),
{
    if bytes_look_like_heif(image_bytes) {
        let orientation = read_heif_orientation(image_bytes);
        assert(read_heif_orientation.ensures((image_bytes,), orientation));
        return orient(image, orientation);
    }
    orient(image, read_exif_orientation_from_bytes(image_bytes))
}

/// Turns an image the way its file says. The orientation of a HEIF is for
/// `read_heif_orientation` to tell, and that of any other file for
/// `read_exif_orientation`.
pub fn orient_decoded_image<H: FnOnce() -> Option<u8>, E: FnOnce() -> Option<u32>>(
    image: DecodedImage,
    is_heif: bool,
    read_heif_orientation: H,
    read_exif_orientation: E,
) -> (shown: DecodedImage)
    requires
        image.well_formed(),
        read_heif_orientation.requires(()),
        read_exif_orientation.requires(()),
    ensures
        is_heif ==> exists|orientation: Option<u8>| #[trigger]
            read_heif_orientation.ensures((), orientation) && shows_oriented(
                shown,
                image,
                orientation,
            ),
        !is_heif ==> exists|value: Option<u32>| #[trigger]
            read_exif_orientation.ensures((), value) && shows_oriented(
                shown,
                image,
                valid_orientation(value),
            ),
        shown.well_formed(),
{
    if is_heif {
        let orientation = read_heif_orientation();
        assert(read_heif_orientation.ensures((), orientation));
        orient(image, orientation)
    } else {
        let value: Option<u32> = read_exif_orientation();
        assert(read_exif_orientation.ensures((), value));
        orient(image, checked_orientation(value))
    }
}

// ---------------------------------------------------------------------------
// What a RAW attempt leads to
// ---------------------------------------------------------------------------

/// Where a RAW attempt leads.
pub enum AfterRaw {
    /// It settles the matter.
    Settled(ImageResult<DecodedImage>),
    /// Another decoder is tried. The text says why this one failed.
    Failed(Seq<char>),
}

/// Where a RAW attempt leads: an image is shown, a rejection and a decode error
/// let another decoder try, and any other error is final.
pub open spec fn after_raw(raw: ImageResult<RawDecodeOutcome>) -> AfterRaw {
    match raw {
        Ok(RawDecodeOutcome::Decoded(image)) => AfterRaw::Settled(Ok(image)),
        Ok(RawDecodeOutcome::ProbeRejected(text)) => AfterRaw::Failed(text@),
        Err(ImageError::Decode(text)) => AfterRaw::Failed(text@),
        Err(error) => AfterRaw::Settled(Err(error)),
    }
}

enum RawStep {
    Settled(ImageResult<DecodedImage>),
    Failed(String),
}

fn step_after_raw(raw: ImageResult<RawDecodeOutcome>) -> (r: RawStep)
    ensures
        match r {
            RawStep::Settled(result) => after_raw(raw) == AfterRaw::Settled(result),
            RawStep::Failed(text) => after_raw(raw) == AfterRaw::Failed(text@),
        },
{
    match raw {
        Ok(RawDecodeOutcome::Decoded(image)) => RawStep::Settled(Ok(image)),
        Ok(RawDecodeOutcome::ProbeRejected(text)) => RawStep::Failed(text),
        Err(ImageError::Decode(text)) => RawStep::Failed(text),
        Err(error) => RawStep::Settled(Err(error)),
    }
}

pub open spec fn skipped_text(input_bytes: nat) -> Seq<char> {
    "RAW decode skipped: "@ + decimal(input_bytes) + " bytes exceeds "@ + decimal(
        RAW_MAX_INPUT_BYTES as nat,
    ) + " bytes"@
}

fn skipped_message(input_bytes: u64) -> (text: String)
    ensures
        text@ == skipped_text(input_bytes as nat),
{
    let mut text = "RAW decode skipped: ".to_owned();
    text.append(decimal_text(input_bytes as u128).as_str());
    text.append(" bytes exceeds ");
    text.append(decimal_text(RAW_MAX_INPUT_BYTES as u128).as_str());
    text.append(" bytes");
    text
}

pub open spec fn fallback_failed_text(raw_failure: Seq<char>, fallback: Seq<char>) -> Seq<char> {
    raw_failure + "; image crate fallback also failed: "@ + fallback
}

/// What the general decoder comes to behind a failed RAW attempt.
pub open spec fn fallback_settles(
    raw_failure: Seq<char>,
    fallback: ImageResult<DecodedImage>,
    r: ImageResult<DecodedImage>,
) -> bool {
    match fallback {
        Err(ImageError::Decode(text)) => is_decode_error(
            r,
            fallback_failed_text(raw_failure, text@),
        ),
        _ => r == fallback,
    }
}

/// What the general decoder comes to behind a failed RAW attempt: its decode
/// error is told beside that of the RAW decoder.
pub fn settle_image_fallback(raw_failure: &str, fallback: ImageResult<DecodedImage>) -> (r:
    ImageResult<DecodedImage>)
    ensures
        fallback_settles(raw_failure@, fallback, r),
{
    match fallback {
        Ok(image) => Ok(image),
        Err(ImageError::Decode(text)) => {
            let mut message = raw_failure.to_owned();
            message.append("; image crate fallback also failed: ");
            message.append(text.as_str());
            Err(ImageError::Decode(message))
        },
        Err(error) => Err(error),
    }
}

pub open spec fn both_failed_text(primary: Seq<char>, raw_failure: Seq<char>) -> Seq<char> {
    "failed to decode image with image crate: "@ + primary + "; RAW fallback also failed: "@
        + raw_failure
}

/// What a RAW attempt comes to behind a failure of the general decoder.
pub open spec fn raw_fallback_settles(
    primary: ImageError,
    raw: ImageResult<RawDecodeOutcome>,
    r: ImageResult<DecodedImage>,
) -> bool {
    match after_raw(raw) {
        AfterRaw::Settled(result) => r == result,
        AfterRaw::Failed(text) => is_decode_error(r, both_failed_text(primary.text(), text)),
    }
}

/// What a RAW attempt comes to behind a failure of the general decoder: where
/// it fails too, both are told.
pub fn settle_raw_fallback(primary: ImageError, raw: ImageResult<RawDecodeOutcome>) -> (r:
    ImageResult<DecodedImage>)
    ensures
        raw_fallback_settles(primary, raw, r),
{
    match step_after_raw(raw) {
        RawStep::Settled(result) => result,
        RawStep::Failed(text) => {
            let mut message = "failed to decode image with image crate: ".to_owned();
            message.append(primary.message().as_str());
            message.append("; RAW fallback also failed: ");
            message.append(text.as_str());
            Err(ImageError::Decode(message))
        },
    }
}

pub open spec fn refused_text(image_path: Seq<char>, probe: Seq<char>) -> Seq<char> {
    "'"@ + image_path
        + "' looks like a camera RAW but no RAW decoder matched (camera model not supported by rawler?), refusing thumbnail fallback: "@
        + probe
}

/// What a RAW attempt comes to for a file that is certainly a RAW.
pub open spec fn committed_settles(
    image_path: Seq<char>,
    raw: ImageResult<RawDecodeOutcome>,
    r: ImageResult<DecodedImage>,
) -> bool {
    match raw {
        Ok(RawDecodeOutcome::Decoded(image)) => r == Ok::<DecodedImage, ImageError>(image),
        Ok(RawDecodeOutcome::ProbeRejected(text)) => is_decode_error(
            r,
            refused_text(image_path, text@),
        ),
        Err(error) => r == Err::<DecodedImage, ImageError>(error),
    }
}

/// What a RAW attempt comes to for a file that is certainly a RAW: no other
/// decoder is tried, for it could show a mere thumbnail.
pub fn settle_committed_raw(image_path: &str, raw: ImageResult<RawDecodeOutcome>) -> (r:
    ImageResult<DecodedImage>)
    ensures
        committed_settles(image_path@, raw, r),
{
    match raw {
        Ok(RawDecodeOutcome::Decoded(image)) => Ok(image),
        Ok(RawDecodeOutcome::ProbeRejected(text)) => {
            let mut message = "'".to_owned();
            message.append(image_path);
            message.append(
                "' looks like a camera RAW but no RAW decoder matched (camera model not supported by rawler?), refusing thumbnail fallback: ",
            );
            message.append(text.as_str());
            Err(ImageError::Decode(message))
        },
        Err(error) => Err(error),
    }
}

// ---------------------------------------------------------------------------
// From memory
// ---------------------------------------------------------------------------

/// The RAW decoder is given an input of this length.
pub open spec fn fits_raw_decoder(input_bytes: int) -> bool {
    input_bytes <= RAW_MAX_INPUT_BYTES
}

/// How an image in memory is decoded. `raw_first` tells whether it looks like a
/// RAW, `image` is what the general decoder makes of it, and `raw` what the RAW
/// decoder makes of it.
pub open spec fn bytes_settle(
    raw_first: bool,
    input_bytes: nat,
    image: ImageResult<DecodedImage>,
    raw: ImageResult<RawDecodeOutcome>,
    r: ImageResult<DecodedImage>,
) -> bool {
    if raw_first {
        if !fits_raw_decoder(input_bytes as int) {
            fallback_settles(skipped_text(input_bytes), image, r)
        } else {
            match after_raw(raw) {
                AfterRaw::Settled(result) => r == result,
                AfterRaw::Failed(text) => fallback_settles(text, image, r),
            }
        }
    } else {
        match image {
            Ok(shown) => r == image,
            Err(primary) => if fits_raw_decoder(input_bytes as int) {
                raw_fallback_settles(primary, raw, r)
            } else {
                r == image
            },
        }
    }
}

/// The RAW decoder is asked.
pub open spec fn bytes_ask_raw(
    raw_first: bool,
    input_bytes: int,
    image: ImageResult<DecodedImage>,
) -> bool {
    fits_raw_decoder(input_bytes) && (raw_first || image is Err)
}

/// The general decoder is asked.
pub open spec fn bytes_ask_image(
    raw_first: bool,
    input_bytes: int,
    raw: ImageResult<RawDecodeOutcome>,
) -> bool {
    !raw_first || !fits_raw_decoder(input_bytes) || after_raw(raw) is Failed
}

/// `image` may be what the general decoder makes of an image, turned the way
/// its file says.
pub open spec fn may_decode_oriented<
    A: FnOnce(&[u8]) -> ImageAttempt,
    T: FnOnce(&[u8]) -> TiffReading,
    H: FnOnce(&[u8]) -> Option<u8>,
>(
    image_bytes: &[u8],
    decode_general: A,
    read_tiff: T,
    read_heif_orientation: H,
    image: ImageResult<DecodedImage>,
) -> bool {
    exists|decoded: ImageResult<DecodedImage>| #[trigger]
        may_decode(image_bytes, decode_general, read_tiff, decoded) && match decoded {
            Ok(plain) => image matches Ok(shown) && may_orient(
                shown,
                plain,
                image_bytes,
                read_heif_orientation,
            ),
            Err(_) => image == decoded,
        }
}

fn decode_oriented<
    A: FnOnce(&[u8]) -> ImageAttempt,
    T: FnOnce(&[u8]) -> TiffReading,
    H: FnOnce(&[u8]) -> Option<u8>,
>(image_bytes: &[u8], decode_general: A, read_tiff: T, read_heif_orientation: H) -> (image:
    ImageResult<DecodedImage>)
    requires
        decode_general.requires((image_bytes,)),
        forall|decoded: ProfiledImage| #[trigger]
            decode_general.ensures((image_bytes,), Ok::<ProfiledImage, String>(decoded))
                ==> decoded.image.well_formed(),
        read_tiff.requires((image_bytes,)),
        read_heif_orientation.requires((image_bytes,)),
    ensures
        may_decode_oriented(image_bytes, decode_general, read_tiff, read_heif_orientation, image),
        image matches Ok(shown) ==> shown.well_formed(),
{
    let decoded = decode_bytes_with_image_crate(image_bytes, decode_general, read_tiff);
    let ghost plain = decoded;
    assert(may_decode(image_bytes, decode_general, read_tiff, plain));
    match decoded {
        Ok(image) => Ok(orient_decoded_image_from_bytes(image, image_bytes, read_heif_orientation)),
        Err(error) => Err(error),
    }
}

/// Decodes an image in memory and turns it the way its file says.
///
/// Bytes carry no file name, so that only what they begin with says whether
/// they are a RAW. An image that looks like a RAW is given to the RAW decoder,
/// and to the general decoder where that fails. Any other image is given to the
/// general decoder, and to the RAW decoder where that fails. Input beyond the
/// limit is never given to the RAW decoder, which would copy it.
///
/// `decode_raw` is the RAW decoder, `decode_general` the general decoder,
/// `read_tiff` its fallback for a TIFF, and `read_heif_orientation` tells the
/// orientation of a HEIF.
pub fn decode_image_from_bytes<
    R: FnOnce(&[u8]) -> ImageResult<RawDecodeOutcome>,
    A: FnOnce(&[u8]) -> ImageAttempt,
    T: FnOnce(&[u8]) -> TiffReading,
    H: FnOnce(&[u8]) -> Option<u8>,
>(
    image_bytes: &[u8],
    decode_raw: R,
    decode_general: A,
    read_tiff: T,
    read_heif_orientation: H,
) -> (r: ImageResult<DecodedImage>)
    requires
        decode_raw.requires((image_bytes,)),
        forall|image: DecodedImage| #[trigger]
            decode_raw.ensures(
                (image_bytes,),
                Ok::<RawDecodeOutcome, ImageError>(RawDecodeOutcome::Decoded(image)),
            ) ==> image.well_formed(),
        decode_general.requires((image_bytes,)),
        forall|decoded: ProfiledImage| #[trigger]
            decode_general.ensures((image_bytes,), Ok::<ProfiledImage, String>(decoded))
                ==> decoded.image.well_formed(),
        read_tiff.requires((image_bytes,)),
        read_heif_orientation.requires((image_bytes,)),
    ensures
        exists|image: ImageResult<DecodedImage>, raw: ImageResult<RawDecodeOutcome>|
            {
                let raw_first = looks_like_raw(image_bytes@);
                let length = image_bytes@.len() as int;
                &&& bytes_ask_image(raw_first, length, raw) ==> may_decode_oriented(
                    image_bytes,
                    decode_general,
                    read_tiff,
                    read_heif_orientation,
                    image,
                )
                &&& bytes_ask_raw(raw_first, length, image) ==> decode_raw.ensures(
                    (image_bytes,),
                    raw,
                )
                &&& #[trigger] bytes_settle(
                    looks_like_raw(image_bytes@),
                    image_bytes@.len(),
                    image,
                    raw,
                    r,
                )
            },
        r matches Ok(shown) ==> shown.well_formed(),
{
    let fits = image_bytes.len() as u64 <= RAW_MAX_INPUT_BYTES;
    if bytes_look_like_raw(image_bytes) {
        let ghost mut tried: ImageResult<RawDecodeOutcome> = arbitrary();
        let raw_failure = if fits {
            let raw = decode_raw(image_bytes);
            proof {
                tried = raw;
            }
            match step_after_raw(raw) {
                RawStep::Settled(result) => {
                    let ghost none: ImageResult<DecodedImage> = arbitrary();
                    assert(bytes_settle(true, image_bytes@.len(), none, tried, result));
                    return result;
                },
                RawStep::Failed(text) => text,
            }
        } else {
            skipped_message(image_bytes.len() as u64)
        };
        let image = decode_oriented(image_bytes, decode_general, read_tiff, read_heif_orientation);
        let ghost shown = image;
        let r = settle_image_fallback(raw_failure.as_str(), image);
        assert(bytes_settle(true, image_bytes@.len(), shown, tried, r));
        return r;
    }
    let image = decode_oriented(image_bytes, decode_general, read_tiff, read_heif_orientation);
    let ghost shown = image;
    match image {
        Ok(image) => {
            let ghost none: ImageResult<RawDecodeOutcome> = arbitrary();
            let r = Ok(image);
            assert(bytes_settle(false, image_bytes@.len(), shown, none, r));
            r
        },
        Err(primary) => {
            if !fits {
                let ghost none: ImageResult<RawDecodeOutcome> = arbitrary();
                let r = Err(primary);
                assert(bytes_settle(false, image_bytes@.len(), shown, none, r));
                return r;
            }
            let raw = decode_raw(image_bytes);
            let ghost tried = raw;
            let r = settle_raw_fallback(primary, raw);
            assert(bytes_settle(false, image_bytes@.len(), shown, tried, r));
            r
        },
    }
}

// ---------------------------------------------------------------------------
// From a file
// ---------------------------------------------------------------------------

/// How a file is decoded. `extension_is_raw` and `magic_is_raw` tell whether
/// its name and its first bytes say that it is a RAW, `image` is what the
/// general decoder makes of it, and `raw` what the RAW decoder makes of it.
pub open spec fn file_settles(
    image_path: Seq<char>,
    extension_is_raw: bool,
    magic_is_raw: bool,
    input_bytes: nat,
    image: ImageResult<DecodedImage>,
    raw: ImageResult<RawDecodeOutcome>,
    r: ImageResult<DecodedImage>,
) -> bool {
    if extension_is_raw && magic_is_raw {
        if fits_raw_decoder(input_bytes as int) {
            committed_settles(image_path, raw, r)
        } else {
            is_decode_error(r, input_too_large_text(image_path, input_bytes))
        }
    } else if extension_is_raw || magic_is_raw {
        if fits_raw_decoder(input_bytes as int) {
            match after_raw(raw) {
                AfterRaw::Settled(result) => r == result,
                AfterRaw::Failed(text) => fallback_settles(text, image, r),
            }
        } else {
            fallback_settles(skipped_text(input_bytes), image, r)
        }
    } else {
        r == image
    }
}

/// The RAW decoder is asked.
pub open spec fn file_asks_raw(
    extension_is_raw: bool,
    magic_is_raw: bool,
    input_bytes: int,
) -> bool {
    (extension_is_raw || magic_is_raw) && fits_raw_decoder(input_bytes)
}

/// The general decoder is asked.
pub open spec fn file_asks_image(
    extension_is_raw: bool,
    magic_is_raw: bool,
    input_bytes: int,
    raw: ImageResult<RawDecodeOutcome>,
) -> bool {
    &&& !(extension_is_raw && magic_is_raw)
    &&& file_asks_raw(extension_is_raw, magic_is_raw, input_bytes) ==> after_raw(raw) is Failed
}

/// `r` may be what comes of a file, given what the two decoders may make of it.
pub open spec fn file_may_settle<
    R: FnOnce() -> ImageResult<RawDecodeOutcome>,
    I: FnOnce() -> ImageResult<DecodedImage>,
>(
    image_path: Seq<char>,
    extension_is_raw: bool,
    magic_is_raw: bool,
    input_bytes: nat,
    decode_raw: R,
    decode_image: I,
    r: ImageResult<DecodedImage>,
) -> bool {
    exists|image: ImageResult<DecodedImage>, raw: ImageResult<RawDecodeOutcome>|
        {
            &&& file_asks_image(extension_is_raw, magic_is_raw, input_bytes as int, raw)
                ==> decode_image.ensures((), image)
            &&& file_asks_raw(extension_is_raw, magic_is_raw, input_bytes as int)
                ==> decode_raw.ensures((), raw)
            &&& #[trigger] file_settles(
                image_path,
                extension_is_raw,
                magic_is_raw,
                input_bytes,
                image,
                raw,
                r,
            )
        }
}

/// Decodes a file whose name and first bytes were looked at.
///
/// Where both say that it is a RAW, it is given to the RAW decoder alone. Where
/// one of them does, as for an exported TIFF that kept the camera's tags or for
/// a misnamed file, it is given to the RAW decoder, and to the general decoder
/// where that fails.
///
/// `decode_raw` is the RAW decoder, and `decode_image` the general decoder.
pub fn decode_classified_file<
    R: FnOnce() -> ImageResult<RawDecodeOutcome>,
    I: FnOnce() -> ImageResult<DecodedImage>,
>(
    image_path: &str,
    extension_is_raw: bool,
    magic_is_raw: bool,
    input_bytes: u64,
    decode_raw: R,
    decode_image: I,
) -> (r: ImageResult<DecodedImage>)
    requires
        decode_raw.requires(()),
        forall|image: DecodedImage| #[trigger]
            decode_raw.ensures(
                (),
                Ok::<RawDecodeOutcome, ImageError>(RawDecodeOutcome::Decoded(image)),
            ) ==> image.well_formed(),
        decode_image.requires(()),
        forall|image: DecodedImage| #[trigger]
            decode_image.ensures((), Ok::<DecodedImage, ImageError>(image)) ==> image.well_formed(),
    ensures
        r matches Ok(shown) ==> shown.well_formed(),
        file_may_settle(
            image_path@,
            extension_is_raw,
            magic_is_raw,
            input_bytes as nat,
            decode_raw,
            decode_image,
            r,
        ),
{
    let ghost mut tried: ImageResult<RawDecodeOutcome> = arbitrary();
    let ghost mut shown: ImageResult<DecodedImage> = arbitrary();
    let r = if !extension_is_raw && !magic_is_raw {
        let image = decode_image();
        proof {
            shown = image;
        }
        image
    } else if extension_is_raw && magic_is_raw {
        match validate_raw_input_size(input_bytes, image_path) {
            Err(error) => Err(error),
            Ok(()) => {
                let raw = decode_raw();
                proof {
                    tried = raw;
                }
                settle_committed_raw(image_path, raw)
            },
        }
    } else {
        let step = if input_bytes <= RAW_MAX_INPUT_BYTES {
            let raw = decode_raw();
            proof {
                tried = raw;
            }
            step_after_raw(raw)
        } else {
            RawStep::Failed(skipped_message(input_bytes))
        };
        match step {
            RawStep::Settled(result) => result,
            RawStep::Failed(raw_failure) => {
                let image = decode_image();
                proof {
                    shown = image;
                }
                settle_image_fallback(raw_failure.as_str(), image)
            },
        }
    };
    assert(file_settles(
        image_path@,
        extension_is_raw,
        magic_is_raw,
        input_bytes as nat,
        shown,
        tried,
        r,
    ));
    r
}

/// Decodes a file.
///
/// `magic_is_raw` tells whether its first bytes say that it is a RAW, and
/// `input_bytes` is its length. `decode_raw` is the RAW decoder, and
/// `decode_image` the general decoder, which turns the image the way the file
/// says.
pub fn decode_image_from_path<
    R: FnOnce() -> ImageResult<RawDecodeOutcome>,
    I: FnOnce() -> ImageResult<DecodedImage>,
>(
    image_path: &str,
    magic_is_raw: bool,
    input_bytes: u64,
    decode_raw: R,
    decode_image: I,
) -> (r: ImageResult<DecodedImage>)
    requires
        decode_raw.requires(()),
        forall|image: DecodedImage| #[trigger]
            decode_raw.ensures(
                (),
                Ok::<RawDecodeOutcome, ImageError>(RawDecodeOutcome::Decoded(image)),
            ) ==> image.well_formed(),
        decode_image.requires(()),
        forall|image: DecodedImage| #[trigger]
            decode_image.ensures((), Ok::<DecodedImage, ImageError>(image)) ==> image.well_formed(),
    ensures
        r matches Ok(shown) ==> shown.well_formed(),
        exists|extension_is_raw: bool|
            {
                &&& plain_path(image_path@) ==> extension_is_raw == raw_file_name(image_path@)
                &&& common_extension(image_path@) matches Some(extension) ==> extension_is_raw
                    == is_raw_extension(extension)
                &&& #[trigger] file_may_settle(
                    image_path@,
                    extension_is_raw,
                    magic_is_raw,
                    input_bytes as nat,
                    decode_raw,
                    decode_image,
                    r,
                )
            },
{
    let extension_is_raw = path_extension_is_raw(image_path);
    decode_classified_file(
        image_path,
        extension_is_raw,
        magic_is_raw,
        input_bytes,
        decode_raw,
        decode_image,
    )
}

// ---------------------------------------------------------------------------
// Laws
// ---------------------------------------------------------------------------

/// A file whose name and first bytes say that it is a RAW is never shown by the
/// general decoder: an image comes from the RAW decoder, and whatever the
/// general decoder would make of the file changes nothing.
pub proof fn law_committed_raw_never_falls_back(
    image_path: Seq<char>,
    input_bytes: nat,
    image: ImageResult<DecodedImage>,
    other: ImageResult<DecodedImage>,
    raw: ImageResult<RawDecodeOutcome>,
    r: ImageResult<DecodedImage>,
)
    requires
        file_settles(image_path, true, true, input_bytes, image, raw, r),
    ensures
        file_settles(image_path, true, true, input_bytes, other, raw, r),
        r matches Ok(shown) ==> raw == Ok::<RawDecodeOutcome, ImageError>(
            RawDecodeOutcome::Decoded(shown),
        ),
{
}

/// A file of which only the name or only the first bytes say that it is a RAW is
/// shown whenever the general decoder can show it, unless the RAW decoder
/// settles the matter.
pub proof fn law_single_signal_falls_back(
    image_path: Seq<char>,
    extension_is_raw: bool,
    input_bytes: nat,
    image: ImageResult<DecodedImage>,
    raw: ImageResult<RawDecodeOutcome>,
    r: ImageResult<DecodedImage>,
)
    requires
        file_settles(
            image_path,
            extension_is_raw,
            !extension_is_raw,
            input_bytes,
            image,
            raw,
            r,
        ),
        image is Ok,
        !fits_raw_decoder(input_bytes as int) || after_raw(raw) is Failed,
    ensures
        r == image,
{
}

/// An image in memory is shown whenever the general decoder can show it, unless
/// it looks like a RAW and the RAW decoder settles the matter.
pub proof fn law_bytes_fall_back(
    raw_first: bool,
    input_bytes: nat,
    image: ImageResult<DecodedImage>,
    raw: ImageResult<RawDecodeOutcome>,
    r: ImageResult<DecodedImage>,
)
    requires
        bytes_settle(raw_first, input_bytes, image, raw, r),
        image is Ok,
        raw_first && fits_raw_decoder(input_bytes as int) ==> after_raw(raw) is Failed,
    ensures
        r == image,
{
}

/// Whatever the RAW decoder would make of input beyond its limit changes
/// nothing.
pub proof fn law_oversized_input_skips_raw(
    image_path: Seq<char>,
    extension_is_raw: bool,
    magic_is_raw: bool,
    input_bytes: nat,
    image: ImageResult<DecodedImage>,
    raw: ImageResult<RawDecodeOutcome>,
    other: ImageResult<RawDecodeOutcome>,
    r: ImageResult<DecodedImage>,
)
    requires
        input_bytes > RAW_MAX_INPUT_BYTES,
    ensures
        file_settles(image_path, extension_is_raw, magic_is_raw, input_bytes, image, raw, r)
            == file_settles(
            image_path,
            extension_is_raw,
            magic_is_raw,
            input_bytes,
            image,
            other,
            r,
        ),
        bytes_settle(magic_is_raw, input_bytes, image, raw, r) == bytes_settle(
            magic_is_raw,
            input_bytes,
            image,
            other,
            r,
        ),
        !file_asks_raw(extension_is_raw, magic_is_raw, input_bytes as int),
        !bytes_ask_raw(magic_is_raw, input_bytes as int, image),
{
}

/// An image in memory that the general decoder cannot show is shown if the RAW
/// decoder can show it, unless it is beyond that decoder's limit.
pub proof fn law_bytes_try_raw_last(
    input_bytes: nat,
    image: ImageResult<DecodedImage>,
    raw: ImageResult<RawDecodeOutcome>,
    r: ImageResult<DecodedImage>,
)
    requires
        bytes_settle(false, input_bytes, image, raw, r),
        image is Err,
        fits_raw_decoder(input_bytes as int),
    ensures
        bytes_ask_raw(false, input_bytes as int, image),
        raw matches Ok(RawDecodeOutcome::Decoded(shown)) ==> r == Ok::<DecodedImage, ImageError>(
            shown,
        ),
        after_raw(raw) is Failed ==> r is Err,
{
}

/// An image that the RAW decoder makes is shown wherever that decoder is asked
/// first, whatever the general decoder would make of the input.
pub proof fn law_raw_image_is_shown(
    image_path: Seq<char>,
    extension_is_raw: bool,
    magic_is_raw: bool,
    input_bytes: nat,
    shown: DecodedImage,
    image: ImageResult<DecodedImage>,
    from_bytes: ImageResult<DecodedImage>,
    from_file: ImageResult<DecodedImage>,
)
    requires
        input_bytes <= 268_435_456,
        extension_is_raw || magic_is_raw,
        bytes_settle(
            true,
            input_bytes,
            image,
            Ok(RawDecodeOutcome::Decoded(shown)),
            from_bytes,
        ),
        file_settles(
            image_path,
            extension_is_raw,
            magic_is_raw,
            input_bytes,
            image,
            Ok(RawDecodeOutcome::Decoded(shown)),
            from_file,
        ),
    ensures
        from_bytes == Ok::<DecodedImage, ImageError>(shown),
        from_file == Ok::<DecodedImage, ImageError>(shown),
        file_asks_raw(extension_is_raw, magic_is_raw, input_bytes as int),
        bytes_ask_raw(true, input_bytes as int, image),
{
}

/// A file that nothing marks as a RAW is left to the general decoder, whatever
/// its length and whatever the RAW decoder would make of it.
pub proof fn law_plain_file_is_for_the_general_decoder(
    image_path: Seq<char>,
    input_bytes: nat,
    image: ImageResult<DecodedImage>,
    raw: ImageResult<RawDecodeOutcome>,
    r: ImageResult<DecodedImage>,
)
    requires
        file_settles(image_path, false, false, input_bytes, image, raw, r),
    ensures
        r == image,
        !file_asks_raw(false, false, input_bytes as int),
        file_asks_image(false, false, input_bytes as int, raw),
{
}

/// An error of the RAW decoder that is not about the input is final: no other
/// decoder is asked behind it.
pub proof fn law_other_errors_are_final(
    image_path: Seq<char>,
    extension_is_raw: bool,
    magic_is_raw: bool,
    input_bytes: nat,
    text: String,
    image: ImageResult<DecodedImage>,
    from_bytes: ImageResult<DecodedImage>,
    from_file: ImageResult<DecodedImage>,
)
    requires
        input_bytes <= 268_435_456,
        extension_is_raw || magic_is_raw,
        bytes_settle(true, input_bytes, image, Err(ImageError::Other(text)), from_bytes),
        file_settles(
            image_path,
            extension_is_raw,
            magic_is_raw,
            input_bytes,
            image,
            Err(ImageError::Other(text)),
            from_file,
        ),
    ensures
        from_bytes == Err::<DecodedImage, ImageError>(ImageError::Other(text)),
        from_file == Err::<DecodedImage, ImageError>(ImageError::Other(text)),
        !bytes_ask_image(true, input_bytes as int, Err(ImageError::Other(text))),
{
}

/// Where both decoders fail on the input, both failures are told: that of the
/// decoder that was asked first stands in front.
pub proof fn law_both_failures_are_told(
    raw: ImageResult<RawDecodeOutcome>,
    raw_failure: Seq<char>,
    image_failure: String,
    raw_first: bool,
    input_bytes: nat,
    r: ImageResult<DecodedImage>,
)
    requires
        input_bytes <= 268_435_456,
        match raw {
            Ok(RawDecodeOutcome::ProbeRejected(text)) => text@ == raw_failure,
            Err(ImageError::Decode(text)) => text@ == raw_failure,
            _ => false,
        },
        bytes_settle(
            raw_first,
            input_bytes,
            Err(ImageError::Decode(image_failure)),
            raw,
            r,
        ),
    ensures
        r matches Err(ImageError::Decode(message)) && {
            &&& contains(message@, raw_failure)
            &&& contains(message@, image_failure@)
            &&& raw_first ==> begins_with(message@, raw_failure) && ends_with(
                message@,
                image_failure@,
            )
            &&& !raw_first ==> ends_with(message@, raw_failure)
        },
{
    if raw_first {
        let middle = "; image crate fallback also failed: "@;
        lemma_ends_with(raw_failure + middle, image_failure@);
        lemma_begins(raw_failure, middle, image_failure@);
    } else {
        let head = "failed to decode image with image crate: "@;
        let middle = "; RAW fallback also failed: "@;
        let text = both_failed_text(image_failure@, raw_failure);
        lemma_ends_with(head + image_failure@ + middle, raw_failure);
        assert(text.subrange(head.len() as int, (head.len() + image_failure@.len()) as int)
            =~= image_failure@);
        assert(matches_at(text, image_failure@, head.len() as int));
        let at = (head + image_failure@ + middle).len() as int;
        assert(text.subrange(at, at + raw_failure.len()) =~= raw_failure);
        assert(matches_at(text, raw_failure, at));
    }
}

proof fn lemma_begins(first: Seq<char>, middle: Seq<char>, last: Seq<char>)
    ensures
        begins_with(first + middle + last, first),
        contains(first + middle + last, first),
        contains(first + middle + last, last),
{
    let text = first + middle + last;
    assert(text.take(first.len() as int) =~= first);
    assert(text.subrange(0, first.len() as int) =~= first);
    assert(matches_at(text, first, 0));
    let at = (first + middle).len() as int;
    assert(text.subrange(at, at + last.len()) =~= last);
    assert(matches_at(text, last, at));
}

/// A file that is certainly a RAW, but that no RAW decoder knows, is an error
/// that names the file and says what the decoder said.
pub proof fn law_unknown_raw_is_told(
    image_path: Seq<char>,
    input_bytes: nat,
    probe: String,
    image: ImageResult<DecodedImage>,
    r: ImageResult<DecodedImage>,
)
    requires
        input_bytes <= 268_435_456,
        file_settles(
            image_path,
            true,
            true,
            input_bytes,
            image,
            Ok(RawDecodeOutcome::ProbeRejected(probe)),
            r,
        ),
    ensures
        r matches Err(ImageError::Decode(message)) && begins_with(
            message@,
            seq!['\''] + image_path + seq!['\''],
        ) && ends_with(message@, probe@),
{
    let middle =
        "' looks like a camera RAW but no RAW decoder matched (camera model not supported by rawler?), refusing thumbnail fallback: "@;
    let text = refused_text(image_path, probe@);
    reveal_strlit("'");
    reveal_strlit(
        "' looks like a camera RAW but no RAW decoder matched (camera model not supported by rawler?), refusing thumbnail fallback: ",
    );
    lemma_ends_with("'"@ + image_path + middle, probe@);
    assert(text.take(image_path.len() + 2int) =~= seq!['\''] + image_path + seq!['\'']);
}

/// An image that is no HEIF is shown the way its Exif data say: behind the
/// orientation that they give, if it is one of 1 to 8, and else as it is. The
/// other reader is not asked.
pub proof fn law_exif_turns_what_is_no_heif<H: FnOnce(&[u8]) -> Option<u8>>(
    shown: DecodedImage,
    image: DecodedImage,
    image_bytes: &[u8],
    read_heif_orientation: H,
)
    requires
        !looks_like_heif(image_bytes@),
        may_orient(shown, image, image_bytes, read_heif_orientation),
    ensures
        match exif_orientation_value(image_bytes@) {
            Some(n) => if 1 <= n <= 8 {
                is_oriented(shown, image, n as u8)
            } else {
                shown == image
            },
            None => shown == image,
        },
{
}

/// A HEIF is shown the way its own reader says, and as it is where that says
/// nothing, whatever its Exif data say.
pub proof fn law_heif_is_turned_by_its_own_reader<H: FnOnce(&[u8]) -> Option<u8>>(
    shown: DecodedImage,
    image: DecodedImage,
    image_bytes: &[u8],
    read_heif_orientation: H,
)
    requires
        looks_like_heif(image_bytes@),
        may_orient(shown, image, image_bytes, read_heif_orientation),
    ensures
        exists|orientation: Option<u8>|
            {
                &&& #[trigger] read_heif_orientation.ensures((image_bytes,), orientation)
                &&& orientation is None ==> shown == image
                &&& orientation matches Some(n) ==> is_oriented(shown, image, n)
            },
{
}

/// An image from the general decoder is shown turned, and a failure of it is told
/// as it is.
pub proof fn law_general_image_is_turned<
    A: FnOnce(&[u8]) -> ImageAttempt,
    T: FnOnce(&[u8]) -> TiffReading,
    H: FnOnce(&[u8]) -> Option<u8>,
>(
    image_bytes: &[u8],
    decode_general: A,
    read_tiff: T,
    read_heif_orientation: H,
    image: ImageResult<DecodedImage>,
)
    requires
        may_decode_oriented(image_bytes, decode_general, read_tiff, read_heif_orientation, image),
    ensures
        image matches Ok(shown) ==> exists|plain: DecodedImage| #[trigger]
            may_orient(shown, plain, image_bytes, read_heif_orientation) && may_decode(
                image_bytes,
                decode_general,
                read_tiff,
                Ok(plain),
            ),
        image is Err ==> may_decode(image_bytes, decode_general, read_tiff, image),
{
    let decoded = choose|decoded: ImageResult<DecodedImage>| #[trigger]
        may_decode(image_bytes, decode_general, read_tiff, decoded) && match decoded {
            Ok(plain) => image matches Ok(shown) && may_orient(
                shown,
                plain,
                image_bytes,
                read_heif_orientation,
            ),
            Err(_) => image == decoded,
        };
    if let Ok(shown) = image {
        let plain = decoded->Ok_0;
        assert(decoded == Ok::<DecodedImage, ImageError>(plain));
        assert(may_orient(shown, plain, image_bytes, read_heif_orientation));
    }
}

/// Every image that is shown of a file was made by one of the decoders of that
/// file: by the general decoder where nothing marks it as a RAW, by the RAW
/// decoder where everything does, and else by either.
pub proof fn law_shown_file_was_decoded<
    R: FnOnce() -> ImageResult<RawDecodeOutcome>,
    I: FnOnce() -> ImageResult<DecodedImage>,
>(
    image_path: Seq<char>,
    extension_is_raw: bool,
    magic_is_raw: bool,
    input_bytes: nat,
    decode_raw: R,
    decode_image: I,
    r: ImageResult<DecodedImage>,
)
    requires
        file_may_settle(
            image_path,
            extension_is_raw,
            magic_is_raw,
            input_bytes,
            decode_raw,
            decode_image,
            r,
        ),
    ensures
        r matches Ok(shown) ==> {
            let by_raw = decode_raw.ensures((), Ok(RawDecodeOutcome::Decoded(shown)));
            let by_image = decode_image.ensures((), Ok(shown));
            &&& by_raw || by_image
            &&& !extension_is_raw && !magic_is_raw ==> by_image
            &&& extension_is_raw && magic_is_raw ==> by_raw
            &&& input_bytes > 268_435_456 ==> by_image
        },
{
}

/// A decoder is asked wherever its answer counts: the general decoder for an
/// image in memory that does not look like a RAW, and behind a RAW decoder that
/// failed or may not be asked; the RAW decoder for one that looks like a RAW, and
/// behind a general decoder that failed.
pub proof fn law_decoders_are_asked(
    raw_first: bool,
    input_bytes: int,
    image: ImageResult<DecodedImage>,
    raw: ImageResult<RawDecodeOutcome>,
)
    ensures
        !raw_first ==> bytes_ask_image(raw_first, input_bytes, raw),
        input_bytes > 268_435_456 ==> bytes_ask_image(raw_first, input_bytes, raw)
            && !bytes_ask_raw(raw_first, input_bytes, image),
        raw matches Err(ImageError::Decode(_)) ==> bytes_ask_image(raw_first, input_bytes, raw),
        raw matches Ok(RawDecodeOutcome::ProbeRejected(_)) ==> bytes_ask_image(
            raw_first,
            input_bytes,
            raw,
        ),
        input_bytes <= 268_435_456 && (raw_first || image is Err) ==> bytes_ask_raw(
            raw_first,
            input_bytes,
            image,
        ),
        !raw_first && image is Ok ==> !bytes_ask_raw(raw_first, input_bytes, image),
{
}

} // verus!
