//! Decodes an image with the general decoder, and falls back to another for a
//! TIFF.

use std::io::Cursor;

use image::ImageReader;
use moxcms::{ColorProfile, Layout, TransformOptions};
use vstd::prelude::*;
use vstd::string::*;

use crate::error::{is_decode_error, settles_as_view, ImageError, ImageResult};
use crate::raw_pipeline::PreviewBudget;
use crate::text::{contains, ends_with, lemma_ends_with, matches_at};
use crate::tiff_fallback::{
    decode_tiff_from_bytes, should_attempt_tiff_fallback, tiff_outcome,
    ImageFormat, ProfiledImage, ProfiledPixels, TiffReading,
};
use crate::types::{
    law_depth_keeps_places, law_narrowed_value_is_nearest, narrow_all, narrowed_all, widen_all,
    DecodedImage, RgbImage, RgbSeq, RgbValues,
};

verus! {

// ---------------------------------------------------------------------------
// Colour
// ---------------------------------------------------------------------------

/// `converted` is an answer that the conversion of 16-bit RGB values from the
/// space of a color profile to sRGB may give: the converted values, or `None`
/// for a profile that cannot be used. On another machine the answer may be
/// another.
pub uninterp spec fn conversion_may_give(
    rgb: Seq<u16>,
    profile: Seq<u8>,
    converted: Option<Seq<u16>>,
) -> bool;

/// The values of a list, if there is one.
pub open spec fn words_view(words: Option<Vec<u16>>) -> Option<Seq<u16>> {
    match words {
        Some(words) => Some(words@),
        None => None,
    }
}

/// Converts 16-bit RGB values from the space of a color profile to sRGB, by
/// `moxcms::ColorProfile::create_transform_16bit`.
///
/// Trusted: the answer is one that these values and this profile may have, and
/// the converted values are as many as the given ones: the list that they are
/// written to is made as long, and the call fails where it does not fill it.
/// What they are depends on the machine's arithmetic and is left unsaid.
#[verifier::external_body]
fn convert_to_srgb(rgb: &[u16], profile: &[u8]) -> (r: Option<Vec<u16>>)
    ensures
        conversion_may_give(rgb@, profile@, words_view(r)),
        r matches Some(converted) ==> converted@.len() == rgb@.len(),
{
    let source = ColorProfile::new_from_slice(profile).ok()?;
    let target = ColorProfile::new_srgb();
    let options = TransformOptions::default();
    let transform = source.create_transform_16bit(Layout::Rgb, &target, Layout::Rgb, options).ok()?;
    let mut converted = vec![0u16; rgb.len()];
    transform.transform(rgb, &mut converted).ok()?;
    Some(converted)
}

/// The RGB values behind a conversion, in 8 bits: the converted values, or the
/// given ones where the conversion failed.
pub open spec fn converted_rgb(rgb: RgbSeq, converted: Option<Seq<u16>>) -> Seq<u8> {
    match converted {
        Some(words) => narrowed_all(words),
        None => rgb.in_bytes(),
    }
}

/// The image behind a conversion of its values in 16 bits: the converted
/// values, or its own where the conversion failed. Only then it is brought to 8
/// bits.
pub fn settle_srgb(image: RgbImage, converted: Option<Vec<u16>>) -> (shown: DecodedImage)
    ensures
        shown.dimensions == image.dimensions,
        shown.rgb@ == converted_rgb(image.rgb@, words_view(converted)),
{
    match converted {
        Some(words) => DecodedImage { dimensions: image.dimensions, rgb: narrow_all(&words) },
        None => image.into_decoded(),
    }
}

/// `shown` may be the RGB values `rgb` behind a conversion from the space of
/// `profile`. They are converted in 16 bits, and then brought to 8 bits.
pub open spec fn may_be_converted(shown: Seq<u8>, rgb: RgbSeq, profile: Seq<u8>) -> bool {
    exists|converted: Option<Seq<u16>>| #[trigger]
        conversion_may_give(rgb.in_words(), profile, converted) && shown == converted_rgb(
            rgb,
            converted,
        )
}

/// `shown` may be the sRGB image of `pixels`: of the same size, converted from
/// the space of its color profile, and the same image where it has none.
pub open spec fn may_be_srgb_of(shown: DecodedImage, pixels: ProfiledPixels) -> bool {
    &&& shown.dimensions == pixels.dimensions
    &&& shown.rgb@.len() == pixels.rgb.len()
    &&& match pixels.icc_profile {
        None => shown.rgb@ == pixels.rgb.in_bytes(),
        Some(profile) => may_be_converted(shown.rgb@, pixels.rgb, profile),
    }
}

/// Converts an image to sRGB in 8 bits. A color profile that cannot be used
/// leaves the values as they are.
pub fn apply_icc_profile_to_srgb(image: RgbImage, icc_profile: Option<&[u8]>) -> (shown:
    DecodedImage)
    ensures
        shown.dimensions == image.dimensions,
        shown.rgb@.len() == image.rgb@.len(),
        match icc_profile {
            None => shown.rgb@ == image.rgb@.in_bytes(),
            Some(profile) => may_be_converted(shown.rgb@, image.rgb@, profile@),
        },
{
    match icc_profile {
        None => image.into_decoded(),
        Some(profile) => {
            let converted = match &image.rgb {
                RgbValues::Bytes(bytes) => convert_to_srgb(widen_all(bytes).as_slice(), profile),
                RgbValues::Words(words) => convert_to_srgb(words.as_slice(), profile),
            };
            let ghost answer = words_view(converted);
            assert(conversion_may_give(image.rgb@.in_words(), profile@, answer));
            settle_srgb(image, converted)
        },
    }
}

impl ProfiledImage {
    /// The image in sRGB.
    pub fn into_srgb(self) -> (shown: DecodedImage)
        ensures
            may_be_srgb_of(shown, self@),
    {
        match self.icc_profile {
            None => self.image.into_decoded(),
            Some(profile) => apply_icc_profile_to_srgb(self.image, Some(profile.as_slice())),
        }
    }
}

// ---------------------------------------------------------------------------
// The general decoder
// ---------------------------------------------------------------------------

/// `guess` is an answer that a guess at the format of an image may give: a
/// format or none, or why its bytes cannot be read. The answer may be another
/// where other decoders are registered.
pub uninterp spec fn guess_may_give(
    image_bytes: Seq<u8>,
    guess: Result<Option<ImageFormat>, Seq<char>>,
) -> bool;

/// A guess at the format of an image, or why its bytes cannot be read.
pub type FormatGuess = Result<Option<ImageFormat>, String>;

/// A guess, as a mathematical value.
pub open spec fn guess_view(guess: FormatGuess) -> Result<Option<ImageFormat>, Seq<char>> {
    match guess {
        Ok(format) => Ok(format),
        Err(text) => Err(text@),
    }
}

/// The format that an image seems to have, by
/// `image::ImageReader::with_guessed_format`.
///
/// Trusted: the answer is one that these bytes may have. Which formats are known
/// depends on what the process has registered, and is left unsaid.
#[verifier::external_body]
fn guess_format(image_bytes: &[u8]) -> (r: FormatGuess)
    ensures
        guess_may_give(image_bytes@, guess_view(r)),
{
    let reader = ImageReader::new(Cursor::new(image_bytes)).with_guessed_format();
    Ok(match reader.map_err(|e| e.to_string())?.format() {
        None => None,
        Some(image::ImageFormat::Png) => Some(ImageFormat::Png),
        Some(image::ImageFormat::Jpeg) => Some(ImageFormat::Jpeg),
        Some(image::ImageFormat::Tiff) => Some(ImageFormat::Tiff),
        Some(image::ImageFormat::Avif) => Some(ImageFormat::Avif),
        Some(_) => Some(ImageFormat::Other),
    })
}

/// What an attempt to decode an image comes to: the image and its color
/// profile, or why there is none.
pub type ImageAttempt = Result<ProfiledImage, String>;

/// `r` may be what comes of an attempt to decode the JPEG that is embedded in a
/// RAW: the image in sRGB, or why there is none.
pub open spec fn preview_may_settle(
    attempt: Result<ProfiledPixels, Seq<char>>,
    r: Result<DecodedImage, String>,
) -> bool {
    match attempt {
        Ok(pixels) => r matches Ok(shown) && may_be_srgb_of(shown, pixels),
        Err(text) => r matches Err(message) && message@ == text,
    }
}

/// An attempt to decode an image, as a mathematical value.
pub open spec fn attempt_view(attempt: ImageAttempt) -> Result<ProfiledPixels, Seq<char>> {
    match attempt {
        Ok(decoded) => Ok(decoded@),
        Err(text) => Err(text@),
    }
}

/// What comes of an attempt to decode the JPEG that is embedded in a RAW: the
/// image in sRGB, or why there is none.
pub fn settle_preview_jpeg(attempt: ImageAttempt) -> (r: Result<DecodedImage, String>)
    requires
        attempt matches Ok(decoded) ==> decoded.image.well_formed(),
    ensures
        preview_may_settle(attempt_view(attempt), r),
        r matches Ok(image) ==> image.well_formed(),
{
    match attempt {
        Ok(decoded) => Ok(decoded.into_srgb()),
        Err(text) => Err(text),
    }
}

/// Decodes the JPEG that is embedded in a RAW, within a budget, to sRGB.
///
/// `decode_jpeg` is the JPEG decoder. It is handed in because it may panic on a
/// damaged image.
pub fn decode_preview_jpeg<J: FnOnce(&[u8], PreviewBudget) -> ImageAttempt>(
    image_bytes: &[u8],
    budget: PreviewBudget,
    decode_jpeg: J,
) -> (r: Result<DecodedImage, String>)
    requires
        decode_jpeg.requires((image_bytes, budget)),
        forall|decoded: ProfiledImage| #[trigger]
            decode_jpeg.ensures((image_bytes, budget), Ok::<ProfiledImage, String>(decoded))
                ==> decoded.image.well_formed(),
    ensures
        exists|attempt: ImageAttempt| #[trigger]
            decode_jpeg.ensures((image_bytes, budget), attempt) && preview_may_settle(
                attempt_view(attempt),
                r,
            ),
        r matches Ok(image) ==> image.well_formed(),
{
    let attempt = decode_jpeg(image_bytes, budget);
    let ghost given = attempt;
    assert(decode_jpeg.ensures((image_bytes, budget), given));
    settle_preview_jpeg(attempt)
}

// ---------------------------------------------------------------------------
// The fallback for a TIFF
// ---------------------------------------------------------------------------

pub open spec fn tiff_failed_text(primary: Seq<char>, fallback: Seq<char>) -> Seq<char> {
    "failed to decode TIFF with image crate: "@ + primary
        + "; fallback with tiff crate also failed: "@ + fallback
}

/// `r` may be what comes of an attempt with the general decoder, given the
/// format that the image seems to have and what the fallback for a TIFF comes
/// to.
pub open spec fn attempt_may_settle(
    attempt: ImageAttempt,
    format: Option<ImageFormat>,
    fallback: ImageResult<ProfiledImage>,
    r: ImageResult<DecodedImage>,
) -> bool {
    match attempt {
        Ok(decoded) => r matches Ok(shown) && may_be_srgb_of(shown, decoded@),
        Err(primary) => if format == Some(ImageFormat::Tiff) {
            match fallback {
                Ok(decoded) => r matches Ok(shown) && may_be_srgb_of(shown, decoded@),
                Err(ImageError::Decode(text)) => is_decode_error(
                    r,
                    tiff_failed_text(primary@, text@),
                ),
                Err(error) => r == Err::<DecodedImage, ImageError>(error),
            }
        } else {
            is_decode_error(r, primary@)
        },
    }
}

/// What comes of an attempt with the general decoder: where it fails on what
/// seems to be a TIFF, `decode_tiff` is tried.
pub fn settle_image_attempt<B: FnOnce() -> ImageResult<ProfiledImage>>(
    attempt: ImageAttempt,
    format: Option<ImageFormat>,
    decode_tiff: B,
) -> (r: ImageResult<DecodedImage>)
    requires
        attempt matches Ok(decoded) ==> decoded.image.well_formed(),
        decode_tiff.requires(()),
        forall|decoded: ProfiledImage| #[trigger]
            decode_tiff.ensures((), Ok::<ProfiledImage, ImageError>(decoded))
                ==> decoded.image.well_formed(),
    ensures
        exists|fallback: ImageResult<ProfiledImage>|
            {
                &&& (attempt is Err && format == Some(ImageFormat::Tiff)) ==> decode_tiff.ensures(
                    (),
                    fallback,
                )
                &&& #[trigger] attempt_may_settle(attempt, format, fallback, r)
            },
        r matches Ok(shown) ==> shown.well_formed(),
{
    let ghost given = attempt;
    match attempt {
        Ok(decoded) => {
            let r = Ok(decoded.into_srgb());
            let ghost none: ImageResult<ProfiledImage> = arbitrary();
            assert(attempt_may_settle(given, format, none, r));
            r
        },
        Err(primary) => {
            if should_attempt_tiff_fallback(format) {
                let fallback = decode_tiff();
                let ghost tried = fallback;
                let r = match fallback {
                    Ok(decoded) => Ok(decoded.into_srgb()),
                    Err(ImageError::Decode(text)) => {
                        let mut message = "failed to decode TIFF with image crate: ".to_owned();
                        message.append(primary.as_str());
                        message.append("; fallback with tiff crate also failed: ");
                        message.append(text.as_str());
                        Err(ImageError::Decode(message))
                    },
                    Err(error) => Err(error),
                };
                assert(attempt_may_settle(given, format, tried, r));
                r
            } else {
                let r = Err(ImageError::Decode(primary));
                let ghost none: ImageResult<ProfiledImage> = arbitrary();
                assert(attempt_may_settle(given, format, none, r));
                r
            }
        },
    }
}

/// The name that messages give an image that has none.
pub const NAMELESS: &'static str = "<bytes>";

/// The fallback for a TIFF is asked.
pub open spec fn asks_tiff(guess: FormatGuess, attempt: ImageAttempt) -> bool {
    guess == Ok::<Option<ImageFormat>, String>(Some(ImageFormat::Tiff)) && attempt is Err
}

/// `r` may be what comes of an image, given the guess at its format, what the
/// general decoder makes of it, and what the fallback reads of it if it is a
/// TIFF.
pub open spec fn image_may_settle(
    guess: FormatGuess,
    attempt: ImageAttempt,
    reading: TiffReading,
    r: ImageResult<DecodedImage>,
) -> bool {
    match guess {
        Err(text) => is_decode_error(r, "failed to guess image format: "@ + text@),
        Ok(format) => exists|fallback: ImageResult<ProfiledImage>|
            {
                &&& asks_tiff(guess, attempt) ==> settles_as_view(
                    fallback,
                    tiff_outcome(reading, NAMELESS@),
                )
                &&& #[trigger] attempt_may_settle(attempt, format, fallback, r)
            },
    }
}

/// `r` may be what comes of decoding an image without a look at its
/// orientation. `decode_general` is the general decoder, and `read_tiff` the
/// fallback for a TIFF.
pub open spec fn may_decode<
    A: FnOnce(&[u8]) -> ImageAttempt,
    T: FnOnce(&[u8]) -> TiffReading,
>(image_bytes: &[u8], decode_general: A, read_tiff: T, r: ImageResult<DecodedImage>) -> bool {
    exists|guess: FormatGuess, attempt: ImageAttempt, reading: TiffReading|
        {
            &&& guess_may_give(image_bytes@, guess_view(guess))
            &&& guess is Ok ==> decode_general.ensures((image_bytes,), attempt)
            &&& asks_tiff(guess, attempt) ==> read_tiff.ensures((image_bytes,), reading)
            &&& #[trigger] image_may_settle(guess, attempt, reading, r)
        }
}

/// Decodes an image to sRGB.
///
/// `decode_general` is the general decoder, and `read_tiff` asks the TIFF
/// decoder where that fails. They are handed in because the decoders may panic
/// on a damaged image.
pub fn decode_bytes_with_image_crate<
    A: FnOnce(&[u8]) -> ImageAttempt,
    T: FnOnce(&[u8]) -> TiffReading,
>(image_bytes: &[u8], decode_general: A, read_tiff: T) -> (r: ImageResult<DecodedImage>)
    requires
        decode_general.requires((image_bytes,)),
        forall|decoded: ProfiledImage| #[trigger]
            decode_general.ensures((image_bytes,), Ok::<ProfiledImage, String>(decoded))
                ==> decoded.image.well_formed(),
        read_tiff.requires((image_bytes,)),
    ensures
        may_decode(image_bytes, decode_general, read_tiff, r),
        r matches Ok(shown) ==> shown.well_formed(),
{
    let guess = guess_format(image_bytes);
    let ghost guessed = guess;
    let format = match guess {
        Ok(format) => format,
        Err(text) => {
            let mut message = "failed to guess image format: ".to_owned();
            message.append(text.as_str());
            let r = Err(ImageError::Decode(message));
            proof {
                let attempt: ImageAttempt = arbitrary();
                let reading: TiffReading = arbitrary();
                assert(image_may_settle(guessed, attempt, reading, r));
            }
            return r;
        },
    };
    let attempt = decode_general(image_bytes);
    let ghost attempted = attempt;
    let decode_tiff = || -> (fallback: ImageResult<ProfiledImage>)
        requires
            read_tiff.requires((image_bytes,)),
        ensures
            exists|reading: TiffReading| #[trigger]
                read_tiff.ensures((image_bytes,), reading) && settles_as_view(
                    fallback,
                    tiff_outcome(reading, NAMELESS@),
                ),
            fallback matches Ok(decoded) ==> decoded.image.well_formed(),
        { decode_tiff_from_bytes(image_bytes, NAMELESS, read_tiff) };
    let r = settle_image_attempt(attempt, format, decode_tiff);
    proof {
        let fallback = choose|fallback: ImageResult<ProfiledImage>|
            {
                &&& (attempted is Err && format == Some(ImageFormat::Tiff)) ==> decode_tiff.ensures(
                    (),
                    fallback,
                )
                &&& #[trigger] attempt_may_settle(attempted, format, fallback, r)
            };
        let reading = choose|reading: TiffReading| #[trigger]
            read_tiff.ensures((image_bytes,), reading) && settles_as_view(
                fallback,
                tiff_outcome(reading, NAMELESS@),
            );
        assert(image_may_settle(guessed, attempted, reading, r));
    }
    r
}

/// What the general decoder makes of an image is shown, whatever format it
/// seems to have and whatever the fallback would make of it.
pub proof fn law_general_decoder_comes_first(
    decoded: ProfiledImage,
    format: Option<ImageFormat>,
    fallback: ImageResult<ProfiledImage>,
    r: ImageResult<DecodedImage>,
)
    requires
        attempt_may_settle(Ok(decoded), format, fallback, r),
    ensures
        r matches Ok(shown) && shown.dimensions == decoded.image.dimensions && may_be_srgb_of(
            shown,
            decoded@,
        ),
{
}

/// Behind a failure of the general decoder a TIFF is shown if the fallback can
/// show it, and else both failures are told. The fallback changes nothing for
/// what seems to be anything else: the failure is told as it is.
pub proof fn law_fallback_is_for_tiffs(
    primary: String,
    format: Option<ImageFormat>,
    fallback: ImageResult<ProfiledImage>,
    r: ImageResult<DecodedImage>,
)
    requires
        attempt_may_settle(Err(primary), format, fallback, r),
    ensures
        format != Some(ImageFormat::Tiff) ==> (r matches Err(ImageError::Decode(message))
            && message@ == primary@),
        format == Some(ImageFormat::Tiff) ==> match fallback {
            Ok(decoded) => r matches Ok(shown) && shown.dimensions == decoded.image.dimensions
                && may_be_srgb_of(shown, decoded@),
            Err(ImageError::Decode(text)) => r matches Err(ImageError::Decode(message))
                && contains(message@, primary@) && ends_with(message@, text@),
            Err(ImageError::Other(text)) => r matches Err(ImageError::Other(message)) && message
                == text,
        },
{
    if let Err(ImageError::Decode(text)) = fallback {
        let head = "failed to decode TIFF with image crate: "@;
        let middle = "; fallback with tiff crate also failed: "@;
        let whole = tiff_failed_text(primary@, text@);
        lemma_ends_with(head + primary@ + middle, text@);
        assert(whole.subrange(head.len() as int, (head.len() + primary@.len()) as int)
            =~= primary@);
        assert(matches_at(whole, primary@, head.len() as int));
    }
}

/// An image without a color profile is shown in its own values: those of 8 bits
/// as they are, and those of 16 bits as the nearest ones of 8 bits.
pub proof fn law_image_without_profile_keeps_its_values(
    shown: DecodedImage,
    pixels: ProfiledPixels,
    i: int,
)
    requires
        may_be_srgb_of(shown, pixels),
        pixels.icc_profile is None,
        0 <= i < pixels.rgb.len(),
    ensures
        shown.dimensions == pixels.dimensions,
        shown.rgb@.len() == pixels.rgb.len(),
        pixels.rgb matches RgbSeq::Bytes(bytes) ==> shown.rgb@ == bytes,
        pixels.rgb matches RgbSeq::Words(words) ==> -128 <= 257 * shown.rgb@[i] - words[i] <= 128,
{
    law_depth_keeps_places(pixels.rgb, i);
}

/// An image with a color profile is converted in 16 bits: what it is shown in is
/// nearest to what the conversion of its own values gave, and where that gave
/// nothing, to its own values.
pub proof fn law_image_with_profile_is_converted(
    shown: DecodedImage,
    pixels: ProfiledPixels,
    profile: Seq<u8>,
)
    requires
        may_be_srgb_of(shown, pixels),
        pixels.icc_profile == Some(profile),
    ensures
        shown.dimensions == pixels.dimensions,
        shown.rgb@.len() == pixels.rgb.len(),
        exists|converted: Option<Seq<u16>>|
            {
                &&& #[trigger] conversion_may_give(pixels.rgb.in_words(), profile, converted)
                &&& match converted {
                    Some(words) => words.len() == shown.rgb@.len() && forall|i: int|
                        0 <= i < words.len() ==> -128 <= 257 * (#[trigger] shown.rgb@[i])
                            - words[i] <= 128,
                    None => shown.rgb@ == pixels.rgb.in_bytes(),
                }
            },
{
    let converted = choose|converted: Option<Seq<u16>>| #[trigger]
        conversion_may_give(pixels.rgb.in_words(), profile, converted) && shown.rgb@
            == converted_rgb(pixels.rgb, converted);
    if let Some(words) = converted {
        assert forall|i: int| 0 <= i < words.len() implies -128 <= 257 * (
        #[trigger] shown.rgb@[i]) - words[i] <= 128 by {
            law_narrowed_value_is_nearest(words[i]);
        }
    }
    assert(conversion_may_give(pixels.rgb.in_words(), profile, converted));
}

/// Where the format of an image cannot even be guessed, that is told, and no
/// decoder changes it. Else what the general decoder makes of it counts, and for
/// a TIFF that it cannot show, what was read of the TIFF.
pub proof fn law_image_goes_by_the_guess_and_the_decoders(
    guess: FormatGuess,
    attempt: ImageAttempt,
    reading: TiffReading,
    r: ImageResult<DecodedImage>,
)
    requires
        image_may_settle(guess, attempt, reading, r),
    ensures
        guess matches Err(text) ==> (r matches Err(ImageError::Decode(message)) && ends_with(
            message@,
            text@,
        )),
        guess is Ok ==> (attempt matches Ok(decoded) ==> r matches Ok(shown) && may_be_srgb_of(
            shown,
            decoded@,
        )),
        guess matches Ok(format) ==> (attempt matches Err(primary) ==> {
            &&& format != Some(ImageFormat::Tiff) ==> (r matches Err(ImageError::Decode(message))
                && message@ == primary@)
            &&& format == Some(ImageFormat::Tiff) ==> match tiff_outcome(reading, "<bytes>"@) {
                Ok(pixels) => r matches Ok(shown) && may_be_srgb_of(shown, pixels),
                Err(text) => r matches Err(ImageError::Decode(message)) && contains(
                    message@,
                    primary@,
                ) && ends_with(message@, text),
            }
        }),
{
    match guess {
        Err(text) => {
            lemma_ends_with("failed to guess image format: "@, text@);
        },
        Ok(format) => {
            let fallback = choose|fallback: ImageResult<ProfiledImage>|
                {
                    &&& asks_tiff(guess, attempt) ==> settles_as_view(
                        fallback,
                        tiff_outcome(reading, NAMELESS@),
                    )
                    &&& #[trigger] attempt_may_settle(attempt, format, fallback, r)
                };
            if let Err(primary) = attempt {
                law_fallback_is_for_tiffs(primary, format, fallback, r);
            }
        },
    }
}

/// The JPEG in a RAW is shown in sRGB where it was decoded, and else the decoder's
/// own words are told.
pub proof fn law_preview_attempt_is_shown_or_told(
    attempt: ImageAttempt,
    r: Result<DecodedImage, String>,
)
    requires
        preview_may_settle(attempt_view(attempt), r),
    ensures
        attempt matches Ok(decoded) ==> r matches Ok(shown) && shown.dimensions
            == decoded.image.dimensions && may_be_srgb_of(shown, decoded@),
        attempt matches Err(text) ==> r matches Err(message) && message@ == text@,
{
}

/// An image is what comes of a guess at the format of these bytes, of the general
/// decoder on these bytes, and of a look at these bytes as a TIFF.
pub proof fn law_image_is_decoded_from_its_bytes<
    A: FnOnce(&[u8]) -> ImageAttempt,
    T: FnOnce(&[u8]) -> TiffReading,
>(image_bytes: &[u8], decode_general: A, read_tiff: T, r: ImageResult<DecodedImage>)
    requires
        may_decode(image_bytes, decode_general, read_tiff, r),
    ensures
        r matches Ok(shown) ==> (exists|decoded: ProfiledImage| #[trigger]
            decode_general.ensures((image_bytes,), Ok(decoded)) && may_be_srgb_of(shown, decoded@))
            || (exists|reading: TiffReading| #[trigger]
            read_tiff.ensures((image_bytes,), reading) && (tiff_outcome(
                reading,
                "<bytes>"@,
            ) matches Ok(pixels) && may_be_srgb_of(shown, pixels)) && guess_may_give(
                image_bytes@,
                Ok(Some(ImageFormat::Tiff)),
            )),
        r is Err ==> (exists|text: String| #[trigger]
            decode_general.ensures((image_bytes,), Err(text))) || (exists|text: Seq<char>| #[trigger]
            guess_may_give(image_bytes@, Err(text))),
{
    let (guess, attempt, reading) = choose|
        guess: FormatGuess,
        attempt: ImageAttempt,
        reading: TiffReading,
    |
        {
            &&& guess_may_give(image_bytes@, guess_view(guess))
            &&& guess is Ok ==> decode_general.ensures((image_bytes,), attempt)
            &&& asks_tiff(guess, attempt) ==> read_tiff.ensures((image_bytes,), reading)
            &&& #[trigger] image_may_settle(guess, attempt, reading, r)
        };
    law_image_goes_by_the_guess_and_the_decoders(guess, attempt, reading, r);
    match guess {
        Err(text) => {
            assert(guess_view(guess) == Err::<Option<ImageFormat>, Seq<char>>(text@));
            assert(guess_may_give(image_bytes@, Err(text@)));
        },
        Ok(format) => {
            match attempt {
                Ok(decoded) => {
                    assert(attempt == Ok::<ProfiledImage, String>(decoded));
                    assert(decode_general.ensures((image_bytes,), Ok(decoded)));
                },
                Err(text) => {
                    assert(attempt == Err::<ProfiledImage, String>(text));
                    assert(decode_general.ensures((image_bytes,), Err(text)));
                },
            }
        },
    }
}

} // verus!
