//! The guardrails that a camera RAW has to pass before pixels are allocated
//! for it.

use vstd::prelude::*;
use vstd::string::*;

use crate::error::{is_decode_error, ImageError, ImageResult};
use crate::text::{begins_with, contains, decimal, decimal_text, matches_at, usize_text};

verus! {

/// The largest input that the RAW decoder is given, in bytes.
pub const RAW_MAX_INPUT_BYTES: u64 = 268_435_456;

/// Developing a RAW peaks at about 32 bytes for each source pixel. Larger RAWs
/// are shown through an embedded JPEG instead.
pub const RAW_MAX_DEVELOPMENT_PIXELS: u128 = 36_000_000;

/// The ceiling for one decoded sample buffer. An image pixel may hold more than
/// one sample.
pub const RAW_MAX_DECODED_SAMPLES: u128 = 200_000_000;

/// The least length of the shorter edge of an embedded preview.
pub const RAW_PREVIEW_MIN_SHORT_EDGE: u32 = 1080;

/// The largest embedded preview, in pixels.
pub const RAW_PREVIEW_MAX_PIXELS: u64 = 200_000_000;

/// The longest side of an image. It bounds line buffers for extreme aspect
/// ratios, which the number of pixels does not.
pub const RAW_MAX_DIMENSION: usize = 50_000;

/// What is done with a RAW whose dimensions are acceptable.
#[derive(Clone, Copy, Debug, PartialEq, Eq, Structural)]
pub enum RawDecodePlan {
    /// Decode and develop the sensor data.
    Develop,
    /// Show the largest eligible embedded JPEG.
    UseEmbeddedPreview,
}

/// `width` and `height` keep to the longest side.
pub open spec fn within_side_limit(width: int, height: int) -> bool {
    width <= RAW_MAX_DIMENSION && height <= RAW_MAX_DIMENSION
}

/// Dimensions that a RAW may have at all.
pub open spec fn acceptable_dimensions(width: int, height: int) -> bool {
    &&& 0 < width
    &&& 0 < height
    &&& within_side_limit(width, height)
}

/// `<width>x<height>`
pub open spec fn size_text(width: nat, height: nat) -> Seq<char> {
    decimal(width) + "x"@ + decimal(height)
}

/// Writes `<width>x<height>`.
pub fn write_size(width: usize, height: usize) -> (text: String)
    ensures
        text@ == size_text(width as nat, height as nat),
{
    let mut text = usize_text(width);
    text.append("x");
    text.append(usize_text(height).as_str());
    text
}

// ---------------------------------------------------------------------------
// Messages
// ---------------------------------------------------------------------------

pub open spec fn side_limit_text(
    source_name: Seq<char>,
    kind: Seq<char>,
    width: nat,
    height: nat,
) -> Seq<char> {
    "RAW image '"@ + source_name + "' is too large to decode safely: "@ + kind + " "@ + size_text(
        width,
        height,
    ) + " exceeds maximum side length "@ + decimal(RAW_MAX_DIMENSION as nat)
}

pub open spec fn invalid_dimensions_text(
    source_name: Seq<char>,
    width: nat,
    height: nat,
) -> Seq<char> {
    "RAW image '"@ + source_name + "' decoded to invalid dimensions "@ + size_text(width, height)
}

pub open spec fn too_large_to_develop_text(
    source_name: Seq<char>,
    width: nat,
    height: nat,
) -> Seq<char> {
    "RAW image '"@ + source_name + "' is too large to develop safely: "@ + size_text(width, height)
        + " exceeds "@ + decimal(RAW_MAX_DEVELOPMENT_PIXELS as nat) + " pixels"@
}

pub open spec fn invalid_samples_text(
    source_name: Seq<char>,
    width: nat,
    height: nat,
) -> Seq<char> {
    "RAW image '"@ + source_name + "' has invalid decoded sample dimensions "@ + size_text(
        width,
        height,
    )
}

pub open spec fn too_many_samples_text(
    source_name: Seq<char>,
    width: nat,
    height: nat,
) -> Seq<char> {
    "RAW image '"@ + source_name
        + "' is too large to decode safely: decoded sample allocation "@ + size_text(width, height)
        + " exceeds "@ + decimal(RAW_MAX_DECODED_SAMPLES as nat) + " samples"@
}

pub open spec fn input_too_large_text(source_name: Seq<char>, input_bytes: nat) -> Seq<char> {
    "RAW image '"@ + source_name + "' is too large to decode safely: "@ + decimal(input_bytes)
        + " bytes exceeds "@ + decimal(RAW_MAX_INPUT_BYTES as nat) + " bytes"@
}

// ---------------------------------------------------------------------------
// Checks
// ---------------------------------------------------------------------------

/// Rejects dimensions with a side longer than the limit.
pub fn validate_raw_side_limit(
    width: usize,
    height: usize,
    source_name: &str,
    dimension_kind: &str,
) -> (r: ImageResult<()>)
    ensures
        r is Ok <==> within_side_limit(width as int, height as int),
        r is Err ==> is_decode_error(
            r,
            side_limit_text(source_name@, dimension_kind@, width as nat, height as nat),
        ),
{
    if width > RAW_MAX_DIMENSION || height > RAW_MAX_DIMENSION {
        let mut message = "RAW image '".to_owned();
        message.append(source_name);
        message.append("' is too large to decode safely: ");
        message.append(dimension_kind);
        message.append(" ");
        message.append(write_size(width, height).as_str());
        message.append(" exceeds maximum side length ");
        message.append(usize_text(RAW_MAX_DIMENSION).as_str());
        return Err(ImageError::Decode(message));
    }
    Ok(())
}

/// Tells whether a RAW of these dimensions is too large to develop, so that an
/// embedded preview has to stand in for it.
pub fn raw_dimensions_require_preview(width: usize, height: usize, source_name: &str) -> (r:
    ImageResult<bool>)
    ensures
        r is Ok <==> acceptable_dimensions(width as int, height as int),
        r matches Ok(preview) ==> preview == (width * height > RAW_MAX_DEVELOPMENT_PIXELS),
        width == 0 || height == 0 ==> is_decode_error(
            r,
            invalid_dimensions_text(source_name@, width as nat, height as nat),
        ),
        width != 0 && height != 0 && r is Err ==> is_decode_error(
            r,
            side_limit_text(source_name@, "dimensions"@, width as nat, height as nat),
        ),
{
    if width == 0 || height == 0 {
        let mut message = "RAW image '".to_owned();
        message.append(source_name);
        message.append("' decoded to invalid dimensions ");
        message.append(write_size(width, height).as_str());
        return Err(ImageError::Decode(message));
    }
    match validate_raw_side_limit(width, height, source_name, "dimensions") {
        Err(error) => Err(error),
        Ok(()) => {
            assert(0 <= width * height <= 50_000 * 50_000) by (nonlinear_arith)
                requires
                    0 <= width <= 50_000,
                    0 <= height <= 50_000,
            ;
            let pixels: u128 = (width as u128) * (height as u128);
            Ok(pixels > RAW_MAX_DEVELOPMENT_PIXELS)
        },
    }
}

/// Accepts the dimensions of a RAW that can be developed.
pub fn validate_raw_dimensions(width: usize, height: usize, source_name: &str) -> (r: ImageResult<
    (),
>)
    ensures
        r is Ok <==> acceptable_dimensions(width as int, height as int) && width * height
            <= RAW_MAX_DEVELOPMENT_PIXELS,
        width == 0 || height == 0 ==> is_decode_error(
            r,
            invalid_dimensions_text(source_name@, width as nat, height as nat),
        ),
        width != 0 && height != 0 && !within_side_limit(width as int, height as int)
            ==> is_decode_error(
            r,
            side_limit_text(source_name@, "dimensions"@, width as nat, height as nat),
        ),
        acceptable_dimensions(width as int, height as int) && r is Err ==> is_decode_error(
            r,
            too_large_to_develop_text(source_name@, width as nat, height as nat),
        ),
{
    match raw_dimensions_require_preview(width, height, source_name) {
        Err(error) => Err(error),
        Ok(false) => Ok(()),
        Ok(true) => {
            let mut message = "RAW image '".to_owned();
            message.append(source_name);
            message.append("' is too large to develop safely: ");
            message.append(write_size(width, height).as_str());
            message.append(" exceeds ");
            message.append(decimal_text(RAW_MAX_DEVELOPMENT_PIXELS).as_str());
            message.append(" pixels");
            Err(ImageError::Decode(message))
        },
    }
}

/// The plan for a RAW of acceptable dimensions.
pub open spec fn plan_for(width: int, height: int) -> RawDecodePlan {
    if width * height > RAW_MAX_DEVELOPMENT_PIXELS {
        RawDecodePlan::UseEmbeddedPreview
    } else {
        RawDecodePlan::Develop
    }
}

/// The text with which unacceptable dimensions are rejected.
pub open spec fn unacceptable_dimensions_text(
    source_name: Seq<char>,
    width: nat,
    height: nat,
) -> Seq<char> {
    if width == 0 || height == 0 {
        invalid_dimensions_text(source_name, width, height)
    } else {
        side_limit_text(source_name, "dimensions"@, width, height)
    }
}

/// Chooses between developing a RAW and showing its embedded preview.
pub fn raw_decode_plan_for_dimensions(width: usize, height: usize, source_name: &str) -> (r:
    ImageResult<RawDecodePlan>)
    ensures
        acceptable_dimensions(width as int, height as int) ==> r == Ok::<RawDecodePlan, ImageError>(
            plan_for(width as int, height as int),
        ),
        !acceptable_dimensions(width as int, height as int) ==> is_decode_error(
            r,
            unacceptable_dimensions_text(source_name@, width as nat, height as nat),
        ),
{
    match raw_dimensions_require_preview(width, height, source_name) {
        Err(error) => Err(error),
        Ok(true) => Ok(RawDecodePlan::UseEmbeddedPreview),
        Ok(false) => Ok(RawDecodePlan::Develop),
    }
}

/// A decoded sample buffer that may be allocated.
pub open spec fn acceptable_allocation(sample_width: int, sample_height: int) -> bool {
    &&& acceptable_dimensions(sample_width, sample_height)
    &&& sample_width * sample_height <= RAW_MAX_DECODED_SAMPLES
}

/// The text with which a decoded sample buffer is rejected.
pub open spec fn unacceptable_allocation_text(
    source_name: Seq<char>,
    sample_width: nat,
    sample_height: nat,
) -> Seq<char> {
    if sample_width == 0 || sample_height == 0 {
        invalid_samples_text(source_name, sample_width, sample_height)
    } else if !within_side_limit(sample_width as int, sample_height as int) {
        side_limit_text(source_name, "decoded sample dimensions"@, sample_width, sample_height)
    } else {
        too_many_samples_text(source_name, sample_width, sample_height)
    }
}

/// Accepts a decoded sample buffer that keeps to the side and sample limits.
pub fn validate_raw_sample_allocation(
    sample_width: usize,
    sample_height: usize,
    source_name: &str,
) -> (r: ImageResult<()>)
    ensures
        r is Ok <==> acceptable_allocation(sample_width as int, sample_height as int),
        r is Err ==> is_decode_error(
            r,
            unacceptable_allocation_text(source_name@, sample_width as nat, sample_height as nat),
        ),
{
    if sample_width == 0 || sample_height == 0 {
        let mut message = "RAW image '".to_owned();
        message.append(source_name);
        message.append("' has invalid decoded sample dimensions ");
        message.append(write_size(sample_width, sample_height).as_str());
        return Err(ImageError::Decode(message));
    }
    match validate_raw_side_limit(
        sample_width,
        sample_height,
        source_name,
        "decoded sample dimensions",
    ) {
        Err(error) => return Err(error),
        Ok(()) => {},
    }
    assert(0 <= sample_width * sample_height <= 50_000 * 50_000) by (nonlinear_arith)
        requires
            0 <= sample_width <= 50_000,
            0 <= sample_height <= 50_000,
    ;
    let samples: u128 = (sample_width as u128) * (sample_height as u128);
    if samples > RAW_MAX_DECODED_SAMPLES {
        let mut message = "RAW image '".to_owned();
        message.append(source_name);
        message.append("' is too large to decode safely: decoded sample allocation ");
        message.append(write_size(sample_width, sample_height).as_str());
        message.append(" exceeds ");
        message.append(decimal_text(RAW_MAX_DECODED_SAMPLES).as_str());
        message.append(" samples");
        return Err(ImageError::Decode(message));
    }
    Ok(())
}

/// Accepts an input that is small enough for the RAW decoder.
pub fn validate_raw_input_size(input_bytes: u64, source_name: &str) -> (r: ImageResult<()>)
    ensures
        r is Ok <==> input_bytes <= RAW_MAX_INPUT_BYTES,
        r is Err ==> is_decode_error(r, input_too_large_text(source_name@, input_bytes as nat)),
{
    if input_bytes > RAW_MAX_INPUT_BYTES {
        let mut message = "RAW image '".to_owned();
        message.append(source_name);
        message.append("' is too large to decode safely: ");
        message.append(decimal_text(input_bytes as u128).as_str());
        message.append(" bytes exceeds ");
        message.append(decimal_text(RAW_MAX_INPUT_BYTES as u128).as_str());
        message.append(" bytes");
        return Err(ImageError::Decode(message));
    }
    Ok(())
}

/// An embedded preview that may stand in for the RAW.
pub open spec fn eligible_preview(width: int, height: int) -> bool {
    &&& width >= RAW_PREVIEW_MIN_SHORT_EDGE
    &&& height >= RAW_PREVIEW_MIN_SHORT_EDGE
    &&& width * height <= RAW_PREVIEW_MAX_PIXELS
}

/// Tells whether an embedded preview of these dimensions may stand in for the
/// RAW.
pub fn raw_preview_dimensions_are_eligible(width: u32, height: u32) -> (b: bool)
    ensures
        b == eligible_preview(width as int, height as int),
{
    let short_edge: u32 = if width <= height {
        width
    } else {
        height
    };
    assert(0 <= width * height <= u64::MAX) by (nonlinear_arith)
        requires
            0 <= width <= u32::MAX,
            0 <= height <= u32::MAX,
    ;
    short_edge >= RAW_PREVIEW_MIN_SHORT_EDGE && (width as u64) * (height as u64)
        <= RAW_PREVIEW_MAX_PIXELS
}

// ---------------------------------------------------------------------------
// Laws
// ---------------------------------------------------------------------------

/// Shrinking an acceptable RAW keeps it acceptable, and never turns a RAW that
/// is developed into one that needs its preview.
pub proof fn law_smaller_raw_is_no_harder(width: int, height: int, less_wide: int, less_high: int)
    requires
        acceptable_dimensions(width, height),
        0 < less_wide <= width,
        0 < less_high <= height,
    ensures
        acceptable_dimensions(less_wide, less_high),
        plan_for(width, height) == RawDecodePlan::Develop ==> plan_for(less_wide, less_high)
            == RawDecodePlan::Develop,
{
    assert(less_wide * less_high <= width * height) by (nonlinear_arith)
        requires
            0 < less_wide <= width,
            0 < less_high <= height,
    ;
}

/// Turning an image by a quarter does not change how it is treated.
pub proof fn law_limits_ignore_orientation(width: int, height: int)
    ensures
        acceptable_dimensions(width, height) == acceptable_dimensions(height, width),
        plan_for(width, height) == plan_for(height, width),
        eligible_preview(width, height) == eligible_preview(height, width),
        acceptable_allocation(width, height) == acceptable_allocation(height, width),
{
    assert(width * height == height * width) by (nonlinear_arith);
}

/// A RAW that is developed has few enough pixels that its nominal image, one
/// sample for each pixel, is below the ceiling for a decoded buffer.
pub proof fn law_developed_raw_fits_allocation(width: int, height: int)
    requires
        acceptable_dimensions(width, height),
        plan_for(width, height) == RawDecodePlan::Develop,
    ensures
        acceptable_allocation(width, height),
{
}

/// The limits in numbers: no side is longer than 50000, a RAW of up to 36
/// megapixels is developed, a decoded buffer holds up to 200 million samples, and
/// a preview has sides of at least 1080 and up to 200 megapixels.
pub proof fn law_limits_in_numbers(width: int, height: int)
    ensures
        acceptable_dimensions(width, height) <==> 1 <= width <= 50_000 && 1 <= height <= 50_000,
        plan_for(width, height) == RawDecodePlan::Develop <==> width * height <= 36_000_000,
        plan_for(width, height) == RawDecodePlan::UseEmbeddedPreview <==> width * height
            > 36_000_000,
        acceptable_allocation(width, height) <==> 1 <= width <= 50_000 && 1 <= height <= 50_000
            && width * height <= 200_000_000,
        eligible_preview(width, height) <==> 1080 <= width && 1080 <= height && width * height
            <= 200_000_000,
{
}

/// Whatever refuses an image by its size says which image it is and how large.
pub proof fn law_refusals_tell_the_size(source_name: Seq<char>, width: nat, height: nat)
    ensures
        begins_with(
            unacceptable_dimensions_text(source_name, width, height),
            "RAW image '"@ + source_name + "'"@,
        ),
        contains(
            unacceptable_dimensions_text(source_name, width, height),
            decimal(width) + "x"@ + decimal(height),
        ),
        begins_with(
            unacceptable_allocation_text(source_name, width, height),
            "RAW image '"@ + source_name + "'"@,
        ),
        contains(
            unacceptable_allocation_text(source_name, width, height),
            decimal(width) + "x"@ + decimal(height),
        ),
        begins_with(
            too_large_to_develop_text(source_name, width, height),
            "RAW image '"@ + source_name + "'"@,
        ),
        contains(
            too_large_to_develop_text(source_name, width, height),
            decimal(width) + "x"@ + decimal(height),
        ),
{
    let head = "RAW image '"@ + source_name;
    let size = decimal(width) + "x"@ + decimal(height);
    assert("'"@ + " decoded to invalid dimensions "@ =~= "' decoded to invalid dimensions "@) by {
        reveal_strlit("'");
        reveal_strlit(" decoded to invalid dimensions ");
        reveal_strlit("' decoded to invalid dimensions ");
    }
    assert("'"@ + " is too large to decode safely: "@ =~= "' is too large to decode safely: "@) by {
        reveal_strlit("'");
        reveal_strlit(" is too large to decode safely: ");
        reveal_strlit("' is too large to decode safely: ");
    }
    assert("'"@ + " is too large to develop safely: "@
        =~= "' is too large to develop safely: "@) by {
        reveal_strlit("'");
        reveal_strlit(" is too large to develop safely: ");
        reveal_strlit("' is too large to develop safely: ");
    }
    assert("'"@ + " has invalid decoded sample dimensions "@
        =~= "' has invalid decoded sample dimensions "@) by {
        reveal_strlit("'");
        reveal_strlit(" has invalid decoded sample dimensions ");
        reveal_strlit("' has invalid decoded sample dimensions ");
    }
    assert("'"@ + " is too large to decode safely: decoded sample allocation "@
        =~= "' is too large to decode safely: decoded sample allocation "@) by {
        reveal_strlit("'");
        reveal_strlit(" is too large to decode safely: decoded sample allocation ");
        reveal_strlit("' is too large to decode safely: decoded sample allocation ");
    }
    lemma_text_holds(head, "'"@, " decoded to invalid dimensions "@, size, Seq::empty());
    assert(invalid_dimensions_text(source_name, width, height) =~= head + (("'"@
        + " decoded to invalid dimensions "@) + (size + Seq::empty())));
    lemma_text_holds(
        head,
        "'"@,
        " has invalid decoded sample dimensions "@,
        size,
        Seq::empty(),
    );
    assert(invalid_samples_text(source_name, width, height) =~= head + (("'"@
        + " has invalid decoded sample dimensions "@) + (size + Seq::empty())));
    let develop_tail = " exceeds "@ + decimal(RAW_MAX_DEVELOPMENT_PIXELS as nat) + " pixels"@;
    lemma_text_holds(head, "'"@, " is too large to develop safely: "@, size, develop_tail);
    assert(too_large_to_develop_text(source_name, width, height) =~= head + (("'"@
        + " is too large to develop safely: "@) + (size + develop_tail)));
    let samples_tail = " exceeds "@ + decimal(RAW_MAX_DECODED_SAMPLES as nat) + " samples"@;
    lemma_text_holds(
        head,
        "'"@,
        " is too large to decode safely: decoded sample allocation "@,
        size,
        samples_tail,
    );
    assert(too_many_samples_text(source_name, width, height) =~= head + (("'"@
        + " is too large to decode safely: decoded sample allocation "@) + (size
        + samples_tail)));
    let side_tail = " exceeds maximum side length "@ + decimal(RAW_MAX_DIMENSION as nat);
    let kinds = " is too large to decode safely: "@ + "dimensions"@ + " "@;
    lemma_text_holds(head, "'"@, kinds, size, side_tail);
    assert(side_limit_text(source_name, "dimensions"@, width, height) =~= head + (("'"@ + kinds) + (
    size + side_tail)));
    let sample_kinds = " is too large to decode safely: "@ + "decoded sample dimensions"@ + " "@;
    lemma_text_holds(head, "'"@, sample_kinds, size, side_tail);
    assert(side_limit_text(source_name, "decoded sample dimensions"@, width, height) =~= head + ((
    "'"@ + sample_kinds) + (size + side_tail)));
}

proof fn lemma_text_holds(
    head: Seq<char>,
    quote: Seq<char>,
    middle: Seq<char>,
    size: Seq<char>,
    tail: Seq<char>,
)
    ensures
        begins_with(head + ((quote + middle) + (size + tail)), head + quote),
        contains(head + ((quote + middle) + (size + tail)), size),
{
    let text = head + ((quote + middle) + (size + tail));
    let at = (head.len() + quote.len() + middle.len()) as int;
    assert(text.take((head + quote).len() as int) =~= head + quote);
    assert(text.subrange(at, at + size.len()) =~= size);
    assert(matches_at(text, size, at));
}

} // verus!
