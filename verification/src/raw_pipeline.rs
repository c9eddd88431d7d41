//! The decisions on the way from a camera RAW to an image.

use rawler::formats::tiff::IFD;
use rawler::rawsource::RawSource;
use vstd::prelude::*;
use vstd::string::*;

use crate::dng::{
    dimensions_of, ifd_allocation, raw_dimensions_from_ifd, validate_dng_raw_ifd_allocation,
};
use crate::dng_codec::{codecs_may_settle, validate_dng_embedded_codec_dimensions, LosslessHeader};
use crate::dng_ifd::{
    ifd_number, ifd_numbers, lookup, TAG_JPEG_BYTE_COUNT, TAG_JPEG_OFFSET,
};
use crate::error::{is_decode_error, settles_as, ImageError, ImageResult};
use crate::image_crate::{
    attempt_view, decode_preview_jpeg, may_be_srgb_of, preview_may_settle, ImageAttempt,
};
use crate::jpeg_xl_preflight::JpegXlPreflightDecoder;
use crate::orientation::{
    apply_exif_orientation, checked_orientation, exif_number, is_oriented, raw_orientation_to_exif,
    valid_orientation, RawOrientation,
};
use crate::raw_limits::{
    acceptable_dimensions, eligible_preview, plan_for, raw_decode_plan_for_dimensions,
    raw_preview_dimensions_are_eligible, size_text, too_large_to_develop_text,
    unacceptable_dimensions_text, validate_raw_dimensions, write_size, RawDecodePlan,
    RAW_MAX_DEVELOPMENT_PIXELS, RAW_PREVIEW_MAX_PIXELS, RAW_PREVIEW_MIN_SHORT_EDGE,
};
use crate::text::{decimal, decimal_text, ends_with, lemma_ends_with};
use crate::tiff_fallback::ProfiledImage;
use crate::types::{DecodedImage, Dimensions};

verus! {

// ---------------------------------------------------------------------------
// The plan
// ---------------------------------------------------------------------------

/// The plan for dimensions, or why they are refused.
pub open spec fn plan_outcome(width: usize, height: usize, source_name: Seq<char>) -> Result<
    RawDecodePlan,
    Seq<char>,
> {
    if acceptable_dimensions(width as int, height as int) {
        Ok(plan_for(width as int, height as int))
    } else {
        Err(unacceptable_dimensions_text(source_name, width as nat, height as nat))
    }
}

/// The plan for an image that may be any of several: the first that is refused
/// or too large to develop decides.
pub open spec fn candidates_outcome(
    candidates: Seq<(usize, usize)>,
    source_name: Seq<char>,
) -> Result<RawDecodePlan, Seq<char>>
    decreases candidates.len(),
{
    if candidates.len() == 0 {
        Ok(RawDecodePlan::Develop)
    } else {
        let plan = plan_outcome(candidates[0].0, candidates[0].1, source_name);
        if plan == Ok::<RawDecodePlan, Seq<char>>(RawDecodePlan::Develop) {
            candidates_outcome(candidates.drop_first(), source_name)
        } else {
            plan
        }
    }
}

/// The plan for an image that may be any of several.
pub fn plan_for_candidates(candidates: &Vec<(usize, usize)>, source_name: &str) -> (r: ImageResult<
    RawDecodePlan,
>)
    ensures
        settles_as(r, candidates_outcome(candidates@, source_name@)),
{
    let n: usize = candidates.len();
    let mut i: usize = 0;
    assert(candidates@.subrange(0, n as int) == candidates@);
    while i < n
        invariant
            n == candidates@.len(),
            i <= n,
            candidates_outcome(candidates@.subrange(i as int, n as int), source_name@)
                == candidates_outcome(candidates@, source_name@),
        decreases n - i,
    {
        let (width, height): (usize, usize) = candidates[i];
        proof {
            let rest = candidates@.subrange(i as int, n as int);
            assert(rest.drop_first() == candidates@.subrange(i + 1, n as int));
        }
        match raw_decode_plan_for_dimensions(width, height, source_name) {
            Err(error) => {
                return Err(error);
            },
            Ok(RawDecodePlan::UseEmbeddedPreview) => {
                return Ok(RawDecodePlan::UseEmbeddedPreview);
            },
            Ok(RawDecodePlan::Develop) => {},
        }
        i = i + 1;
    }
    Ok(RawDecodePlan::Develop)
}

pub open spec fn inspect_dimensions_text(text: Seq<char>) -> Seq<char> {
    "failed to inspect RAW dimensions: "@ + text
}

fn inspect_dimensions_error<T>(text: &str) -> (r: ImageResult<T>)
    ensures
        is_decode_error(r, inspect_dimensions_text(text@)),
{
    let mut message = "failed to inspect RAW dimensions: ".to_owned();
    message.append(text);
    Err(ImageError::Decode(message))
}

/// `r` may be the plan for the directory of the sensor data: where the image is
/// to be developed, its buffers have to be acceptable.
pub open spec fn ifd_may_plan<
    F: Fn(&[u8]) -> LosslessHeader,
    G: Fn(jxl_oxide::UninitializedJxlImage) -> Result<JpegXlPreflightDecoder, String>,
>(
    raw_ifd: IFD,
    width: usize,
    height: usize,
    source: RawSource,
    source_name: &str,
    inspect: F,
    try_init: G,
    r: ImageResult<RawDecodePlan>,
) -> bool {
    match plan_outcome(width, height, source_name@) {
        Err(text) => is_decode_error(r, text),
        Ok(RawDecodePlan::UseEmbeddedPreview) => r == Ok::<RawDecodePlan, ImageError>(
            RawDecodePlan::UseEmbeddedPreview,
        ),
        Ok(RawDecodePlan::Develop) => match ifd_allocation(ifd_numbers(raw_ifd), source_name@) {
            Err(text) => is_decode_error(r, text),
            Ok(()) => exists|codecs: ImageResult<()>| #[trigger]
                codecs_may_settle(raw_ifd, source, source_name, inspect, try_init, codecs) && r
                    == match codecs {
                    Ok(()) => Ok::<RawDecodePlan, ImageError>(RawDecodePlan::Develop),
                    Err(error) => Err::<RawDecodePlan, ImageError>(error),
                },
        },
    }
}

/// The plan for the directory of the sensor data.
pub fn plan_for_raw_ifd<
    F: Fn(&[u8]) -> LosslessHeader,
    G: Fn(jxl_oxide::UninitializedJxlImage) -> Result<JpegXlPreflightDecoder, String>,
>(
    raw_ifd: &IFD,
    width: usize,
    height: usize,
    source: &RawSource,
    source_name: &str,
    inspect: &F,
    try_init: &G,
) -> (r: ImageResult<RawDecodePlan>)
    requires
        forall|payload: &[u8]| inspect.requires((payload,)),
        forall|decoder: jxl_oxide::UninitializedJxlImage| try_init.requires((decoder,)),
    ensures
        ifd_may_plan(*raw_ifd, width, height, *source, source_name, *inspect, *try_init, r),
{
    match raw_decode_plan_for_dimensions(width, height, source_name) {
        Err(error) => Err(error),
        Ok(RawDecodePlan::UseEmbeddedPreview) => Ok(RawDecodePlan::UseEmbeddedPreview),
        Ok(RawDecodePlan::Develop) => match validate_dng_raw_ifd_allocation(raw_ifd, source_name) {
            Err(error) => Err(error),
            Ok(()) => {
                let codecs = validate_dng_embedded_codec_dimensions(
                    raw_ifd,
                    source,
                    source_name,
                    inspect,
                    try_init,
                );
                let ghost settled = codecs;
                assert(codecs_may_settle(
                    *raw_ifd,
                    *source,
                    source_name,
                    *inspect,
                    *try_init,
                    settled,
                ));
                match codecs {
                    Ok(()) => Ok(RawDecodePlan::Develop),
                    Err(error) => Err(error),
                }
            },
        },
    }
}

/// What a decoder says of the dimensions of its image, if anything.
pub type ReportedDimensions = Result<Option<(usize, usize)>, String>;

/// `r` may be the plan where the decoder's own word leaves it open. `found` is
/// the directory of the sensor data, if there is one, and `candidates` are the
/// dimensions of all images of the file.
pub open spec fn inspection_may_plan<
    F: Fn(&[u8]) -> LosslessHeader,
    G: Fn(jxl_oxide::UninitializedJxlImage) -> Result<JpegXlPreflightDecoder, String>,
>(
    reported: bool,
    found: Result<Option<IFD>, String>,
    candidates: Seq<(usize, usize)>,
    source: RawSource,
    source_name: &str,
    inspect: F,
    try_init: G,
    r: ImageResult<RawDecodePlan>,
) -> bool {
    match found {
        Err(text) => is_decode_error(r, inspect_dimensions_text(text@)),
        Ok(Some(raw_ifd)) if dimensions_of(ifd_numbers(raw_ifd)) is Some => {
            let (width, height) = dimensions_of(ifd_numbers(raw_ifd)).unwrap();
            ifd_may_plan(raw_ifd, width, height, source, source_name, inspect, try_init, r)
        },
        _ => if reported {
            r == Ok::<RawDecodePlan, ImageError>(RawDecodePlan::Develop)
        } else {
            settles_as(r, candidates_outcome(candidates, source_name@))
        },
    }
}

/// Decides from its dimensions what to do with a RAW, before any of its pixels
/// are decoded.
///
/// `reported` is what the decoder says of the dimensions. `find_raw_ifd` looks
/// for the directory of the sensor data, and `find_candidates` for the
/// dimensions of every image of the file; each is asked only where what came
/// before it does not decide. `inspect` looks at the header of a lossless JPEG,
/// and `try_init` makes an image of what a JPEG XL decoder holds.
pub fn validate_raw_dimensions_before_decode<
    D: FnOnce() -> Result<Option<IFD>, String>,
    C: FnOnce() -> Vec<(usize, usize)>,
    F: Fn(&[u8]) -> LosslessHeader,
    G: Fn(jxl_oxide::UninitializedJxlImage) -> Result<JpegXlPreflightDecoder, String>,
>(
    reported: ReportedDimensions,
    find_raw_ifd: D,
    find_candidates: C,
    source: &RawSource,
    source_name: &str,
    inspect: &F,
    try_init: &G,
) -> (r: ImageResult<RawDecodePlan>)
    requires
        find_raw_ifd.requires(()),
        find_candidates.requires(()),
        forall|payload: &[u8]| inspect.requires((payload,)),
        forall|decoder: jxl_oxide::UninitializedJxlImage| try_init.requires((decoder,)),
    ensures
        match reported {
            Err(text) => is_decode_error(r, inspect_dimensions_text(text@)),
            Ok(Some((width, height))) if plan_outcome(width, height, source_name@) != Ok::<
                RawDecodePlan,
                Seq<char>,
            >(RawDecodePlan::Develop) => settles_as(r, plan_outcome(width, height, source_name@)),
            Ok(dimensions) => exists|found: Result<Option<IFD>, String>, all: Vec<(usize, usize)>|
                {
                    &&& find_raw_ifd.ensures((), found)
                    &&& #[trigger] plan_asks(dimensions, found) ==> find_candidates.ensures((), all)
                    &&& #[trigger] inspection_may_plan(
                        dimensions is Some,
                        found,
                        all@,
                        *source,
                        source_name,
                        *inspect,
                        *try_init,
                        r,
                    )
                },
        },
{
    let is_reported = match reported {
        Err(text) => {
            return inspect_dimensions_error(text.as_str());
        },
        Ok(None) => false,
        Ok(Some((width, height))) => match raw_decode_plan_for_dimensions(
            width,
            height,
            source_name,
        ) {
            Err(error) => {
                return Err(error);
            },
            Ok(RawDecodePlan::UseEmbeddedPreview) => {
                return Ok(RawDecodePlan::UseEmbeddedPreview);
            },
            Ok(RawDecodePlan::Develop) => true,
        },
    };
    let found = find_raw_ifd();
    let ghost given = found;
    let ghost dimensions = reported->Ok_0;
    let ghost mut all: Vec<(usize, usize)> = arbitrary();
    let r = match found {
        Err(text) => inspect_dimensions_error(text.as_str()),
        Ok(Some(raw_ifd)) => match raw_dimensions_from_ifd(&raw_ifd) {
            Some((width, height)) => plan_for_raw_ifd(
                &raw_ifd,
                width,
                height,
                source,
                source_name,
                inspect,
                try_init,
            ),
            None => {
                if is_reported {
                    Ok(RawDecodePlan::Develop)
                } else {
                    let candidates = find_candidates();
                    proof {
                        all = candidates;
                    }
                    plan_for_candidates(&candidates, source_name)
                }
            },
        },
        Ok(None) => {
            if is_reported {
                Ok(RawDecodePlan::Develop)
            } else {
                let candidates = find_candidates();
                proof {
                    all = candidates;
                }
                plan_for_candidates(&candidates, source_name)
            }
        },
    };
    proof {
        assert(plan_asks(dimensions, given) ==> find_candidates.ensures((), all));
        assert(inspection_may_plan(
            dimensions is Some,
            given,
            all@,
            *source,
            source_name,
            *inspect,
            *try_init,
            r,
        ));
    }
    r
}

/// The dimensions of every image of the file are asked for.
pub open spec fn plan_asks(
    dimensions: Option<(usize, usize)>,
    found: Result<Option<IFD>, String>,
) -> bool {
    dimensions is None && match found {
        Err(_) => false,
        Ok(Some(raw_ifd)) => dimensions_of(ifd_numbers(raw_ifd)) is None,
        Ok(None) => true,
    }
}

/// Where the dimensions of all images of a file lead to development, each of
/// them is acceptable and small enough to develop.
pub proof fn law_developed_candidates_are_small(
    candidates: Seq<(usize, usize)>,
    source_name: Seq<char>,
)
    ensures
        candidates_outcome(candidates, source_name) == Ok::<RawDecodePlan, Seq<char>>(
            RawDecodePlan::Develop,
        ) <==> forall|i: int|
            0 <= i < candidates.len() ==> {
                let (width, height) = #[trigger] candidates[i];
                &&& acceptable_dimensions(width as int, height as int)
                &&& width * height <= RAW_MAX_DEVELOPMENT_PIXELS
            },
    decreases candidates.len(),
{
    if candidates.len() > 0 {
        let rest = candidates.drop_first();
        law_developed_candidates_are_small(rest, source_name);
        assert(forall|i: int| 0 <= i < rest.len() ==> #[trigger] rest[i] == candidates[i + 1]);
        assert(forall|i: int|
            1 <= i < candidates.len() ==> #[trigger] candidates[i] == rest[i - 1]);
        assert(candidates[0] == candidates[0]);
    }
}

// ---------------------------------------------------------------------------
// The embedded preview
// ---------------------------------------------------------------------------

/// An image that is embedded in a RAW beside the sensor data.
#[derive(Clone, Copy, Debug, PartialEq, Eq, Structural)]
pub struct RawPreview {
    pub width: u32,
    pub height: u32,
    pub is_jpeg: bool,
}

impl RawPreview {
    /// A JPEG that may stand in for the RAW.
    pub open spec fn usable(self) -> bool {
        self.is_jpeg && eligible_preview(self.width as int, self.height as int)
    }

    pub open spec fn pixels(self) -> int {
        self.width * self.height
    }

    /// The number of pixels.
    pub fn pixel_count(&self) -> (n: u64)
        ensures
            n == self.pixels(),
    {
        assert(0 <= self.width * self.height <= u32::MAX * u32::MAX) by (nonlinear_arith)
            requires
                0 <= self.width <= u32::MAX,
                0 <= self.height <= u32::MAX,
        ;
        self.width as u64 * self.height as u64
    }
}

/// A JPEG that is embedded in a RAW, and where it lies.
#[derive(Clone, Copy, Debug, PartialEq, Eq, Structural)]
pub struct EmbeddedJpeg {
    pub preview: RawPreview,
    pub offset: usize,
    pub length: usize,
}

/// The JPEG that the tags of a directory tell of, if they give its dimensions,
/// its place and its length.
pub open spec fn embedded_jpeg_of(numbers: Map<u16, usize>) -> Option<EmbeddedJpeg> {
    match (
        dimensions_of(numbers),
        lookup(numbers, TAG_JPEG_OFFSET),
        lookup(numbers, TAG_JPEG_BYTE_COUNT),
    ) {
        (Some((width, height)), Some(offset), Some(length)) => if width <= u32::MAX && height
            <= u32::MAX {
            let preview = RawPreview { width: width as u32, height: height as u32, is_jpeg: true };
            Some(EmbeddedJpeg { preview, offset, length })
        } else {
            None
        },
        _ => None,
    }
}

/// The JPEG that a directory tells of.
pub fn embedded_jpeg(ifd: &IFD) -> (r: Option<EmbeddedJpeg>)
    ensures
        r == embedded_jpeg_of(ifd_numbers(*ifd)),
{
    let dimensions = raw_dimensions_from_ifd(ifd);
    let offset = ifd_number(ifd, TAG_JPEG_OFFSET);
    let length = ifd_number(ifd, TAG_JPEG_BYTE_COUNT);
    match (dimensions, offset, length) {
        (Some((width, height)), Some(offset), Some(length)) => {
            if width <= u32::MAX as usize && height <= u32::MAX as usize {
                let preview = RawPreview {
                    width: width as u32,
                    height: height as u32,
                    is_jpeg: true,
                };
                Some(EmbeddedJpeg { preview, offset, length })
            } else {
                None
            }
        },
        _ => None,
    }
}

/// The preview at `index` is the one to show: no usable preview has more
/// pixels, and none behind it has as many.
pub open spec fn is_best_preview(previews: Seq<RawPreview>, index: int) -> bool {
    &&& 0 <= index < previews.len()
    &&& previews[index].usable()
    &&& forall|i: int|
        0 <= i < previews.len() && (#[trigger] previews[i]).usable() ==> {
            &&& previews[i].pixels() <= previews[index].pixels()
            &&& i > index ==> previews[i].pixels() < previews[index].pixels()
        }
}

/// The preview to show, if there is one.
pub fn select_raw_preview(previews: &Vec<RawPreview>) -> (r: Option<usize>)
    ensures
        match r {
            Some(index) => is_best_preview(previews@, index as int),
            None => forall|i: int| 0 <= i < previews@.len() ==> !(#[trigger] previews@[i]).usable(),
        },
{
    let mut best: Option<usize> = None;
    let mut i: usize = 0;
    while i < previews.len()
        invariant
            i <= previews@.len(),
            match best {
                Some(index) => is_best_preview(previews@.subrange(0, i as int), index as int),
                None => forall|j: int| 0 <= j < i ==> !(#[trigger] previews@[j]).usable(),
            },
        decreases previews@.len() - i,
    {
        let preview = previews[i];
        let ghost upto = previews@.subrange(0, i as int);
        let ghost more = previews@.subrange(0, i + 1);
        assert(forall|j: int| 0 <= j < i ==> upto[j] == previews@[j]);
        assert(more == upto.push(preview));
        let usable = preview.is_jpeg && raw_preview_dimensions_are_eligible(
            preview.width,
            preview.height,
        );
        if usable {
            match best {
                Some(index) => {
                    if preview.pixel_count() >= previews[index].pixel_count() {
                        best = Some(i);
                    }
                },
                None => {
                    best = Some(i);
                },
            }
        }
        assert(match best {
            Some(index) => is_best_preview(more, index as int),
            None => true,
        });
        i = i + 1;
    }
    assert(previews@.subrange(0, i as int) == previews@);
    best
}

/// There is one preview to show, and no other.
pub proof fn law_best_preview_is_unique(previews: Seq<RawPreview>, a: int, b: int)
    requires
        is_best_preview(previews, a),
        is_best_preview(previews, b),
    ensures
        a == b,
{
}

/// The sizes of previews, one behind the other.
pub open spec fn preview_sizes(previews: Seq<RawPreview>) -> Seq<char>
    decreases previews.len(),
{
    if previews.len() == 0 {
        Seq::empty()
    } else {
        let last = previews.last();
        let size = size_text(last.width as nat, last.height as nat);
        if previews.len() == 1 {
            size
        } else {
            preview_sizes(previews.drop_last()) + ", "@ + size
        }
    }
}

pub open spec fn no_preview_text(source_name: Seq<char>, previews: Seq<RawPreview>) -> Seq<char> {
    "RAW image '"@ + source_name + "' exceeds "@ + decimal(RAW_MAX_DEVELOPMENT_PIXELS as nat)
        + " pixels and has no usable embedded JPEG preview (requires short edge >= "@ + decimal(
        RAW_PREVIEW_MIN_SHORT_EDGE as nat,
    ) + "px and <= "@ + decimal(RAW_PREVIEW_MAX_PIXELS as nat) + " pixels; found: "@ + (
    if previews.len() == 0 {
        "none"@
    } else {
        preview_sizes(previews)
    }) + ")"@
}

fn write_preview_sizes(previews: &Vec<RawPreview>) -> (text: String)
    ensures
        text@ == preview_sizes(previews@),
{
    let mut text = String::new();
    let mut i: usize = 0;
    assert(text@ =~= Seq::<char>::empty());
    while i < previews.len()
        invariant
            i <= previews@.len(),
            text@ == preview_sizes(previews@.subrange(0, i as int)),
        decreases previews@.len() - i,
    {
        let ghost more = previews@.subrange(0, i + 1);
        assert(more.drop_last() == previews@.subrange(0, i as int));
        let size = write_size(previews[i].width as usize, previews[i].height as usize);
        if i == 0 {
            text = size;
        } else {
            text.append(", ");
            text.append(size.as_str());
        }
        i = i + 1;
    }
    assert(previews@.subrange(0, i as int) == previews@);
    text
}

fn no_preview_error<T>(source_name: &str, previews: &Vec<RawPreview>) -> (r: ImageResult<T>)
    ensures
        is_decode_error(r, no_preview_text(source_name@, previews@)),
{
    let available = if previews.len() == 0 {
        "none".to_owned()
    } else {
        write_preview_sizes(previews)
    };
    let mut message = "RAW image '".to_owned();
    message.append(source_name);
    message.append("' exceeds ");
    message.append(decimal_text(RAW_MAX_DEVELOPMENT_PIXELS).as_str());
    message.append(" pixels and has no usable embedded JPEG preview (requires short edge >= ");
    message.append(decimal_text(RAW_PREVIEW_MIN_SHORT_EDGE as u128).as_str());
    message.append("px and <= ");
    message.append(decimal_text(RAW_PREVIEW_MAX_PIXELS as u128).as_str());
    message.append(" pixels; found: ");
    message.append(available.as_str());
    message.append(")");
    Err(ImageError::Decode(message))
}

/// Working space of the preview's decoder beside four bytes for each pixel.
pub const RAW_PREVIEW_WORKING_BYTES: u64 = 16_777_216;

/// What the decoder of a preview may use.
#[derive(Clone, Copy, Debug, PartialEq, Eq, Structural)]
pub struct PreviewBudget {
    pub max_image_width: u32,
    pub max_image_height: u32,
    pub max_alloc: u64,
}

/// What the decoder of a preview may use: no more than the dimensions that the
/// preview declares, and memory in proportion.
pub open spec fn budget_for(preview: RawPreview) -> PreviewBudget {
    let bytes = 4 * preview.pixels() + RAW_PREVIEW_WORKING_BYTES;
    PreviewBudget {
        max_image_width: preview.width,
        max_image_height: preview.height,
        max_alloc: if bytes > u64::MAX {
            u64::MAX
        } else {
            bytes as u64
        },
    }
}

/// What the decoder of a preview may use.
pub fn preview_budget(preview: &RawPreview) -> (budget: PreviewBudget)
    ensures
        budget == budget_for(*preview),
{
    let pixels: u64 = preview.pixel_count();
    let max_alloc: u64 = if pixels > (u64::MAX - RAW_PREVIEW_WORKING_BYTES) / 4 {
        u64::MAX
    } else {
        4 * pixels + RAW_PREVIEW_WORKING_BYTES
    };
    PreviewBudget { max_image_width: preview.width, max_image_height: preview.height, max_alloc }
}

/// What comes of loading a preview.
pub enum PreviewLoad {
    /// Its bytes cannot be read; the text says why.
    Unreadable(String),
    /// Its bytes cannot be decoded; the text says why.
    Undecodable(String),
    Decoded(DecodedImage),
}

pub open spec fn preview_text(
    head: Seq<char>,
    preview: RawPreview,
    source_name: Seq<char>,
    text: Seq<char>,
) -> Seq<char> {
    head + size_text(preview.width as nat, preview.height as nat) + " for '"@ + source_name + "': "@
        + text
}

fn preview_error<T>(head: &str, preview: &RawPreview, source_name: &str, text: &str) -> (r:
    ImageResult<T>)
    ensures
        is_decode_error(r, preview_text(head@, *preview, source_name@, text@)),
{
    let mut message = head.to_owned();
    message.append(write_size(preview.width as usize, preview.height as usize).as_str());
    message.append(" for '");
    message.append(source_name);
    message.append("': ");
    message.append(text);
    Err(ImageError::Decode(message))
}

pub open spec fn ineligible_text(source_name: Seq<char>, dimensions: Dimensions) -> Seq<char> {
    "embedded RAW preview for '"@ + source_name + "' decoded to ineligible dimensions "@
        + size_text(dimensions.width as nat, dimensions.height as nat)
}

/// `r` is what comes of a preview that was loaded as `load`, in a RAW with the
/// given orientation.
pub open spec fn preview_settles(
    preview: RawPreview,
    load: PreviewLoad,
    orientation: Option<u32>,
    source_name: Seq<char>,
    r: ImageResult<DecodedImage>,
) -> bool {
    match load {
        PreviewLoad::Unreadable(text) => is_decode_error(
            r,
            preview_text("failed to read embedded RAW preview "@, preview, source_name, text@),
        ),
        PreviewLoad::Undecodable(text) => is_decode_error(
            r,
            preview_text("failed to decode embedded RAW preview "@, preview, source_name, text@),
        ),
        PreviewLoad::Decoded(image) => if eligible_preview(
            image.dimensions.width as int,
            image.dimensions.height as int,
        ) {
            r matches Ok(shown) && shows_oriented(shown, image, valid_orientation(orientation))
        } else {
            is_decode_error(r, ineligible_text(source_name, image.dimensions))
        },
    }
}

/// `shown` is `image`, turned if there is an orientation.
pub open spec fn shows_oriented(
    shown: DecodedImage,
    image: DecodedImage,
    orientation: Option<u8>,
) -> bool {
    match orientation {
        Some(orientation) => is_oriented(shown, image, orientation),
        None => shown == image,
    }
}

/// Turns an image if there is an orientation.
pub fn orient(image: DecodedImage, orientation: Option<u8>) -> (shown: DecodedImage)
    requires
        image.well_formed(),
    ensures
        shows_oriented(shown, image, orientation),
        shown.well_formed(),
{
    match orientation {
        Some(orientation) => apply_exif_orientation(image, orientation),
        None => image,
    }
}

/// What comes of a preview that was loaded.
pub fn settle_raw_preview(
    preview: &RawPreview,
    load: PreviewLoad,
    orientation: Option<u32>,
    source_name: &str,
) -> (r: ImageResult<DecodedImage>)
    requires
        load matches PreviewLoad::Decoded(image) ==> image.well_formed(),
    ensures
        preview_settles(*preview, load, orientation, source_name@, r),
        r matches Ok(shown) ==> shown.well_formed(),
{
    match load {
        PreviewLoad::Unreadable(text) => preview_error(
            "failed to read embedded RAW preview ",
            preview,
            source_name,
            text.as_str(),
        ),
        PreviewLoad::Undecodable(text) => preview_error(
            "failed to decode embedded RAW preview ",
            preview,
            source_name,
            text.as_str(),
        ),
        PreviewLoad::Decoded(image) => {
            let Dimensions { width, height } = image.dimensions;
            if !raw_preview_dimensions_are_eligible(width, height) {
                let mut message = "embedded RAW preview for '".to_owned();
                message.append(source_name);
                message.append("' decoded to ineligible dimensions ");
                message.append(write_size(width as usize, height as usize).as_str());
                return Err(ImageError::Decode(message));
            }
            Ok(orient(image, checked_orientation(orientation)))
        },
    }
}

/// `load` may be what comes of loading a preview whose bytes were read as
/// `encoded`: they are decoded by `decode_jpeg`, within the budget, and the
/// image is converted to sRGB.
pub open spec fn preview_may_load<J: FnOnce(&[u8], PreviewBudget) -> ImageAttempt>(
    encoded: Result<Vec<u8>, String>,
    budget: PreviewBudget,
    decode_jpeg: J,
    load: PreviewLoad,
) -> bool {
    match encoded {
        Err(text) => load == PreviewLoad::Unreadable(text),
        Ok(bytes) => exists|
            image_bytes: &[u8],
            attempt: ImageAttempt,
            decoded: Result<DecodedImage, String>,
        |
            {
                &&& image_bytes@ == bytes@
                &&& #[trigger] decode_jpeg.ensures((image_bytes, budget), attempt)
                &&& #[trigger] preview_may_settle(attempt_view(attempt), decoded)
                &&& load == match decoded {
                    Ok(image) => PreviewLoad::Decoded(image),
                    Err(text) => PreviewLoad::Undecodable(text),
                }
            },
    }
}

/// Decodes a preview whose bytes were read, within a budget, to sRGB.
pub fn load_raw_preview<J: FnOnce(&[u8], PreviewBudget) -> ImageAttempt>(
    encoded: Result<Vec<u8>, String>,
    budget: PreviewBudget,
    decode_jpeg: J,
) -> (load: PreviewLoad)
    requires
        forall|image_bytes: &[u8]| decode_jpeg.requires((image_bytes, budget)),
        forall|image_bytes: &[u8], decoded: ProfiledImage| #[trigger]
            decode_jpeg.ensures((image_bytes, budget), Ok::<ProfiledImage, String>(decoded))
                ==> decoded.image.well_formed(),
    ensures
        preview_may_load(encoded, budget, decode_jpeg, load),
        load matches PreviewLoad::Decoded(image) ==> image.well_formed(),
{
    match encoded {
        Err(text) => PreviewLoad::Unreadable(text),
        Ok(bytes) => {
            let image_bytes = bytes.as_slice();
            let decoded = decode_preview_jpeg(image_bytes, budget, decode_jpeg);
            let ghost given = decoded;
            proof {
                let attempt = choose|attempt: ImageAttempt| #[trigger]
                    decode_jpeg.ensures((image_bytes, budget), attempt) && preview_may_settle(
                        attempt_view(attempt),
                        given,
                    );
                assert(decode_jpeg.ensures((image_bytes, budget), attempt));
                assert(preview_may_settle(attempt_view(attempt), given));
            }
            match decoded {
                Ok(image) => PreviewLoad::Decoded(image),
                Err(text) => PreviewLoad::Undecodable(text),
            }
        },
    }
}

/// Shows the largest embedded JPEG that may stand in for a RAW.
///
/// `previews` lists the embedded images. `read_preview` reads the bytes of one
/// of them, `decode_jpeg` decodes them, and `read_orientation` reads the
/// orientation from the metadata of the RAW.
pub fn decode_best_raw_preview<
    P: FnOnce(usize) -> Result<Vec<u8>, String>,
    J: FnOnce(&[u8], PreviewBudget) -> ImageAttempt,
    M: FnOnce() -> Option<u32>,
>(
    previews: Result<Vec<RawPreview>, String>,
    read_preview: P,
    decode_jpeg: J,
    read_orientation: M,
    source_name: &str,
) -> (r: ImageResult<DecodedImage>)
    requires
        forall|index: usize| read_preview.requires((index,)),
        forall|image_bytes: &[u8], budget: PreviewBudget|
            decode_jpeg.requires((image_bytes, budget)),
        forall|image_bytes: &[u8], budget: PreviewBudget, decoded: ProfiledImage| #[trigger]
            decode_jpeg.ensures((image_bytes, budget), Ok::<ProfiledImage, String>(decoded))
                ==> decoded.image.well_formed(),
        read_orientation.requires(()),
    ensures
        match previews {
            Err(text) => is_decode_error(
                r,
                "failed to inspect embedded RAW previews for '"@ + source_name@ + "': "@ + text@,
            ),
            Ok(list) => {
                ||| (forall|i: int| 0 <= i < list@.len() ==> !(#[trigger] list@[i]).usable())
                    && is_decode_error(r, no_preview_text(source_name@, list@))
                ||| exists|
                    index: usize,
                    encoded: Result<Vec<u8>, String>,
                    loaded: PreviewLoad,
                    orientation: Option<u32>,
                |
                    {
                        &&& is_best_preview(list@, index as int)
                        &&& read_preview.ensures((index,), encoded)
                        &&& #[trigger] preview_may_load(
                            encoded,
                            budget_for(list@[index as int]),
                            decode_jpeg,
                            loaded,
                        )
                        &&& (loaded is Decoded && r is Ok) ==> read_orientation.ensures(
                            (),
                            orientation,
                        )
                        &&& #[trigger] preview_settles(
                            list@[index as int],
                            loaded,
                            orientation,
                            source_name@,
                            r,
                        )
                    }
            },
        },
        r matches Ok(shown) ==> shown.well_formed(),
{
    let list = match previews {
        Ok(list) => list,
        Err(text) => {
            let mut message = "failed to inspect embedded RAW previews for '".to_owned();
            message.append(source_name);
            message.append("': ");
            message.append(text.as_str());
            return Err(ImageError::Decode(message));
        },
    };
    let index: usize = match select_raw_preview(&list) {
        Some(index) => index,
        None => {
            return no_preview_error(source_name, &list);
        },
    };
    let preview = list[index];
    let encoded = read_preview(index);
    let ghost read = encoded;
    let loaded = load_raw_preview(encoded, preview_budget(&preview), decode_jpeg);
    let ghost given = loaded;
    let eligible = match &loaded {
        PreviewLoad::Decoded(image) => raw_preview_dimensions_are_eligible(
            image.dimensions.width,
            image.dimensions.height,
        ),
        _ => false,
    };
    let orientation: Option<u32> = if eligible {
        read_orientation()
    } else {
        None
    };
    let r = settle_raw_preview(&preview, loaded, orientation, source_name);
    proof {
        let budget = budget_for(list@[index as int]);
        assert(read_preview.ensures((index,), read));
        assert(preview_may_load(read, budget, decode_jpeg, given));
        assert(preview_settles(list@[index as int], given, orientation, source_name@, r));
    }
    r
}

// ---------------------------------------------------------------------------
// The decoder
// ---------------------------------------------------------------------------

/// What comes of an input that the RAW decoder is given.
///
/// A rejection is no error: the caller decides whether another decoder is
/// tried.
#[derive(Debug)]
pub enum RawDecodeOutcome {
    /// Decoded and oriented.
    Decoded(DecodedImage),
    /// The decoder does not know the input; the text says more.
    ProbeRejected(String),
}

/// Decoded sensor data that is not developed yet.
pub struct SensorImage<T> {
    pub width: usize,
    pub height: usize,
    /// Most decoders leave it as `Normal`. What the metadata says comes first.
    pub orientation: RawOrientation,
    pub data: T,
}

pub open spec fn rejected_text(text: Seq<char>) -> Seq<char> {
    "input not recognized as a supported camera RAW: "@ + text
}

/// Whether an image of these dimensions may be developed, or why not.
pub open spec fn development_check(width: nat, height: nat, source_name: Seq<char>) -> Result<
    (),
    Seq<char>,
> {
    if !acceptable_dimensions(width as int, height as int) {
        Err(unacceptable_dimensions_text(source_name, width, height))
    } else if width * height > RAW_MAX_DEVELOPMENT_PIXELS {
        Err(too_large_to_develop_text(source_name, width, height))
    } else {
        Ok(())
    }
}

/// The orientation of a RAW: what the metadata says, else what the decoder
/// says.
pub open spec fn raw_orientation(metadata: Option<u32>, sensor: RawOrientation) -> Option<u8> {
    match valid_orientation(metadata) {
        Some(orientation) => Some(orientation),
        None => exif_number(sensor),
    }
}

/// `r` is what comes of sensor data that was developed as `developed`.
pub open spec fn development_settles(
    developed: Result<Option<DecodedImage>, String>,
    metadata: Option<u32>,
    sensor: RawOrientation,
    source_name: Seq<char>,
    r: ImageResult<RawDecodeOutcome>,
) -> bool {
    match developed {
        Err(text) => is_decode_error(r, "failed to develop RAW image: "@ + text@),
        Ok(None) => is_decode_error(
            r,
            "failed to materialize developed RAW image for '"@ + source_name + "'"@,
        ),
        Ok(Some(image)) => match development_check(
            image.dimensions.width as nat,
            image.dimensions.height as nat,
            source_name,
        ) {
            Err(text) => is_decode_error(r, text),
            Ok(()) => r matches Ok(RawDecodeOutcome::Decoded(shown)) && shows_oriented(
                shown,
                image,
                raw_orientation(metadata, sensor),
            ),
        },
    }
}

/// What comes of sensor data that was developed.
pub fn settle_development(
    developed: Result<Option<DecodedImage>, String>,
    metadata: Option<u32>,
    sensor: RawOrientation,
    source_name: &str,
) -> (r: ImageResult<RawDecodeOutcome>)
    requires
        developed matches Ok(Some(image)) ==> image.well_formed(),
    ensures
        development_settles(developed, metadata, sensor, source_name@, r),
        r matches Ok(outcome) ==> outcome matches RawDecodeOutcome::Decoded(shown)
            && shown.well_formed(),
{
    match developed {
        Err(text) => {
            let mut message = "failed to develop RAW image: ".to_owned();
            message.append(text.as_str());
            Err(ImageError::Decode(message))
        },
        Ok(None) => {
            let mut message = "failed to materialize developed RAW image for '".to_owned();
            message.append(source_name);
            message.append("'");
            Err(ImageError::Decode(message))
        },
        Ok(Some(image)) => {
            let Dimensions { width, height } = image.dimensions;
            match validate_raw_dimensions(width as usize, height as usize, source_name) {
                Err(error) => {
                    return Err(error);
                },
                Ok(()) => {},
            }
            let orientation = match checked_orientation(metadata) {
                Some(orientation) => Some(orientation),
                None => raw_orientation_to_exif(sensor),
            };
            Ok(RawDecodeOutcome::Decoded(orient(image, orientation)))
        },
    }
}

/// `r` may be what comes of an input that is to be developed.
pub open spec fn may_develop<
    T,
    R: FnOnce() -> Result<SensorImage<T>, String>,
    G: FnOnce(T) -> Result<Option<DecodedImage>, String>,
    M: FnOnce() -> Option<u32>,
>(
    decode_sensor: R,
    develop: G,
    read_orientation: M,
    source_name: Seq<char>,
    r: ImageResult<RawDecodeOutcome>,
) -> bool {
    exists|sensor: Result<SensorImage<T>, String>| #[trigger]
        decode_sensor.ensures((), sensor) && match sensor {
            Err(text) => is_decode_error(r, "failed to decode RAW image: "@ + text@),
            Ok(image) => match development_check(
                image.width as nat,
                image.height as nat,
                source_name,
            ) {
                Err(text) => is_decode_error(r, text),
                Ok(()) => exists|
                    developed: Result<Option<DecodedImage>, String>,
                    metadata: Option<u32>,
                |
                    {
                        &&& develop.ensures((image.data,), developed)
                        &&& r is Ok ==> read_orientation.ensures((), metadata)
                        &&& #[trigger] development_settles(
                            developed,
                            metadata,
                            image.orientation,
                            source_name,
                            r,
                        )
                    },
            },
        }
}

fn develop_raw<
    T,
    R: FnOnce() -> Result<SensorImage<T>, String>,
    G: FnOnce(T) -> Result<Option<DecodedImage>, String>,
    M: FnOnce() -> Option<u32>,
>(decode_sensor: R, develop: G, read_orientation: M, source_name: &str) -> (r: ImageResult<
    RawDecodeOutcome,
>)
    requires
        decode_sensor.requires(()),
        forall|data: T| develop.requires((data,)),
        forall|data: T, image: DecodedImage| #[trigger]
            develop.ensures(
                (data,),
                Ok::<Option<DecodedImage>, String>(Some(image)),
            ) ==> image.well_formed(),
        read_orientation.requires(()),
    ensures
        may_develop(decode_sensor, develop, read_orientation, source_name@, r),
        r matches Ok(outcome) ==> outcome matches RawDecodeOutcome::Decoded(shown)
            && shown.well_formed(),
{
    let sensor = decode_sensor();
    let ghost given = sensor;
    assert(decode_sensor.ensures((), given));
    let sensor = match sensor {
        Ok(sensor) => sensor,
        Err(text) => {
            let mut message = "failed to decode RAW image: ".to_owned();
            message.append(text.as_str());
            return Err(ImageError::Decode(message));
        },
    };
    match validate_raw_dimensions(sensor.width, sensor.height, source_name) {
        Err(error) => {
            return Err(error);
        },
        Ok(()) => {},
    }
    let orientation = sensor.orientation;
    let developed = develop(sensor.data);
    let ghost result = developed;
    let fits = match &developed {
        Ok(Some(image)) => validate_raw_dimensions(
            image.dimensions.width as usize,
            image.dimensions.height as usize,
            source_name,
        ).is_ok(),
        _ => false,
    };
    let metadata: Option<u32> = if fits {
        read_orientation()
    } else {
        None
    };
    let r = settle_development(developed, metadata, orientation, source_name);
    assert(development_settles(result, metadata, orientation, source_name@, r));
    r
}

/// Decodes and develops a camera RAW, or shows an embedded preview of one that
/// is too large to develop. The image is oriented.
///
/// `probe` tells whether the RAW decoder knows the input. `make_plan` decides
/// what to do with it, `show_preview` decodes a preview, `decode_sensor` decodes
/// the sensor data, `develop` makes an image of them, and `read_orientation`
/// reads the orientation from the metadata. Each is asked only when its turn
/// comes.
pub fn decode_raw_source_to_dynamic_image<
    T,
    P: FnOnce() -> ImageResult<RawDecodePlan>,
    V: FnOnce() -> ImageResult<DecodedImage>,
    R: FnOnce() -> Result<SensorImage<T>, String>,
    G: FnOnce(T) -> Result<Option<DecodedImage>, String>,
    M: FnOnce() -> Option<u32>,
>(
    probe: Result<(), String>,
    make_plan: P,
    show_preview: V,
    decode_sensor: R,
    develop: G,
    read_orientation: M,
    source_name: &str,
) -> (r: ImageResult<RawDecodeOutcome>)
    requires
        make_plan.requires(()),
        show_preview.requires(()),
        forall|image: DecodedImage| #[trigger]
            show_preview.ensures((), Ok::<DecodedImage, ImageError>(image)) ==> image.well_formed(),
        decode_sensor.requires(()),
        forall|data: T| develop.requires((data,)),
        forall|data: T, image: DecodedImage| #[trigger]
            develop.ensures(
                (data,),
                Ok::<Option<DecodedImage>, String>(Some(image)),
            ) ==> image.well_formed(),
        read_orientation.requires(()),
    ensures
        match probe {
            Err(text) => r matches Ok(RawDecodeOutcome::ProbeRejected(message)) && message@
                == rejected_text(text@),
            Ok(()) => exists|plan: ImageResult<RawDecodePlan>| #[trigger]
                make_plan.ensures((), plan) && match plan {
                    Err(error) => r == Err::<RawDecodeOutcome, ImageError>(error),
                    Ok(RawDecodePlan::UseEmbeddedPreview) => exists|
                        preview: ImageResult<DecodedImage>,
                    | #[trigger]
                        show_preview.ensures((), preview) && r == match preview {
                            Ok(image) => Ok::<RawDecodeOutcome, ImageError>(
                                RawDecodeOutcome::Decoded(image),
                            ),
                            Err(error) => Err::<RawDecodeOutcome, ImageError>(error),
                        },
                    Ok(RawDecodePlan::Develop) => may_develop(
                        decode_sensor,
                        develop,
                        read_orientation,
                        source_name@,
                        r,
                    ),
                },
        },
        r matches Ok(RawDecodeOutcome::Decoded(shown)) ==> shown.well_formed(),
{
    match probe {
        Err(text) => {
            let mut message = "input not recognized as a supported camera RAW: ".to_owned();
            message.append(text.as_str());
            return Ok(RawDecodeOutcome::ProbeRejected(message));
        },
        Ok(()) => {},
    }
    let plan = make_plan();
    let ghost planned = plan;
    assert(make_plan.ensures((), planned));
    match plan {
        Err(error) => Err(error),
        Ok(RawDecodePlan::UseEmbeddedPreview) => {
            let preview = show_preview();
            let ghost given = preview;
            assert(show_preview.ensures((), given));
            match preview {
                Ok(image) => Ok(RawDecodeOutcome::Decoded(image)),
                Err(error) => Err(error),
            }
        },
        Ok(RawDecodePlan::Develop) => develop_raw(
            decode_sensor,
            develop,
            read_orientation,
            source_name,
        ),
    }
}

pub open spec fn panicked_text(source_name: Seq<char>, message: Seq<char>) -> Seq<char> {
    "RAW decoder panicked while decoding '"@ + source_name + "': "@ + message
}

/// The error that stands for a panic of the RAW decoder.
pub fn raw_decode_panicked(source_name: &str, panic_message: &str) -> (error: ImageError)
    ensures
        error matches ImageError::Decode(text) && text@ == panicked_text(
            source_name@,
            panic_message@,
        ),
{
    let mut message = "RAW decoder panicked while decoding '".to_owned();
    message.append(source_name);
    message.append("': ");
    message.append(panic_message);
    ImageError::Decode(message)
}

/// A developed RAW keeps to the limits of development, whichever way it is
/// turned.
pub proof fn law_developed_image_is_bounded(
    developed: Result<Option<DecodedImage>, String>,
    metadata: Option<u32>,
    sensor: RawOrientation,
    source_name: Seq<char>,
    r: ImageResult<RawDecodeOutcome>,
)
    requires
        development_settles(developed, metadata, sensor, source_name, r),
    ensures
        r matches Ok(RawDecodeOutcome::Decoded(shown)) ==> {
            let width = shown.dimensions.width as int;
            let height = shown.dimensions.height as int;
            acceptable_dimensions(width, height) && width * height <= RAW_MAX_DEVELOPMENT_PIXELS
        },
{
    if let Ok(Some(image)) = developed {
        assert(image.dimensions.width * image.dimensions.height == image.dimensions.height
            * image.dimensions.width) by (nonlinear_arith);
    }
}

/// A preview that is shown is large enough and not too large, whichever way it
/// is turned.
pub proof fn law_shown_preview_is_eligible(
    preview: RawPreview,
    load: PreviewLoad,
    orientation: Option<u32>,
    source_name: Seq<char>,
    r: ImageResult<DecodedImage>,
)
    requires
        preview_settles(preview, load, orientation, source_name, r),
    ensures
        r matches Ok(shown) ==> eligible_preview(
            shown.dimensions.width as int,
            shown.dimensions.height as int,
        ),
{
    if let PreviewLoad::Decoded(image) = load {
        assert(image.dimensions.width * image.dimensions.height == image.dimensions.height
            * image.dimensions.width) by (nonlinear_arith);
    }
}

/// An orientation in the metadata of a RAW that means something is the one that
/// the developed image is shown in. What the decoder says of the orientation
/// then changes nothing.
pub proof fn law_metadata_orientation_comes_first(
    image: DecodedImage,
    metadata: u32,
    sensor: RawOrientation,
    other_sensor: RawOrientation,
    source_name: Seq<char>,
    r: ImageResult<RawDecodeOutcome>,
    other: ImageResult<RawDecodeOutcome>,
)
    requires
        1 <= metadata <= 8,
        development_settles(Ok(Some(image)), Some(metadata), sensor, source_name, r),
        development_settles(Ok(Some(image)), Some(metadata), other_sensor, source_name, other),
    ensures
        r is Ok <==> other is Ok,
        r matches Ok(RawDecodeOutcome::Decoded(shown)) ==> {
            &&& is_oriented(shown, image, metadata as u8)
            &&& other matches Ok(RawDecodeOutcome::Decoded(other_shown)) && {
                &&& shown.dimensions == other_shown.dimensions
                &&& forall|x: int, y: int| #[trigger]
                    shown.has(x, y) ==> shown.pixel_at(x, y) == other_shown.pixel_at(x, y)
            }
        },
{
    if let Ok(RawDecodeOutcome::Decoded(shown)) = r {
        if let Ok(RawDecodeOutcome::Decoded(other_shown)) = other {
            assert forall|x: int, y: int| #[trigger] shown.has(x, y) implies shown.pixel_at(x, y)
                == other_shown.pixel_at(x, y) by {
                assert(other_shown.has(x, y));
            }
        }
    }
}

/// Where the metadata of a RAW say nothing of its orientation, or nothing that
/// means anything, what the decoder says counts. Where that says nothing either,
/// the developed image is shown as it is.
pub proof fn law_decoder_orientation_comes_second(
    image: DecodedImage,
    metadata: Option<u32>,
    sensor: RawOrientation,
    source_name: Seq<char>,
    r: ImageResult<RawDecodeOutcome>,
)
    requires
        metadata matches Some(n) ==> n == 0 || n > 8,
        development_settles(Ok(Some(image)), metadata, sensor, source_name, r),
    ensures
        r matches Ok(RawDecodeOutcome::Decoded(shown)) ==> {
            &&& sensor == RawOrientation::Unknown ==> shown == image
            &&& sensor != RawOrientation::Unknown ==> exif_number(sensor) is Some && is_oriented(
                shown,
                image,
                exif_number(sensor).unwrap(),
            )
        },
{
}

/// A RAW is developed if and only if there is an image of it, each side is
/// from 1 to 50000, and it has no more than 36 megapixels.
pub proof fn law_sound_images_are_developed(
    developed: Result<Option<DecodedImage>, String>,
    metadata: Option<u32>,
    sensor: RawOrientation,
    source_name: Seq<char>,
    r: ImageResult<RawDecodeOutcome>,
)
    requires
        development_settles(developed, metadata, sensor, source_name, r),
    ensures
        r is Ok <==> (developed matches Ok(Some(image)) && {
            let width = image.dimensions.width as int;
            let height = image.dimensions.height as int;
            1 <= width <= 50_000 && 1 <= height <= 50_000 && width * height <= 36_000_000
        }),
        r matches Ok(outcome) ==> outcome is Decoded,
        developed matches Err(text) ==> (r matches Err(error) && ends_with(error.text(), text@)),
{
    if let Err(text) = developed {
        lemma_ends_with("failed to develop RAW image: "@, text@);
    }
}

/// The plan for a RAW goes by its pixels: up to 36 megapixels it is developed,
/// beyond them its preview is shown, and with a side of 0 or of more than 50000
/// it is refused.
pub proof fn law_plan_goes_by_the_pixels(width: usize, height: usize, source_name: Seq<char>)
    ensures
        ({
            let sound = 1 <= width <= 50_000 && 1 <= height <= 50_000;
            let plan = plan_outcome(width, height, source_name);
            &&& plan is Ok <==> sound
            &&& sound && width * height <= 36_000_000 ==> plan == Ok::<RawDecodePlan, Seq<char>>(
                RawDecodePlan::Develop,
            )
            &&& sound && width * height > 36_000_000 ==> plan == Ok::<RawDecodePlan, Seq<char>>(
                RawDecodePlan::UseEmbeddedPreview,
            )
        }),
{
}

/// The first image of a file that cannot be developed decides for the file,
/// whatever images stand behind it.
pub proof fn law_first_hard_candidate_decides(
    candidates: Seq<(usize, usize)>,
    i: int,
    source_name: Seq<char>,
)
    requires
        0 <= i < candidates.len(),
        forall|j: int|
            0 <= j < i ==> {
                let (width, height) = #[trigger] candidates[j];
                1 <= width <= 50_000 && 1 <= height <= 50_000 && width * height <= 36_000_000
            },
        ({
            let (width, height) = candidates[i];
            !(1 <= width <= 50_000 && 1 <= height <= 50_000 && width * height <= 36_000_000)
        }),
    ensures
        candidates_outcome(candidates, source_name) == plan_outcome(
            candidates[i].0,
            candidates[i].1,
            source_name,
        ),
    decreases i,
{
    law_plan_goes_by_the_pixels(candidates[i].0, candidates[i].1, source_name);
    law_plan_goes_by_the_pixels(candidates[0].0, candidates[0].1, source_name);
    if i > 0 {
        let rest = candidates.drop_first();
        assert(candidates[0] == candidates[0]);
        assert forall|j: int| 0 <= j < i - 1 implies {
            let (width, height) = #[trigger] rest[j];
            1 <= width <= 50_000 && 1 <= height <= 50_000 && width * height <= 36_000_000
        } by {
            let pair = candidates[j + 1];
            assert(rest[j] == pair);
        }
        assert(rest[i - 1] == candidates[i]);
        law_first_hard_candidate_decides(rest, i - 1, source_name);
    }
}

/// A RAW is developed by its directory only where its pixels, the buffer for the
/// whole image and every compressed payload were accepted. A RAW beyond the
/// pixels for development needs none of these: its preview is shown.
pub proof fn law_developed_directory_passed_every_check<
    F: Fn(&[u8]) -> LosslessHeader,
    G: Fn(jxl_oxide::UninitializedJxlImage) -> Result<JpegXlPreflightDecoder, String>,
>(
    raw_ifd: IFD,
    width: usize,
    height: usize,
    source: RawSource,
    source_name: &str,
    inspect: F,
    try_init: G,
    r: ImageResult<RawDecodePlan>,
)
    requires
        ifd_may_plan(raw_ifd, width, height, source, source_name, inspect, try_init, r),
    ensures
        r == Ok::<RawDecodePlan, ImageError>(RawDecodePlan::Develop) ==> {
            &&& 1 <= width <= 50_000
            &&& 1 <= height <= 50_000
            &&& width * height <= 36_000_000
            &&& ifd_allocation(ifd_numbers(raw_ifd), source_name@) is Ok
            &&& codecs_may_settle(raw_ifd, source, source_name, inspect, try_init, Ok(()))
        },
        1 <= width <= 50_000 && 1 <= height <= 50_000 && width * height > 36_000_000 ==> r == Ok::<
            RawDecodePlan,
            ImageError,
        >(RawDecodePlan::UseEmbeddedPreview),
        r == Ok::<RawDecodePlan, ImageError>(RawDecodePlan::UseEmbeddedPreview) ==> width * height
            > 36_000_000,
{
    law_plan_goes_by_the_pixels(width, height, source_name@);
}

/// The directory of the sensor data decides on the plan wherever it gives
/// dimensions, whatever the decoder said and whatever other images there are.
/// Without it, what the decoder said counts, and the other images only where
/// the decoder said nothing.
pub proof fn law_sensor_directory_decides<
    F: Fn(&[u8]) -> LosslessHeader,
    G: Fn(jxl_oxide::UninitializedJxlImage) -> Result<JpegXlPreflightDecoder, String>,
>(
    reported: bool,
    found: Result<Option<IFD>, String>,
    candidates: Seq<(usize, usize)>,
    source: RawSource,
    source_name: &str,
    inspect: F,
    try_init: G,
    r: ImageResult<RawDecodePlan>,
)
    requires
        inspection_may_plan(
            reported,
            found,
            candidates,
            source,
            source_name,
            inspect,
            try_init,
            r,
        ),
    ensures
        found is Err ==> r is Err,
        found matches Ok(Some(raw_ifd)) ==> (dimensions_of(ifd_numbers(raw_ifd)) matches Some(
            (width, height),
        ) ==> ifd_may_plan(raw_ifd, width, height, source, source_name, inspect, try_init, r)),
        found == Ok::<Option<IFD>, String>(None) && reported ==> r == Ok::<
            RawDecodePlan,
            ImageError,
        >(RawDecodePlan::Develop),
        found == Ok::<Option<IFD>, String>(None) && !reported ==> settles_as(
            r,
            candidates_outcome(candidates, source_name@),
        ),
{
}

/// The decoder of a preview may make an image of the size that the preview
/// gives itself, and no larger one, and it has four bytes for every pixel and 16
/// MiB beside them.
pub proof fn law_budget_fits_the_preview(preview: RawPreview)
    ensures
        budget_for(preview).max_image_width == preview.width,
        budget_for(preview).max_image_height == preview.height,
        4 * (preview.width * preview.height) + 16 * 1024 * 1024 <= u64::MAX ==> budget_for(
            preview,
        ).max_alloc == 4 * (preview.width * preview.height) + 16 * 1024 * 1024,
        4 * (preview.width * preview.height) + 16 * 1024 * 1024 > u64::MAX ==> budget_for(
            preview,
        ).max_alloc == u64::MAX,
{
    assert(0 <= preview.width * preview.height) by (nonlinear_arith)
        requires
            0 <= preview.width,
            0 <= preview.height,
    ;
}

/// A JPEG is usable as a preview if its sides are at least 1080 and it has up to
/// 200 megapixels, and nothing else is. The usable one with the most pixels is
/// shown, and of several with as many the last.
pub proof fn law_largest_preview_is_shown(previews: Seq<RawPreview>, index: int, other: int)
    requires
        is_best_preview(previews, index),
        0 <= other < previews.len(),
        previews[other].is_jpeg,
        1080 <= previews[other].width,
        1080 <= previews[other].height,
        previews[other].width * previews[other].height <= 200_000_000,
    ensures
        0 <= index < previews.len(),
        previews[index].is_jpeg,
        1080 <= previews[index].width,
        1080 <= previews[index].height,
        previews[index].width * previews[index].height <= 200_000_000,
        previews[other].width * previews[other].height <= previews[index].width
            * previews[index].height,
        other > index ==> previews[other].width * previews[other].height < previews[index].width
            * previews[index].height,
{
    assert(previews[other].usable());
}

/// A preview that was decoded to a usable size is shown, turned the way the
/// metadata of the RAW say: two that differ only in an orientation that means
/// nothing show the same. One that was not read, or not decoded, or to no usable
/// size, is an error, which says why.
pub proof fn law_decoded_preview_is_shown_upright(
    preview: RawPreview,
    load: PreviewLoad,
    orientation: Option<u32>,
    source_name: Seq<char>,
    r: ImageResult<DecodedImage>,
)
    requires
        preview_settles(preview, load, orientation, source_name, r),
    ensures
        r is Ok <==> (load matches PreviewLoad::Decoded(image) && 1080 <= image.dimensions.width
            && 1080 <= image.dimensions.height && image.dimensions.width * image.dimensions.height
            <= 200_000_000),
        r matches Ok(shown) ==> (load matches PreviewLoad::Decoded(image) && (match orientation {
            Some(n) => if 1 <= n <= 8 {
                is_oriented(shown, image, n as u8)
            } else {
                shown == image
            },
            None => shown == image,
        })),
        load matches PreviewLoad::Unreadable(text) ==> (r matches Err(error) && ends_with(
            error.text(),
            text@,
        )),
        load matches PreviewLoad::Undecodable(text) ==> (r matches Err(error) && ends_with(
            error.text(),
            text@,
        )),
{
    match load {
        PreviewLoad::Unreadable(text) => {
            let head = "failed to read embedded RAW preview "@ + size_text(
                preview.width as nat,
                preview.height as nat,
            ) + " for '"@ + source_name + "': "@;
            lemma_ends_with(head, text@);
        },
        PreviewLoad::Undecodable(text) => {
            let head = "failed to decode embedded RAW preview "@ + size_text(
                preview.width as nat,
                preview.height as nat,
            ) + " for '"@ + source_name + "': "@;
            lemma_ends_with(head, text@);
        },
        PreviewLoad::Decoded(_) => {},
    }
}

/// A directory tells of a JPEG if it gives width, height, place and length, each
/// under its own tag.
pub proof fn law_embedded_jpeg_goes_by_its_tags(
    numbers: Map<u16, usize>,
    width: u32,
    height: u32,
    offset: usize,
    length: usize,
)
    ensures
        numbers.contains_pair(0x0100, width as usize) && numbers.contains_pair(
            0x0101,
            height as usize,
        ) && numbers.contains_pair(0x0201, offset) && numbers.contains_pair(0x0202, length)
            ==> embedded_jpeg_of(numbers) == Some(
            (EmbeddedJpeg {
                preview: RawPreview { width, height, is_jpeg: true },
                offset,
                length,
            }),
        ),
        !numbers.dom().contains(0x0201) || !numbers.dom().contains(0x0202)
            || !numbers.dom().contains(0x0100) || !numbers.dom().contains(0x0101)
            ==> embedded_jpeg_of(numbers) is None,
{
}

/// A preview that was read is handed to the JPEG decoder whole, and what that
/// makes of it is loaded in sRGB. One that was not read is not decoded.
pub proof fn law_preview_is_loaded_from_its_bytes<
    J: FnOnce(&[u8], PreviewBudget) -> ImageAttempt,
>(
    encoded: Result<Vec<u8>, String>,
    budget: PreviewBudget,
    decode_jpeg: J,
    load: PreviewLoad,
)
    requires
        preview_may_load(encoded, budget, decode_jpeg, load),
    ensures
        encoded matches Err(text) ==> load == PreviewLoad::Unreadable(text),
        encoded matches Ok(bytes) ==> exists|image_bytes: &[u8], attempt: ImageAttempt|
            {
                &&& image_bytes@ == bytes@
                &&& #[trigger] decode_jpeg.ensures((image_bytes, budget), attempt)
                &&& match attempt {
                    Ok(decoded) => load matches PreviewLoad::Decoded(image) && image.dimensions
                        == decoded.image.dimensions && may_be_srgb_of(image, decoded@),
                    Err(text) => load matches PreviewLoad::Undecodable(why) && why@ == text@,
                }
            },
{
    if let Ok(bytes) = encoded {
        let (image_bytes, attempt, decoded) = choose|
            image_bytes: &[u8],
            attempt: ImageAttempt,
            decoded: Result<DecodedImage, String>,
        |
            {
                &&& image_bytes@ == bytes@
                &&& #[trigger] decode_jpeg.ensures((image_bytes, budget), attempt)
                &&& #[trigger] preview_may_settle(attempt_view(attempt), decoded)
                &&& load == match decoded {
                    Ok(image) => PreviewLoad::Decoded(image),
                    Err(text) => PreviewLoad::Undecodable(text),
                }
            };
        assert(decode_jpeg.ensures((image_bytes, budget), attempt));
    }
}

/// The other images of a file are looked for only where neither the decoder nor
/// the directory of the sensor data gives dimensions.
pub proof fn law_other_images_are_the_last_resort(
    dimensions: Option<(usize, usize)>,
    found: Result<Option<IFD>, String>,
)
    ensures
        plan_asks(dimensions, found) ==> dimensions is None && found is Ok,
        dimensions is None && found == Ok::<Option<IFD>, String>(None) ==> plan_asks(
            dimensions,
            found,
        ),
        found matches Ok(Some(raw_ifd)) ==> (dimensions is None ==> plan_asks(dimensions, found)
            == (dimensions_of(ifd_numbers(raw_ifd)) is None)),
{
}

/// Where the directory of the sensor data keeps a RAW from being developed, one
/// of its checks failed.
pub proof fn law_refused_directory_failed_a_check<
    F: Fn(&[u8]) -> LosslessHeader,
    G: Fn(jxl_oxide::UninitializedJxlImage) -> Result<JpegXlPreflightDecoder, String>,
>(
    raw_ifd: IFD,
    width: usize,
    height: usize,
    source: RawSource,
    source_name: &str,
    inspect: F,
    try_init: G,
    r: ImageResult<RawDecodePlan>,
    error: ImageError,
)
    requires
        ifd_may_plan(raw_ifd, width, height, source, source_name, inspect, try_init, r),
        r == Err::<RawDecodePlan, ImageError>(error),
    ensures
        ({
            ||| !(1 <= width <= 50_000 && 1 <= height <= 50_000)
            ||| ifd_allocation(ifd_numbers(raw_ifd), source_name@) is Err
            ||| codecs_may_settle(raw_ifd, source, source_name, inspect, try_init, Err(error))
        }),
{
    law_plan_goes_by_the_pixels(width, height, source_name@);
}

/// A RAW that is developed was decoded to sensor data of a size that may be
/// developed, the image was made of these data, and it is shown the way its
/// metadata say.
pub proof fn law_developed_image_comes_from_the_sensor<
    T,
    R: FnOnce() -> Result<SensorImage<T>, String>,
    G: FnOnce(T) -> Result<Option<DecodedImage>, String>,
    M: FnOnce() -> Option<u32>,
>(
    decode_sensor: R,
    develop: G,
    read_orientation: M,
    source_name: Seq<char>,
    r: ImageResult<RawDecodeOutcome>,
)
    requires
        may_develop(decode_sensor, develop, read_orientation, source_name, r),
    ensures
        r matches Ok(outcome) ==> exists|
            sensor: SensorImage<T>,
            image: DecodedImage,
            metadata: Option<u32>,
        |
            {
                &&& #[trigger] decode_sensor.ensures((), Ok(sensor))
                &&& 1 <= sensor.width <= 50_000
                &&& 1 <= sensor.height <= 50_000
                &&& sensor.width * sensor.height <= 36_000_000
                &&& #[trigger] develop.ensures((sensor.data,), Ok(Some(image)))
                &&& #[trigger] read_orientation.ensures((), metadata)
                &&& development_settles(
                    Ok(Some(image)),
                    metadata,
                    sensor.orientation,
                    source_name,
                    r,
                )
            },
{
    if let Ok(outcome) = r {
        let given = choose|sensor: Result<SensorImage<T>, String>| #[trigger]
            decode_sensor.ensures((), sensor) && match sensor {
                Err(text) => is_decode_error(r, "failed to decode RAW image: "@ + text@),
                Ok(image) => match development_check(
                    image.width as nat,
                    image.height as nat,
                    source_name,
                ) {
                    Err(text) => is_decode_error(r, text),
                    Ok(()) => exists|
                        developed: Result<Option<DecodedImage>, String>,
                        metadata: Option<u32>,
                    |
                        {
                            &&& develop.ensures((image.data,), developed)
                            &&& r is Ok ==> read_orientation.ensures((), metadata)
                            &&& #[trigger] development_settles(
                                developed,
                                metadata,
                                image.orientation,
                                source_name,
                                r,
                            )
                        },
                },
            };
        let sensor = given->Ok_0;
        let (developed, metadata) = choose|
            developed: Result<Option<DecodedImage>, String>,
            metadata: Option<u32>,
        |
            {
                &&& develop.ensures((sensor.data,), developed)
                &&& r is Ok ==> read_orientation.ensures((), metadata)
                &&& #[trigger] development_settles(
                    developed,
                    metadata,
                    sensor.orientation,
                    source_name,
                    r,
                )
            };
        law_sound_images_are_developed(developed, metadata, sensor.orientation, source_name, r);
        let image = developed->Ok_0->Some_0;
        assert(given == Ok::<SensorImage<T>, String>(sensor));
        assert(developed == Ok::<Option<DecodedImage>, String>(Some(image)));
        assert(decode_sensor.ensures((), Ok(sensor)));
        assert(develop.ensures((sensor.data,), Ok(Some(image))));
        assert(read_orientation.ensures((), metadata));
    }
}

} // verus!
