//! What the headers of a JPEG XL say that it takes to decode it.

use vstd::arithmetic::power2::{
    lemma2_to64, lemma_pow2_pos, lemma_pow2_strictly_increases, lemma_pow2_unfold, pow2,
};
use vstd::prelude::*;
use vstd::string::*;

use crate::arith::{ceil_div, div_ceil_u128, lemma_ceil_div, lemma_least_cover};
use crate::dng_block::{block_error, DngBlockContext};
use crate::error::{is_decode_error, settles_as, ImageError, ImageResult};
use crate::raw_limits::{
    side_limit_text, size_text, validate_raw_side_limit, within_side_limit, write_size,
};
use crate::text::{decimal, decimal_text, signed_decimal, signed_text, usize_text};

verus! {

/// Frames that the first keyframe depends on may hold this many times its own
/// samples, together.
pub const JPEG_XL_PREFLIGHT_MAX_DEPENDENCY_SAMPLE_MULTIPLIER: u128 = 3;

// ---------------------------------------------------------------------------
// Frames that the first keyframe depends on
// ---------------------------------------------------------------------------

/// Where a frame lies on the canvas.
#[derive(Clone, Copy, Debug, PartialEq, Eq, Structural)]
pub struct JpegXlFrameLayout {
    /// The frame is kept for other frames alone, and is not cropped to the
    /// canvas.
    pub is_reference_only: bool,
    pub x0: i32,
    pub y0: i32,
    pub width: u32,
    pub height: u32,
}

/// How much of `origin..origin + length` lies in `0..canvas_length`.
pub open spec fn canvas_intersection(origin: int, length: int, canvas_length: int) -> int {
    let start = if origin < 0 {
        0
    } else {
        origin
    };
    let end = if origin + length > canvas_length {
        canvas_length
    } else {
        origin + length
    };
    if start < end {
        end - start
    } else {
        0
    }
}

/// The length of the part of a frame that lies on the canvas.
pub fn jpeg_xl_canvas_intersection(origin: i32, length: u32, canvas_length: u32) -> (r: u128)
    ensures
        r == canvas_intersection(origin as int, length as int, canvas_length as int),
        r <= length,
        r <= canvas_length,
{
    let canvas: i64 = canvas_length as i64;
    let first: i64 = origin as i64;
    let last: i64 = first + length as i64;
    let start: i64 = if first < 0 {
        0
    } else {
        first
    };
    let end: i64 = if last > canvas {
        canvas
    } else {
        last
    };
    if start < end {
        (end - start) as u128
    } else {
        0
    }
}

/// The width that is allocated for a frame.
pub open spec fn allocated_width(frame: JpegXlFrameLayout, canvas_width: int) -> int {
    if frame.is_reference_only {
        frame.width as int
    } else {
        canvas_intersection(frame.x0 as int, frame.width as int, canvas_width)
    }
}

/// The height that is allocated for a frame.
pub open spec fn allocated_height(frame: JpegXlFrameLayout, canvas_height: int) -> int {
    if frame.is_reference_only {
        frame.height as int
    } else {
        canvas_intersection(frame.y0 as int, frame.height as int, canvas_height)
    }
}

/// The samples that are allocated for a frame of `channels` channels.
pub open spec fn frame_samples(
    frame: JpegXlFrameLayout,
    canvas_width: int,
    canvas_height: int,
    channels: int,
) -> int {
    allocated_width(frame, canvas_width) * allocated_height(frame, canvas_height) * channels
}

/// The samples that are allocated for all frames together.
pub open spec fn total_frame_samples(
    frames: Seq<JpegXlFrameLayout>,
    canvas_width: int,
    canvas_height: int,
    channels: int,
) -> int
    decreases frames.len(),
{
    if frames.len() == 0 {
        0
    } else {
        total_frame_samples(frames.drop_last(), canvas_width, canvas_height, channels)
            + frame_samples(frames.last(), canvas_width, canvas_height, channels)
    }
}

/// Every frame keeps to the longest side.
pub open spec fn frames_within_side_limit(
    frames: Seq<JpegXlFrameLayout>,
    canvas_width: int,
    canvas_height: int,
) -> bool {
    forall|i: int|
        0 <= i < frames.len() ==> within_side_limit(
            allocated_width(#[trigger] frames[i], canvas_width),
            allocated_height(frames[i], canvas_height),
        )
}

pub open spec fn bool_text(b: bool) -> Seq<char> {
    if b {
        "true"@
    } else {
        "false"@
    }
}

pub open spec fn dependency_budget_text(
    context: DngBlockContext<'_>,
    samples: nat,
    maximum: nat,
    index: nat,
    frame: JpegXlFrameLayout,
    canvas_width: nat,
    canvas_height: nat,
) -> Seq<char> {
    "JPEG-XL "@ + context.text() + " dependency frames require "@ + decimal(samples)
        + " samples by frame "@ + decimal(index)
        + ", exceeding the bounded dependency allocation "@ + decimal(maximum) + "; frame "@
        + decimal(index) + " reference-only="@ + bool_text(frame.is_reference_only)
        + ", origin=("@ + signed_decimal(frame.x0 as int) + ", "@ + signed_decimal(frame.y0 as int)
        + "), dimensions="@ + size_text(frame.width as nat, frame.height as nat) + " on a "@
        + size_text(canvas_width, canvas_height) + " canvas"@
}

fn dependency_budget_error(
    context: DngBlockContext<'_>,
    samples: u128,
    maximum: u128,
    index: usize,
    frame: JpegXlFrameLayout,
    canvas_width: u32,
    canvas_height: u32,
) -> (r: ImageResult<()>)
    ensures
        is_decode_error(
            r,
            dependency_budget_text(
                context,
                samples as nat,
                maximum as nat,
                index as nat,
                frame,
                canvas_width as nat,
                canvas_height as nat,
            ),
        ),
{
    let mut message = "JPEG-XL ".to_owned();
    message.append(context.write().as_str());
    message.append(" dependency frames require ");
    message.append(decimal_text(samples).as_str());
    message.append(" samples by frame ");
    message.append(usize_text(index).as_str());
    message.append(", exceeding the bounded dependency allocation ");
    message.append(decimal_text(maximum).as_str());
    message.append("; frame ");
    message.append(usize_text(index).as_str());
    message.append(" reference-only=");
    message.append(
        if frame.is_reference_only {
            "true"
        } else {
            "false"
        },
    );
    message.append(", origin=(");
    message.append(signed_text(frame.x0).as_str());
    message.append(", ");
    message.append(signed_text(frame.y0).as_str());
    message.append("), dimensions=");
    message.append(write_size(frame.width as usize, frame.height as usize).as_str());
    message.append(" on a ");
    message.append(write_size(canvas_width as usize, canvas_height as usize).as_str());
    message.append(" canvas");
    Err(ImageError::Decode(message))
}

/// What comes of the frames, taken in order: the samples that they take
/// together, or why one of them is refused.
pub open spec fn dependency_outcome(
    frames: Seq<JpegXlFrameLayout>,
    canvas_width: nat,
    canvas_height: nat,
    channels: nat,
    maximum: nat,
    context: DngBlockContext<'_>,
) -> Result<nat, Seq<char>>
    decreases frames.len(),
{
    if frames.len() == 0 {
        Ok(0)
    } else {
        let frame = frames.last();
        let width = allocated_width(frame, canvas_width as int);
        let height = allocated_height(frame, canvas_height as int);
        match dependency_outcome(
            frames.drop_last(),
            canvas_width,
            canvas_height,
            channels,
            maximum,
            context,
        ) {
            Err(text) => Err(text),
            Ok(before) => {
                let samples = before + frame_samples(
                    frame,
                    canvas_width as int,
                    canvas_height as int,
                    channels as int,
                );
                if !within_side_limit(width, height) {
                    Err(
                        side_limit_text(
                            context.source_name@,
                            "embedded JPEG-XL dependency frame dimensions"@,
                            width as nat,
                            height as nat,
                        ),
                    )
                } else if samples > u128::MAX {
                    Err(
                        "JPEG-XL "@ + context.text()
                            + " total dependency sample count overflows"@,
                    )
                } else if samples > maximum {
                    Err(
                        dependency_budget_text(
                            context,
                            samples as nat,
                            maximum,
                            (frames.len() - 1) as nat,
                            frame,
                            canvas_width,
                            canvas_height,
                        ),
                    )
                } else {
                    Ok(samples as nat)
                }
            },
        }
    }
}

/// What comes of the frames that the first keyframe depends on.
pub open spec fn dependency_check(
    frames: Seq<JpegXlFrameLayout>,
    canvas_width: nat,
    canvas_height: nat,
    channels: nat,
    rendered_samples: nat,
    context: DngBlockContext<'_>,
) -> Result<(), Seq<char>> {
    let maximum = rendered_samples * JPEG_XL_PREFLIGHT_MAX_DEPENDENCY_SAMPLE_MULTIPLIER as nat;
    if maximum > u128::MAX {
        Err("JPEG-XL "@ + context.text() + " dependency sample budget overflows"@)
    } else {
        match dependency_outcome(frames, canvas_width, canvas_height, channels, maximum, context) {
            Err(text) => Err(text),
            Ok(_) => Ok(()),
        }
    }
}

proof fn lemma_frame_samples_bounded(
    frame: JpegXlFrameLayout,
    canvas_width: int,
    canvas_height: int,
    channels: int,
)
    requires
        0 <= channels <= usize::MAX,
        0 <= canvas_width,
        0 <= canvas_height,
    ensures
        0 <= allocated_width(frame, canvas_width) <= frame.width,
        0 <= allocated_height(frame, canvas_height) <= frame.height,
        0 <= frame_samples(frame, canvas_width, canvas_height, channels),
        within_side_limit(
            allocated_width(frame, canvas_width),
            allocated_height(frame, canvas_height),
        ) ==> {
            &&& allocated_width(frame, canvas_width) * allocated_height(frame, canvas_height)
                <= 2_500_000_000
            &&& frame_samples(frame, canvas_width, canvas_height, channels) <= 2_500_000_000
                * usize::MAX
        },
{
    let w = allocated_width(frame, canvas_width);
    let h = allocated_height(frame, canvas_height);
    assert(0 <= w * h) by (nonlinear_arith)
        requires
            0 <= w,
            0 <= h,
    ;
    assert(0 <= w * h * channels) by (nonlinear_arith)
        requires
            0 <= w * h,
            0 <= channels,
    ;
    if within_side_limit(w, h) {
        assert(w * h <= 50_000 * 50_000) by (nonlinear_arith)
            requires
                0 <= w <= 50_000,
                0 <= h <= 50_000,
        ;
        assert(w * h * channels <= 2_500_000_000 * usize::MAX) by (nonlinear_arith)
            requires
                0 <= w * h <= 2_500_000_000,
                0 <= channels <= usize::MAX,
        ;
    }
}

/// Rejects frames that take more memory than the first keyframe, which depends
/// on them, warrants.
pub fn validate_jpeg_xl_dependency_frame_layouts(
    frames: &[JpegXlFrameLayout],
    canvas_width: u32,
    canvas_height: u32,
    allocation_channels: usize,
    rendered_samples: u128,
    context: DngBlockContext<'_>,
) -> (r: ImageResult<()>)
    ensures
        settles_as(
            r,
            dependency_check(
                frames@,
                canvas_width as nat,
                canvas_height as nat,
                allocation_channels as nat,
                rendered_samples as nat,
                context,
            ),
        ),
{
    if rendered_samples > u128::MAX / JPEG_XL_PREFLIGHT_MAX_DEPENDENCY_SAMPLE_MULTIPLIER {
        return block_error("JPEG-XL ", context, " dependency sample budget overflows");
    }
    let maximum: u128 = rendered_samples * JPEG_XL_PREFLIGHT_MAX_DEPENDENCY_SAMPLE_MULTIPLIER;
    let mut samples: u128 = 0;
    let mut index: usize = 0;
    let ghost outcome = |n: int|
        dependency_outcome(
            frames@.subrange(0, n),
            canvas_width as nat,
            canvas_height as nat,
            allocation_channels as nat,
            maximum as nat,
            context,
        );
    while index < frames.len()
        invariant
            index <= frames@.len(),
            outcome == |n: int|
                dependency_outcome(
                    frames@.subrange(0, n),
                    canvas_width as nat,
                    canvas_height as nat,
                    allocation_channels as nat,
                    maximum as nat,
                    context,
                ),
            outcome(index as int) == Ok::<nat, Seq<char>>(samples as nat),
            dependency_check(
                frames@,
                canvas_width as nat,
                canvas_height as nat,
                allocation_channels as nat,
                rendered_samples as nat,
                context,
            ) == match dependency_outcome(
                frames@,
                canvas_width as nat,
                canvas_height as nat,
                allocation_channels as nat,
                maximum as nat,
                context,
            ) {
                Err(text) => Err(text),
                Ok(_) => Ok(()),
            },
        decreases frames@.len() - index,
    {
        let frame = frames[index];
        let (width, height): (u128, u128) = if frame.is_reference_only {
            (frame.width as u128, frame.height as u128)
        } else {
            (
                jpeg_xl_canvas_intersection(frame.x0, frame.width, canvas_width),
                jpeg_xl_canvas_intersection(frame.y0, frame.height, canvas_height),
            )
        };
        proof {
            let upto = frames@.subrange(0, index + 1);
            assert(upto.drop_last() == frames@.subrange(0, index as int));
            assert(upto.last() == frame);
            lemma_frame_samples_bounded(
                frame,
                canvas_width as int,
                canvas_height as int,
                allocation_channels as int,
            );
            if outcome(index + 1) is Err {
                lemma_refusal_stays(
                    frames@,
                    index + 1,
                    canvas_width as nat,
                    canvas_height as nat,
                    allocation_channels as nat,
                    maximum as nat,
                    context,
                );
            }
        }
        match validate_raw_side_limit(
            width as usize,
            height as usize,
            context.source_name,
            "embedded JPEG-XL dependency frame dimensions",
        ) {
            Err(error) => {
                return Err(error);
            },
            Ok(()) => {},
        }
        let pixels: u128 = width * height;
        let frame_count: u128 = pixels * allocation_channels as u128;
        if frame_count > u128::MAX - samples {
            return block_error("JPEG-XL ", context, " total dependency sample count overflows");
        }
        samples = samples + frame_count;
        if samples > maximum {
            return dependency_budget_error(
                context,
                samples,
                maximum,
                index,
                frame,
                canvas_width,
                canvas_height,
            );
        }
        index = index + 1;
    }
    assert(frames@.subrange(0, index as int) == frames@);
    Ok(())
}

/// Once a frame is refused, the frames behind it change nothing.
proof fn lemma_refusal_stays(
    frames: Seq<JpegXlFrameLayout>,
    n: int,
    canvas_width: nat,
    canvas_height: nat,
    channels: nat,
    maximum: nat,
    context: DngBlockContext<'_>,
)
    requires
        0 <= n <= frames.len(),
        dependency_outcome(
            frames.subrange(0, n),
            canvas_width,
            canvas_height,
            channels,
            maximum,
            context,
        ) is Err,
    ensures
        dependency_outcome(frames, canvas_width, canvas_height, channels, maximum, context)
            == dependency_outcome(
            frames.subrange(0, n),
            canvas_width,
            canvas_height,
            channels,
            maximum,
            context,
        ),
    decreases frames.len(),
{
    if n == frames.len() {
        assert(frames.subrange(0, n) == frames);
    } else {
        assert(frames.drop_last().subrange(0, n) == frames.subrange(0, n));
        lemma_refusal_stays(
            frames.drop_last(),
            n,
            canvas_width,
            canvas_height,
            channels,
            maximum,
            context,
        );
    }
}

/// Dependency frames are accepted if and only if each keeps to the longest side
/// and all of them together keep to three times the samples of the keyframe.
pub proof fn law_dependency_frames_are_bounded(
    frames: Seq<JpegXlFrameLayout>,
    canvas_width: nat,
    canvas_height: nat,
    channels: nat,
    rendered_samples: nat,
    context: DngBlockContext<'_>,
)
    requires
        channels <= usize::MAX,
        3 * rendered_samples <= u128::MAX,
    ensures
        dependency_check(
            frames,
            canvas_width,
            canvas_height,
            channels,
            rendered_samples,
            context,
        ) is Ok <==> {
            &&& frames_within_side_limit(frames, canvas_width as int, canvas_height as int)
            &&& total_frame_samples(
                frames,
                canvas_width as int,
                canvas_height as int,
                channels as int,
            ) <= 3 * rendered_samples
        },
{
    lemma_dependency_outcome(
        frames,
        canvas_width,
        canvas_height,
        channels,
        3 * rendered_samples,
        context,
    );
}

proof fn lemma_dependency_outcome(
    frames: Seq<JpegXlFrameLayout>,
    canvas_width: nat,
    canvas_height: nat,
    channels: nat,
    maximum: nat,
    context: DngBlockContext<'_>,
)
    requires
        channels <= usize::MAX,
        maximum <= u128::MAX,
    ensures
        0 <= total_frame_samples(
            frames,
            canvas_width as int,
            canvas_height as int,
            channels as int,
        ),
        ({
            let outcome = dependency_outcome(
                frames,
                canvas_width,
                canvas_height,
                channels,
                maximum,
                context,
            );
            let total = total_frame_samples(
                frames,
                canvas_width as int,
                canvas_height as int,
                channels as int,
            );
            &&& outcome is Ok <==> frames_within_side_limit(
                frames,
                canvas_width as int,
                canvas_height as int,
            ) && total <= maximum
            &&& outcome is Ok ==> outcome == Ok::<nat, Seq<char>>(total as nat)
        }),
    decreases frames.len(),
{
    if frames.len() > 0 {
        let before = frames.drop_last();
        lemma_dependency_outcome(
            before,
            canvas_width,
            canvas_height,
            channels,
            maximum,
            context,
        );
        lemma_frame_samples_bounded(
            frames.last(),
            canvas_width as int,
            canvas_height as int,
            channels as int,
        );
        assert(frames == before.push(frames.last()));
        assert(frames_within_side_limit(frames, canvas_width as int, canvas_height as int)
            ==> frames_within_side_limit(before, canvas_width as int, canvas_height as int)) by {
            if frames_within_side_limit(frames, canvas_width as int, canvas_height as int) {
                assert forall|i: int| 0 <= i < before.len() implies within_side_limit(
                    allocated_width(#[trigger] before[i], canvas_width as int),
                    allocated_height(before[i], canvas_height as int),
                ) by {
                    assert(before[i] == frames[i]);
                }
            }
        }
        assert(frames_within_side_limit(before, canvas_width as int, canvas_height as int)
            && within_side_limit(
            allocated_width(frames.last(), canvas_width as int),
            allocated_height(frames.last(), canvas_height as int),
        ) ==> frames_within_side_limit(frames, canvas_width as int, canvas_height as int)) by {
            if frames_within_side_limit(before, canvas_width as int, canvas_height as int) {
                assert forall|i: int| 0 <= i < before.len() implies within_side_limit(
                    allocated_width(#[trigger] frames[i], canvas_width as int),
                    allocated_height(frames[i], canvas_height as int),
                ) by {
                    assert(before[i] == frames[i]);
                }
            }
        }
    }
}

// ---------------------------------------------------------------------------
// The image header
// ---------------------------------------------------------------------------

/// A channel beside those of the colour.
#[derive(Clone, Copy, Debug, PartialEq, Eq, Structural)]
pub struct JpegXlExtraChannel {
    pub is_black: bool,
    /// The channel is smaller than the image by this power of two.
    pub dim_shift: u32,
}

/// What an image header says.
#[derive(Debug)]
pub struct JpegXlImageHeader {
    pub canvas_width: u32,
    pub canvas_height: u32,
    /// The orientation as in Exif. From 5 on, width and height change places.
    pub orientation: u32,
    pub grayscale: bool,
    pub extra_channels: Vec<JpegXlExtraChannel>,
}

/// What an image header says, as a mathematical value.
pub struct JpegXlImageHeaderView {
    pub canvas_width: u32,
    pub canvas_height: u32,
    pub orientation: u32,
    pub grayscale: bool,
    pub extra_channels: Seq<JpegXlExtraChannel>,
}

impl View for JpegXlImageHeader {
    type V = JpegXlImageHeaderView;

    open spec fn view(&self) -> JpegXlImageHeaderView {
        JpegXlImageHeaderView {
            canvas_width: self.canvas_width,
            canvas_height: self.canvas_height,
            orientation: self.orientation,
            grayscale: self.grayscale,
            extra_channels: self.extra_channels@,
        }
    }
}

/// What a payload takes when it is decoded.
#[derive(Clone, Copy, Debug, PartialEq, Eq, Structural)]
pub struct JpegXlHeaderDimensions {
    pub width: usize,
    pub height: usize,
    pub output_channels: usize,
    pub rendered_samples: u128,
}

impl JpegXlImageHeaderView {
    pub open spec fn color_channels(self) -> nat {
        if self.grayscale {
            1
        } else {
            3
        }
    }

    pub open spec fn has_black(self) -> bool {
        exists|i: int|
            0 <= i < self.extra_channels.len() && (#[trigger] self.extra_channels[i]).is_black
    }

    /// The channels that are handed out: those of the colour, and black.
    pub open spec fn output_channels(self) -> nat {
        self.color_channels() + if self.has_black() {
            1nat
        } else {
            0nat
        }
    }

    pub open spec fn is_turned(self) -> bool {
        5 <= self.orientation
    }

    /// The width of the image as it is shown.
    pub open spec fn shown_width(self) -> u32 {
        if self.is_turned() {
            self.canvas_height
        } else {
            self.canvas_width
        }
    }

    /// The height of the image as it is shown.
    pub open spec fn shown_height(self) -> u32 {
        if self.is_turned() {
            self.canvas_width
        } else {
            self.canvas_height
        }
    }
}

/// The samples of an extra channel.
pub open spec fn extra_channel_samples(canvas_width: nat, canvas_height: nat, shift: nat) -> nat {
    ceil_div(canvas_width, pow2(shift)) * ceil_div(canvas_height, pow2(shift))
}

/// The samples of the colour and of the given extra channels, or why they are
/// refused.
pub open spec fn counted_samples(
    canvas_width: nat,
    canvas_height: nat,
    color_channels: nat,
    extra: Seq<JpegXlExtraChannel>,
    context: DngBlockContext<'_>,
) -> Result<nat, Seq<char>>
    decreases extra.len(),
{
    if extra.len() == 0 {
        Ok(canvas_width * canvas_height * color_channels)
    } else {
        let shift = extra.last().dim_shift as nat;
        match counted_samples(
            canvas_width,
            canvas_height,
            color_channels,
            extra.drop_last(),
            context,
        ) {
            Err(text) => Err(text),
            Ok(before) => {
                let samples = before + extra_channel_samples(canvas_width, canvas_height, shift);
                if shift >= 128 {
                    Err(
                        "JPEG-XL "@ + context.text()
                            + " has invalid extra-channel dimension shift "@ + decimal(shift),
                    )
                } else if samples > u128::MAX {
                    Err("JPEG-XL "@ + context.text() + " total sample count overflows"@)
                } else {
                    Ok(samples)
                }
            },
        }
    }
}

/// What a header and the frames before the first keyframe come to.
pub open spec fn header_outcome(
    header: JpegXlImageHeaderView,
    frames: Seq<JpegXlFrameLayout>,
    context: DngBlockContext<'_>,
) -> Result<JpegXlHeaderDimensions, Seq<char>> {
    match counted_samples(
        header.canvas_width as nat,
        header.canvas_height as nat,
        header.color_channels(),
        header.extra_channels,
        context,
    ) {
        Err(text) => Err(text),
        Ok(samples) => match dependency_check(
            frames,
            header.canvas_width as nat,
            header.canvas_height as nat,
            header.color_channels() + header.extra_channels.len(),
            samples,
            context,
        ) {
            Err(text) => Err(text),
            Ok(()) => Ok(
                JpegXlHeaderDimensions {
                    width: header.shown_width() as usize,
                    height: header.shown_height() as usize,
                    output_channels: header.output_channels() as usize,
                    rendered_samples: samples as u128,
                },
            ),
        },
    }
}

/// Two to the power `n`.
fn power_of_two(n: u32) -> (r: u128)
    requires
        n < 128,
    ensures
        r == pow2(n as nat),
        r > 0,
{
    let mut r: u128 = 1;
    let mut i: u32 = 0;
    proof {
        vstd::arithmetic::power2::lemma_pow2(0);
        vstd::arithmetic::power::lemma_pow0(2);
    }
    while i < n
        invariant
            i <= n < 128,
            r == pow2(i as nat),
            r > 0,
        decreases n - i,
    {
        proof {
            lemma_pow2_unfold((i + 1) as nat);
            lemma_pow2_below_limit((i + 1) as nat);
        }
        r = r * 2;
        i = i + 1;
    }
    r
}

proof fn lemma_pow2_below_limit(n: nat)
    requires
        n <= 127,
    ensures
        pow2(n) <= 0x8000_0000_0000_0000_0000_0000_0000_0000,
{
    lemma2_to64();
    vstd::arithmetic::power2::lemma2_to64_rest();
    vstd::arithmetic::power2::lemma_pow2_adds(64, 63);
    assert(0x1_0000_0000_0000_0000int * 0x8000_0000_0000_0000int
        == 0x8000_0000_0000_0000_0000_0000_0000_0000int);
    if n < 127 {
        lemma_pow2_strictly_increases(n, 127);
    }
}

proof fn lemma_extra_channel_samples_bounded(canvas_width: nat, canvas_height: nat, shift: nat)
    requires
        canvas_width <= u32::MAX,
        canvas_height <= u32::MAX,
    ensures
        extra_channel_samples(canvas_width, canvas_height, shift) <= u64::MAX,
{
    lemma_pow2_pos(shift);
    lemma_ceil_div(canvas_width, pow2(shift));
    lemma_ceil_div(canvas_height, pow2(shift));
    let w = ceil_div(canvas_width, pow2(shift));
    let h = ceil_div(canvas_height, pow2(shift));
    assert(w * h <= u32::MAX * u32::MAX) by (nonlinear_arith)
        requires
            0 <= w <= u32::MAX,
            0 <= h <= u32::MAX,
    ;
}

/// Counts the samples of the colour and of the extra channels.
fn count_samples(header: &JpegXlImageHeader, context: DngBlockContext<'_>) -> (r: ImageResult<u128>)
    ensures
        match counted_samples(
            header.canvas_width as nat,
            header.canvas_height as nat,
            header@.color_channels(),
            header.extra_channels@,
            context,
        ) {
            Ok(samples) => r == Ok::<u128, ImageError>(samples as u128) && samples <= u128::MAX,
            Err(text) => is_decode_error(r, text),
        },
{
    let width: u128 = header.canvas_width as u128;
    let height: u128 = header.canvas_height as u128;
    let colors: u128 = if header.grayscale {
        1
    } else {
        3
    };
    assert(0 <= width * height <= u32::MAX * u32::MAX) by (nonlinear_arith)
        requires
            0 <= width <= u32::MAX,
            0 <= height <= u32::MAX,
    ;
    let mut samples: u128 = width * height * colors;
    let extra = &header.extra_channels;
    let mut i: usize = 0;
    assert(extra@.subrange(0, 0) == Seq::<JpegXlExtraChannel>::empty());
    while i < extra.len()
        invariant
            i <= extra@.len(),
            extra@ == header.extra_channels@,
            width == header.canvas_width,
            height == header.canvas_height,
            colors == header@.color_channels(),
            counted_samples(
                width as nat,
                height as nat,
                colors as nat,
                extra@.subrange(0, i as int),
                context,
            ) == Ok::<nat, Seq<char>>(samples as nat),
        decreases extra@.len() - i,
    {
        let shift: u32 = extra[i].dim_shift;
        proof {
            let upto = extra@.subrange(0, i + 1);
            assert(upto.drop_last() == extra@.subrange(0, i as int));
            assert(upto.last() == extra@[i as int]);
            lemma_count_refusal_stays(
                width as nat,
                height as nat,
                colors as nat,
                extra@,
                i + 1,
                context,
            );
        }
        if shift >= 128 {
            let mut tail = " has invalid extra-channel dimension shift ".to_owned();
            tail.append(usize_text(shift as usize).as_str());
            proof {
                let head = "JPEG-XL "@ + context.text();
                assert(head + (" has invalid extra-channel dimension shift "@ + decimal(
                    shift as nat,
                )) == head + " has invalid extra-channel dimension shift "@ + decimal(
                    shift as nat,
                ));
            }
            return block_error("JPEG-XL ", context, tail.as_str());
        }
        let divisor: u128 = power_of_two(shift);
        let channel_width: u128 = div_ceil_u128(width, divisor);
        let channel_height: u128 = div_ceil_u128(height, divisor);
        proof {
            lemma_extra_channel_samples_bounded(width as nat, height as nat, shift as nat);
        }
        let channel_samples: u128 = channel_width * channel_height;
        if channel_samples > u128::MAX - samples {
            return block_error("JPEG-XL ", context, " total sample count overflows");
        }
        samples = samples + channel_samples;
        i = i + 1;
    }
    assert(extra@.subrange(0, i as int) == extra@);
    Ok(samples)
}

/// Once a channel is refused, the channels behind it change nothing.
proof fn lemma_count_refusal_stays(
    canvas_width: nat,
    canvas_height: nat,
    color_channels: nat,
    extra: Seq<JpegXlExtraChannel>,
    n: int,
    context: DngBlockContext<'_>,
)
    requires
        0 <= n <= extra.len(),
    ensures
        counted_samples(
            canvas_width,
            canvas_height,
            color_channels,
            extra.subrange(0, n),
            context,
        ) is Err ==> counted_samples(canvas_width, canvas_height, color_channels, extra, context)
            == counted_samples(
            canvas_width,
            canvas_height,
            color_channels,
            extra.subrange(0, n),
            context,
        ),
    decreases extra.len(),
{
    if n == extra.len() {
        assert(extra.subrange(0, n) == extra);
    } else {
        assert(extra.drop_last().subrange(0, n) == extra.subrange(0, n));
        lemma_count_refusal_stays(
            canvas_width,
            canvas_height,
            color_channels,
            extra.drop_last(),
            n,
            context,
        );
    }
}

fn any_black(extra: &Vec<JpegXlExtraChannel>) -> (b: bool)
    ensures
        b == exists|i: int| 0 <= i < extra@.len() && (#[trigger] extra@[i]).is_black,
{
    let mut i: usize = 0;
    while i < extra.len()
        invariant
            i <= extra@.len(),
            forall|j: int| 0 <= j < i ==> !(#[trigger] extra@[j]).is_black,
        decreases extra@.len() - i,
    {
        if extra[i].is_black {
            return true;
        }
        i = i + 1;
    }
    false
}

/// What a header and the frames before the first keyframe come to: the
/// dimensions of the image, or why it is refused.
pub fn summarize_jpeg_xl_header(
    header: &JpegXlImageHeader,
    dependency_frames: &[JpegXlFrameLayout],
    context: DngBlockContext<'_>,
) -> (r: ImageResult<JpegXlHeaderDimensions>)
    requires
        header.extra_channels@.len() + 3 <= usize::MAX,
    ensures
        settles_as(r, header_outcome(header@, dependency_frames@, context)),
{
    let color_channels: usize = if header.grayscale {
        1
    } else {
        3
    };
    let black: usize = if any_black(&header.extra_channels) {
        1
    } else {
        0
    };
    let rendered_samples: u128 = match count_samples(header, context) {
        Ok(samples) => samples,
        Err(error) => {
            return Err(error);
        },
    };
    match validate_jpeg_xl_dependency_frame_layouts(
        dependency_frames,
        header.canvas_width,
        header.canvas_height,
        color_channels + header.extra_channels.len(),
        rendered_samples,
        context,
    ) {
        Err(error) => {
            return Err(error);
        },
        Ok(()) => {},
    }
    let (width, height): (u32, u32) = if header.orientation >= 5 {
        (header.canvas_height, header.canvas_width)
    } else {
        (header.canvas_width, header.canvas_height)
    };
    Ok(
        JpegXlHeaderDimensions {
            width: width as usize,
            height: height as usize,
            output_channels: color_channels + black,
            rendered_samples,
        },
    )
}

/// The samples of an image are never fewer than those of its colour, and every
/// extra channel adds its own.
pub proof fn law_every_channel_counts(
    canvas_width: nat,
    canvas_height: nat,
    color_channels: nat,
    extra: Seq<JpegXlExtraChannel>,
    context: DngBlockContext<'_>,
)
    ensures
        counted_samples(canvas_width, canvas_height, color_channels, extra, context) matches Ok(
            samples,
        ) ==> samples == canvas_width * canvas_height * color_channels + extra_samples(
            canvas_width,
            canvas_height,
            extra,
        ),
    decreases extra.len(),
{
    if extra.len() > 0 {
        law_every_channel_counts(
            canvas_width,
            canvas_height,
            color_channels,
            extra.drop_last(),
            context,
        );
    }
}

/// The samples of extra channels.
pub open spec fn extra_samples(
    canvas_width: nat,
    canvas_height: nat,
    extra: Seq<JpegXlExtraChannel>,
) -> nat
    decreases extra.len(),
{
    if extra.len() == 0 {
        0
    } else {
        extra_samples(canvas_width, canvas_height, extra.drop_last()) + extra_channel_samples(
            canvas_width,
            canvas_height,
            extra.last().dim_shift as nat,
        )
    }
}

/// The part of a frame on the canvas is what both have in common: it lies from
/// `start` on, and a place is in it exactly where it is in the frame and on the
/// canvas.
pub proof fn law_intersection_is_the_common_part(origin: int, length: int, canvas_length: int)
    requires
        0 <= length,
        0 <= canvas_length,
    ensures
        exists|start: int| #[trigger]
            is_common_part(
                start,
                canvas_intersection(origin, length, canvas_length),
                origin,
                length,
                canvas_length,
            ),
{
    let start = if origin < 0 {
        0
    } else {
        origin
    };
    assert(is_common_part(
        start,
        canvas_intersection(origin, length, canvas_length),
        origin,
        length,
        canvas_length,
    ));
}

/// The places from `start` on, so many of them, are those of the frame that lie
/// on the canvas.
pub open spec fn is_common_part(
    start: int,
    count: int,
    origin: int,
    length: int,
    canvas_length: int,
) -> bool {
    &&& 0 <= count
    &&& forall|place: int| #[trigger]
        is_between(place, start, start + count) <==> is_between(place, origin, origin + length)
            && is_between(place, 0, canvas_length)
}

pub open spec fn is_between(place: int, first: int, end: int) -> bool {
    first <= place < end
}

/// A frame that is kept for others alone counts whole, wherever it lies. Any
/// other frame counts whole where it lies on the canvas, and not at all where it
/// lies beside it, and never with more than the canvas holds.
pub proof fn law_frames_count_on_the_canvas(
    frame: JpegXlFrameLayout,
    canvas_width: nat,
    canvas_height: nat,
    channels: nat,
)
    ensures
        ({
            let samples = frame_samples(
                frame,
                canvas_width as int,
                canvas_height as int,
                channels as int,
            );
            let on_canvas = 0 <= frame.x0 && 0 <= frame.y0 && frame.x0 + frame.width
                <= canvas_width && frame.y0 + frame.height <= canvas_height;
            let beside = frame.x0 + frame.width <= 0 || frame.y0 + frame.height <= 0 || frame.x0
                >= canvas_width || frame.y0 >= canvas_height;
            &&& frame.is_reference_only || on_canvas ==> samples == frame.width * frame.height
                * channels
            &&& !frame.is_reference_only && beside ==> samples == 0
            &&& !frame.is_reference_only ==> samples <= canvas_width * canvas_height * channels
        }),
{
    let w = allocated_width(frame, canvas_width as int);
    let h = allocated_height(frame, canvas_height as int);
    if !frame.is_reference_only {
        assert(0 <= w <= canvas_width && 0 <= h <= canvas_height);
        assert(w * h <= canvas_width * canvas_height) by (nonlinear_arith)
            requires
                0 <= w <= canvas_width,
                0 <= h <= canvas_height,
        ;
        assert(w * h * channels <= canvas_width * canvas_height * channels) by (nonlinear_arith)
            requires
                w * h <= canvas_width * canvas_height,
                0 <= channels,
        ;
        assert(w == 0 || h == 0 ==> w * h * channels == 0) by (nonlinear_arith);
    }
}

/// Every frame adds its own samples to those of the others.
pub proof fn law_every_frame_counts(
    frames: Seq<JpegXlFrameLayout>,
    frame: JpegXlFrameLayout,
    canvas_width: int,
    canvas_height: int,
    channels: int,
)
    ensures
        total_frame_samples(frames.push(frame), canvas_width, canvas_height, channels)
            == total_frame_samples(frames, canvas_width, canvas_height, channels) + frame_samples(
            frame,
            canvas_width,
            canvas_height,
            channels,
        ),
        total_frame_samples(Seq::empty(), canvas_width, canvas_height, channels) == 0,
{
    assert(frames.push(frame).drop_last() =~= frames);
}

/// An extra channel that is smaller by a power of two holds the canvas in cells
/// of that side, partly filled ones among them: `columns` and `rows` are the
/// least numbers of cells that cover it.
pub proof fn law_extra_channel_covers_the_canvas(
    canvas_width: nat,
    canvas_height: nat,
    shift: nat,
    columns: nat,
    rows: nat,
)
    requires
        canvas_width <= columns * pow2(shift),
        columns > 0 ==> (columns - 1) * pow2(shift) < canvas_width,
        canvas_height <= rows * pow2(shift),
        rows > 0 ==> (rows - 1) * pow2(shift) < canvas_height,
    ensures
        extra_channel_samples(canvas_width, canvas_height, shift) == columns * rows,
{
    lemma_pow2_pos(shift);
    lemma_least_cover(canvas_width, pow2(shift), columns);
    lemma_least_cover(canvas_height, pow2(shift), rows);
}

/// The samples of a header are counted wherever no extra channel is smaller by
/// 128 powers of two or more, in up to 32 bits of width and height and up to 256
/// extra channels.
pub proof fn law_sound_channels_are_counted(
    canvas_width: nat,
    canvas_height: nat,
    color_channels: nat,
    extra: Seq<JpegXlExtraChannel>,
    context: DngBlockContext<'_>,
)
    requires
        canvas_width <= u32::MAX,
        canvas_height <= u32::MAX,
        color_channels <= 3,
        extra.len() <= 256,
    ensures
        counted_samples(canvas_width, canvas_height, color_channels, extra, context) is Ok <==> (
        forall|i: int| 0 <= i < extra.len() ==> (#[trigger] extra[i]).dim_shift < 128),
        counted_samples(canvas_width, canvas_height, color_channels, extra, context) matches Ok(
            samples,
        ) ==> samples <= (3 + extra.len()) * u64::MAX,
    decreases extra.len(),
{
    assert(canvas_width * canvas_height * color_channels <= 3 * u64::MAX) by (nonlinear_arith)
        requires
            0 <= canvas_width <= u32::MAX,
            0 <= canvas_height <= u32::MAX,
            0 <= color_channels <= 3,
    ;
    if extra.len() > 0 {
        let before = extra.drop_last();
        let shift = extra.last().dim_shift as nat;
        law_sound_channels_are_counted(
            canvas_width,
            canvas_height,
            color_channels,
            before,
            context,
        );
        lemma_extra_channel_samples_bounded(canvas_width, canvas_height, shift);
        assert((3 + extra.len()) * u64::MAX == (3 + before.len()) * u64::MAX + u64::MAX)
            by (nonlinear_arith)
            requires
                extra.len() == before.len() + 1,
        ;
        assert((3 + extra.len()) * u64::MAX <= u128::MAX) by (nonlinear_arith)
            requires
                0 <= extra.len() <= 256,
        ;
        if forall|i: int| 0 <= i < extra.len() ==> (#[trigger] extra[i]).dim_shift < 128 {
            assert forall|i: int| 0 <= i < before.len() implies (
            #[trigger] before[i]).dim_shift < 128 by {
                assert(before[i] == extra[i]);
            }
            assert(extra[extra.len() - 1].dim_shift < 128);
        }
        if counted_samples(canvas_width, canvas_height, color_channels, extra, context) is Ok {
            assert forall|i: int| 0 <= i < extra.len() implies (
            #[trigger] extra[i]).dim_shift < 128 by {
                if i < before.len() {
                    assert(extra[i] == before[i]);
                }
            }
        }
    }
}

/// What is found of a JPEG XL is its size as it is shown, with the sides changed
/// from orientation 5 on; one channel for grey or three for colour, and one for
/// black; and the samples of the colour and of all extra channels. The frames
/// that it depends on have been accepted.
pub proof fn law_header_tells_the_image(
    header: JpegXlImageHeaderView,
    frames: Seq<JpegXlFrameLayout>,
    context: DngBlockContext<'_>,
)
    requires
        header.extra_channels.len() <= 256,
    ensures
        header_outcome(header, frames, context) matches Ok(found) ==> {
            let colors: nat = if header.grayscale {
                1
            } else {
                3
            };
            let black = exists|i: int|
                0 <= i < header.extra_channels.len() && (
                #[trigger] header.extra_channels[i]).is_black;
            &&& header.orientation >= 5 ==> found.width == header.canvas_height && found.height
                == header.canvas_width
            &&& header.orientation < 5 ==> found.width == header.canvas_width && found.height
                == header.canvas_height
            &&& black ==> found.output_channels == colors + 1
            &&& !black ==> found.output_channels == colors
            &&& found.rendered_samples == header.canvas_width * header.canvas_height * colors
                + extra_samples(
                header.canvas_width as nat,
                header.canvas_height as nat,
                header.extra_channels,
            )
            &&& frames_within_side_limit(
                frames,
                header.canvas_width as int,
                header.canvas_height as int,
            )
            &&& total_frame_samples(
                frames,
                header.canvas_width as int,
                header.canvas_height as int,
                (colors + header.extra_channels.len()) as int,
            ) <= 3 * found.rendered_samples
        },
{
    let width = header.canvas_width as nat;
    let height = header.canvas_height as nat;
    let colors = header.color_channels();
    law_every_channel_counts(width, height, colors, header.extra_channels, context);
    law_sound_channels_are_counted(width, height, colors, header.extra_channels, context);
    if let Ok(samples) = counted_samples(width, height, colors, header.extra_channels, context) {
        assert((3 + header.extra_channels.len()) * u64::MAX <= 259 * u64::MAX) by (nonlinear_arith)
            requires
                0 <= header.extra_channels.len() <= 256,
        ;
        law_dependency_frames_are_bounded(
            frames,
            width,
            height,
            colors + header.extra_channels.len(),
            samples,
            context,
        );
    }
}

/// A header is accepted wherever its channels can be counted and the frames that
/// it depends on keep to the longest side and to three times its samples.
pub proof fn law_sound_header_is_accepted(
    header: JpegXlImageHeaderView,
    frames: Seq<JpegXlFrameLayout>,
    context: DngBlockContext<'_>,
)
    requires
        header.extra_channels.len() <= 256,
        forall|i: int|
            0 <= i < header.extra_channels.len() ==> (
            #[trigger] header.extra_channels[i]).dim_shift < 128,
        frames_within_side_limit(
            frames,
            header.canvas_width as int,
            header.canvas_height as int,
        ),
        total_frame_samples(
            frames,
            header.canvas_width as int,
            header.canvas_height as int,
            (if header.grayscale {
                1int
            } else {
                3int
            }) + header.extra_channels.len(),
        ) <= 3 * (header.canvas_width * header.canvas_height * (if header.grayscale {
            1int
        } else {
            3int
        }) + extra_samples(
            header.canvas_width as nat,
            header.canvas_height as nat,
            header.extra_channels,
        )),
    ensures
        header_outcome(header, frames, context) is Ok,
{
    let width = header.canvas_width as nat;
    let height = header.canvas_height as nat;
    let colors = header.color_channels();
    law_every_channel_counts(width, height, colors, header.extra_channels, context);
    law_sound_channels_are_counted(width, height, colors, header.extra_channels, context);
    if let Ok(samples) = counted_samples(width, height, colors, header.extra_channels, context) {
        assert((3 + header.extra_channels.len()) * u64::MAX <= 259 * u64::MAX) by (nonlinear_arith)
            requires
                0 <= header.extra_channels.len() <= 256,
        ;
        law_dependency_frames_are_bounded(
            frames,
            width,
            height,
            colors + header.extra_channels.len(),
            samples,
            context,
        );
    }
}

/// A frame keeps to the longest side where neither side that counts is longer
/// than 50000.
pub proof fn law_frame_sides_are_bounded(
    frames: Seq<JpegXlFrameLayout>,
    canvas_width: int,
    canvas_height: int,
    i: int,
)
    requires
        frames_within_side_limit(frames, canvas_width, canvas_height),
        0 <= i < frames.len(),
    ensures
        frames[i].is_reference_only ==> frames[i].width <= 50_000 && frames[i].height <= 50_000,
        !frames[i].is_reference_only ==> canvas_intersection(
            frames[i].x0 as int,
            frames[i].width as int,
            canvas_width,
        ) <= 50_000 && canvas_intersection(
            frames[i].y0 as int,
            frames[i].height as int,
            canvas_height,
        ) <= 50_000,
{
    let frame = frames[i];
}

} // verus!
