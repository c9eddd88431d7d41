//! The guardrails for the payloads that the blocks of a DNG are compressed to.
//!
//! A payload declares dimensions of its own, and its decoder allocates by them
//! before it copies into the image. Small dimensions of the image could so hide
//! a far larger allocation. Each payload is therefore inspected, and has to fit
//! the block that it fills.

use rawler::formats::tiff::IFD;
use rawler::rawsource::RawSource;
use vstd::prelude::*;
use vstd::string::*;

use crate::arith::{ceil_div, div_ceil_usize, lemma_ceil_div, lemma_least_cover};
use crate::dng_block::{block_error, DngBlockContext};
use crate::dng_ifd::{
    holds_blocks, ifd_base, ifd_longs, ifd_number, ifd_numbers, ifd_short, ifd_shorts, ifd_storage,
    lookup, no_storage_text, sound_strip_table, source_bytes, storage_of, strip_error,
    strip_payloads, strip_table_is_sound, strips_of, tile_error, tile_payloads, tiles_of, Storage,
    TAG_COMPRESSION, TAG_IMAGE_LENGTH, TAG_IMAGE_WIDTH, TAG_ROWS_PER_STRIP, TAG_SAMPLES_PER_PIXEL,
    TAG_TILE_LENGTH, TAG_TILE_WIDTH,
};
use crate::error::{
    image_error, image_error_because, is_decode_error, settles_as, ImageError, ImageResult,
};
use crate::jpeg_xl::JpegXlHeaderDimensions;
use crate::jpeg_xl_preflight::{
    inspect_jpeg_xl_header, inspection, may_answer_all, Answer, JpegXlPreflightDecoder,
};
use crate::raw_limits::{
    side_limit_text, size_text, validate_raw_side_limit, within_side_limit, write_size,
    RAW_MAX_DECODED_SAMPLES,
};
use crate::text::{decimal, decimal_text, usize_text};

verus! {

pub const DNG_COMPRESSION_MODERN_JPEG: u16 = 7;

pub const DNG_COMPRESSION_JPEG_XL: u16 = 52_546;

/// What a block expects of its payload.
#[derive(Clone, Copy)]
pub struct BlockDemand {
    /// The width of the block, in pixels.
    pub pixel_width: usize,
    /// The width of the block, in samples.
    pub sample_width: usize,
    /// The least number of rows.
    pub minimum_height: usize,
    /// The greatest number of rows.
    pub maximum_height: usize,
    pub samples_per_pixel: usize,
}

// ---------------------------------------------------------------------------
// Lossless JPEG
// ---------------------------------------------------------------------------

/// So many samples fill whole rows of a block, and no fewer and no more rows
/// than it expects.
pub open spec fn fills_rows(
    samples: int,
    sample_width: int,
    minimum_height: int,
    maximum_height: int,
) -> bool {
    &&& sample_width != 0
    &&& samples % sample_width == 0
    &&& sample_width * minimum_height <= samples <= sample_width * maximum_height
}

pub open spec fn misfit_text(
    width: nat,
    height: nat,
    sample_width: nat,
    minimum_height: nat,
    maximum_height: nat,
    context: DngBlockContext<'_>,
) -> Seq<char> {
    "lossless-JPEG "@ + context.text() + " declares "@ + decimal(width * height) + " samples ("@
        + size_text(width, height) + "); expected "@ + decimal(sample_width * minimum_height)
        + "..="@ + decimal(sample_width * maximum_height)
        + " samples in complete destination rows of "@ + decimal(sample_width)
}

/// What becomes of a lossless JPEG of the given dimensions.
pub open spec fn lossless_outcome(
    width: nat,
    height: nat,
    sample_width: nat,
    minimum_height: nat,
    maximum_height: nat,
    context: DngBlockContext<'_>,
) -> Result<u128, Seq<char>> {
    if fills_rows(
        (width * height) as int,
        sample_width as int,
        minimum_height as int,
        maximum_height as int,
    ) {
        Ok((width * height) as u128)
    } else {
        Err(
            misfit_text(
                width,
                height,
                sample_width,
                minimum_height,
                maximum_height,
                context,
            ),
        )
    }
}

/// The product of two lengths.
fn area(width: usize, height: usize) -> (r: u128)
    ensures
        r == width * height,
{
    assert(0 <= width * height <= usize::MAX * usize::MAX) by (nonlinear_arith)
        requires
            0 <= width <= usize::MAX,
            0 <= height <= usize::MAX,
    ;
    (width as u128) * (height as u128)
}

/// Accepts a lossless JPEG whose samples fill whole rows of the block. Its own
/// width need not be that of the block.
pub fn validate_dng_lossless_jpeg_sample_count(
    jpeg_sample_width: usize,
    jpeg_height: usize,
    expected_sample_width: usize,
    minimum_height: usize,
    maximum_height: usize,
    context: DngBlockContext<'_>,
) -> (r: ImageResult<u128>)
    ensures
        settles_as(
            r,
            lossless_outcome(
                jpeg_sample_width as nat,
                jpeg_height as nat,
                expected_sample_width as nat,
                minimum_height as nat,
                maximum_height as nat,
                context,
            ),
        ),
{
    let declared: u128 = area(jpeg_sample_width, jpeg_height);
    let minimum: u128 = area(expected_sample_width, minimum_height);
    let maximum: u128 = area(expected_sample_width, maximum_height);
    if declared < minimum || declared > maximum || expected_sample_width == 0 || declared % (
    expected_sample_width as u128) != 0 {
        let mut message = "lossless-JPEG ".to_owned();
        message.append(context.write().as_str());
        message.append(" declares ");
        message.append(decimal_text(declared).as_str());
        message.append(" samples (");
        message.append(write_size(jpeg_sample_width, jpeg_height).as_str());
        message.append("); expected ");
        message.append(decimal_text(minimum).as_str());
        message.append("..=");
        message.append(decimal_text(maximum).as_str());
        message.append(" samples in complete destination rows of ");
        message.append(usize_text(expected_sample_width).as_str());
        return Err(ImageError::Decode(message));
    }
    Ok(declared)
}

// ---------------------------------------------------------------------------
// JPEG XL
// ---------------------------------------------------------------------------

pub open spec fn incompatible_text(
    header: JpegXlHeaderDimensions,
    demand: BlockDemand,
    context: DngBlockContext<'_>,
) -> Seq<char> {
    "compressed "@ + context.text() + " has incompatible JPEG-XL pixel dimensions "@ + size_text(
        header.width as nat,
        header.height as nat,
    ) + "; expected width "@ + decimal(demand.pixel_width as nat) + " and height "@ + decimal(
        demand.minimum_height as nat,
    ) + "..="@ + decimal(demand.maximum_height as nat)
}

pub open spec fn channels_text(
    header: JpegXlHeaderDimensions,
    demand: BlockDemand,
    context: DngBlockContext<'_>,
) -> Seq<char> {
    "JPEG-XL "@ + context.text() + " declares "@ + decimal(header.output_channels as nat)
        + " output channels, expected "@ + decimal(demand.samples_per_pixel as nat)
}

pub open spec fn rendered_text(
    header: JpegXlHeaderDimensions,
    demand: BlockDemand,
    context: DngBlockContext<'_>,
) -> Seq<char> {
    "JPEG-XL "@ + context.text() + " declares "@ + decimal(header.rendered_samples as nat)
        + " rendered samples, exceeding the expected block allocation "@ + decimal(
        demand.sample_width as nat * demand.maximum_height as nat,
    )
}

/// What becomes of a JPEG XL with the given header.
pub open spec fn jpeg_xl_outcome(
    header: JpegXlHeaderDimensions,
    demand: BlockDemand,
    context: DngBlockContext<'_>,
) -> Result<u128, Seq<char>> {
    let sample_width = header.width as nat * header.output_channels as nat;
    if header.width != demand.pixel_width || !(demand.minimum_height <= header.height
        <= demand.maximum_height) {
        Err(incompatible_text(header, demand, context))
    } else if header.output_channels != demand.samples_per_pixel {
        Err(channels_text(header, demand, context))
    } else if sample_width > usize::MAX {
        Err("JPEG-XL "@ + context.text() + " sample width overflows"@)
    } else if !within_side_limit(sample_width as int, header.height as int) {
        Err(
            side_limit_text(
                context.source_name@,
                "embedded JPEG-XL sample dimensions"@,
                sample_width,
                header.height as nat,
            ),
        )
    } else if header.rendered_samples > demand.sample_width * demand.maximum_height {
        Err(rendered_text(header, demand, context))
    } else {
        Ok(header.rendered_samples)
    }
}

/// Accepts a JPEG XL that has the dimensions and channels of the block, and
/// takes no more samples to decode than the block holds.
pub fn validate_dng_jpeg_xl_header(
    header: JpegXlHeaderDimensions,
    demand: BlockDemand,
    context: DngBlockContext<'_>,
) -> (r: ImageResult<u128>)
    ensures
        settles_as(r, jpeg_xl_outcome(header, demand, context)),
{
    if header.width != demand.pixel_width || header.height < demand.minimum_height
        || header.height > demand.maximum_height {
        let mut message = "compressed ".to_owned();
        message.append(context.write().as_str());
        message.append(" has incompatible JPEG-XL pixel dimensions ");
        message.append(write_size(header.width, header.height).as_str());
        message.append("; expected width ");
        message.append(usize_text(demand.pixel_width).as_str());
        message.append(" and height ");
        message.append(usize_text(demand.minimum_height).as_str());
        message.append("..=");
        message.append(usize_text(demand.maximum_height).as_str());
        return Err(ImageError::Decode(message));
    }
    if header.output_channels != demand.samples_per_pixel {
        let mut message = "JPEG-XL ".to_owned();
        message.append(context.write().as_str());
        message.append(" declares ");
        message.append(usize_text(header.output_channels).as_str());
        message.append(" output channels, expected ");
        message.append(usize_text(demand.samples_per_pixel).as_str());
        return Err(ImageError::Decode(message));
    }
    assert(0 <= header.width * header.output_channels) by (nonlinear_arith)
        requires
            0 <= header.width,
            0 <= header.output_channels,
    ;
    let sample_width: usize = match header.width.checked_mul(header.output_channels) {
        Some(sample_width) => sample_width,
        None => {
            return block_error("JPEG-XL ", context, " sample width overflows");
        },
    };
    match validate_raw_side_limit(
        sample_width,
        header.height,
        context.source_name,
        "embedded JPEG-XL sample dimensions",
    ) {
        Err(error) => {
            return Err(error);
        },
        Ok(()) => {},
    }
    let allocation: u128 = area(demand.sample_width, demand.maximum_height);
    if header.rendered_samples > allocation {
        let mut message = "JPEG-XL ".to_owned();
        message.append(context.write().as_str());
        message.append(" declares ");
        message.append(decimal_text(header.rendered_samples).as_str());
        message.append(" rendered samples, exceeding the expected block allocation ");
        message.append(decimal_text(allocation).as_str());
        return Err(ImageError::Decode(message));
    }
    Ok(header.rendered_samples)
}

// ---------------------------------------------------------------------------
// One payload
// ---------------------------------------------------------------------------

/// What a look at the header of a lossless JPEG finds: its width in samples and
/// its height, or why it cannot be read.
pub type LosslessHeader = Result<(usize, usize), String>;

/// What a look at the header of a payload finds. Which of the two counts
/// depends on how the payload is compressed.
pub struct PayloadLook {
    /// What it finds in a lossless JPEG.
    pub lossless: LosslessHeader,
    /// What it finds in a JPEG XL, or why that is refused.
    pub jpeg_xl: Result<JpegXlHeaderDimensions, Seq<char>>,
}

/// What becomes of a payload, given what a look at its header finds.
pub open spec fn payload_outcome(
    compression: u16,
    demand: BlockDemand,
    look: PayloadLook,
    context: DngBlockContext<'_>,
) -> Result<u128, Seq<char>> {
    if compression == DNG_COMPRESSION_MODERN_JPEG {
        match look.lossless {
            Err(text) => Err(
                "failed to inspect lossless-JPEG "@ + context.text() + ": "@ + text@,
            ),
            Ok((width, height)) => lossless_outcome(
                width as nat,
                height as nat,
                demand.sample_width as nat,
                demand.minimum_height as nat,
                demand.maximum_height as nat,
                context,
            ),
        }
    } else if compression == DNG_COMPRESSION_JPEG_XL {
        match look.jpeg_xl {
            Err(text) => Err(text),
            Ok(header) => jpeg_xl_outcome(header, demand, context),
        }
    } else {
        Ok(0)
    }
}

/// A look at `payload` may find this. `inspect` looks at a lossless JPEG, and
/// `try_init` makes an image of what a JPEG XL decoder holds.
pub open spec fn may_find<
    F: Fn(&[u8]) -> LosslessHeader,
    G: Fn(jxl_oxide::UninitializedJxlImage) -> Result<JpegXlPreflightDecoder, String>,
>(
    inspect: F,
    try_init: G,
    compression: u16,
    payload: &[u8],
    look: PayloadLook,
    context: DngBlockContext<'_>,
) -> bool {
    &&& compression == DNG_COMPRESSION_MODERN_JPEG ==> inspect.ensures((payload,), look.lossless)
    &&& compression == DNG_COMPRESSION_JPEG_XL ==> exists|answers: Seq<Answer>|
        may_answer_all(try_init, answers) && #[trigger] inspection(payload@, context, answers)
            == Some(look.jpeg_xl)
}

/// The samples that a payload takes to decode, if it fits its block.
///
/// `inspect` looks at the header of a lossless JPEG, and `try_init` makes an
/// image of what a JPEG XL decoder holds. They are handed in because the
/// decoders that they ask may panic on a damaged header.
pub fn validate_dng_codec_payload_dimensions<
    F: Fn(&[u8]) -> LosslessHeader,
    G: Fn(jxl_oxide::UninitializedJxlImage) -> Result<JpegXlPreflightDecoder, String>,
>(
    payload: &[u8],
    compression: u16,
    demand: BlockDemand,
    context: DngBlockContext<'_>,
    inspect: &F,
    try_init: &G,
) -> (r: ImageResult<u128>)
    requires
        compression == DNG_COMPRESSION_MODERN_JPEG ==> inspect.requires((payload,)),
        forall|decoder: jxl_oxide::UninitializedJxlImage| try_init.requires((decoder,)),
    ensures
        exists|look: PayloadLook| #[trigger]
            may_find(*inspect, *try_init, compression, payload, look, context) && settles_as(
                r,
                payload_outcome(compression, demand, look, context),
            ),
{
    let ghost nothing = PayloadLook { lossless: Ok((0, 0)), jpeg_xl: arbitrary() };
    if compression == DNG_COMPRESSION_MODERN_JPEG {
        let header = inspect(payload);
        let ghost found = PayloadLook { lossless: header, ..nothing };
        let r = match header {
            Err(text) => {
                let mut message = "failed to inspect lossless-JPEG ".to_owned();
                message.append(context.write().as_str());
                message.append(": ");
                message.append(text.as_str());
                Err(ImageError::Decode(message))
            },
            Ok((width, height)) => validate_dng_lossless_jpeg_sample_count(
                width,
                height,
                demand.sample_width,
                demand.minimum_height,
                demand.maximum_height,
                context,
            ),
        };
        assert(may_find(*inspect, *try_init, compression, payload, found, context));
        return r;
    }
    if compression == DNG_COMPRESSION_JPEG_XL {
        let header = inspect_jpeg_xl_header(payload, context, try_init);
        proof {
            let answers = choose|answers: Seq<Answer>|
                {
                    &&& may_answer_all(*try_init, answers)
                    &&& #[trigger] inspection(payload@, context, answers) matches Some(expected)
                        && settles_as(header, expected)
                };
            let found = PayloadLook {
                jpeg_xl: inspection(payload@, context, answers).unwrap(),
                ..nothing
            };
            assert(inspection(payload@, context, answers) == Some(found.jpeg_xl));
            assert(may_find(*inspect, *try_init, compression, payload, found, context));
        }
        match header {
            Err(error) => Err(error),
            Ok(header) => validate_dng_jpeg_xl_header(header, demand, context),
        }
    } else {
        assert(may_find(*inspect, *try_init, compression, payload, nothing, context));
        Ok(0)
    }
}

/// An accepted payload takes no more samples than its block holds.
pub proof fn law_accepted_payload_fits_block(
    compression: u16,
    demand: BlockDemand,
    look: PayloadLook,
    context: DngBlockContext<'_>,
)
    ensures
        payload_outcome(compression, demand, look, context) matches Ok(samples)
            ==> samples <= demand.sample_width * demand.maximum_height,
{
    let most = demand.sample_width * demand.maximum_height;
    assert(0 <= most <= usize::MAX * usize::MAX) by (nonlinear_arith)
        requires
            most == demand.sample_width * demand.maximum_height,
            0 <= demand.sample_width <= usize::MAX,
            0 <= demand.maximum_height <= usize::MAX,
    ;
    if let Ok((width, height)) = look.lossless {
        assert(0 <= width * height) by (nonlinear_arith)
            requires
                0 <= width,
                0 <= height,
        ;
    }
}

// ---------------------------------------------------------------------------
// All payloads
// ---------------------------------------------------------------------------

/// How an image is cut into compressed blocks.
#[derive(Clone, Copy)]
pub struct BlockLayout {
    pub compression: u16,
    pub is_tiled: bool,
    pub samples_per_pixel: usize,
    /// The width of a block, in pixels.
    pub block_width: usize,
    /// The width of a block, in samples.
    pub sample_width: usize,
    /// The rows of a block. The last strip may have fewer.
    pub block_height: usize,
    /// The rows of the image.
    pub image_height: usize,
    pub block_count: usize,
}

impl BlockLayout {
    pub open spec fn kind(self) -> &'static str {
        if self.is_tiled {
            "tile"
        } else {
            "strip"
        }
    }

    /// The rows of the image that lie in the strip at `index`.
    pub open spec fn strip_rows(self, index: int) -> int {
        let left = self.image_height - index * self.block_height;
        if left <= 0 {
            0
        } else if left < self.block_height {
            left
        } else {
            self.block_height as int
        }
    }

    /// What the block at `index` expects. A tile is always whole. A last strip
    /// may be filled up to the rows of the others, but where there is only one
    /// it has the rows of the image.
    pub open spec fn demand(self, index: int) -> BlockDemand {
        BlockDemand {
            pixel_width: self.block_width,
            sample_width: self.sample_width,
            minimum_height: if self.is_tiled {
                self.block_height
            } else {
                self.strip_rows(index) as usize
            },
            maximum_height: if self.is_tiled || self.block_count > 1 {
                self.block_height
            } else {
                self.strip_rows(index) as usize
            },
            samples_per_pixel: self.samples_per_pixel,
        }
    }

    /// The block at `index`, for messages.
    pub open spec fn context<'a>(self, index: int, source_name: &'a str) -> DngBlockContext<'a> {
        DngBlockContext { kind: self.kind(), index: index as usize, source_name }
    }

    /// Strips are as many as it takes to cover the image.
    pub open spec fn well_formed(self) -> bool {
        &&& self.block_height > 0
        &&& !self.is_tiled ==> self.block_count == ceil_div(
            self.image_height as nat,
            self.block_height as nat,
        )
    }
}

pub open spec fn missing_tag_text(source_name: Seq<char>) -> Seq<char> {
    "compressed DNG image '"@ + source_name + "' is missing a required TIFF tag"@
}

/// A tag that a compressed image needs.
pub fn dng_required_usize_tag(raw_ifd: &IFD, tag: u16, source_name: &str) -> (r: ImageResult<usize>)
    ensures
        settles_as(
            r,
            match lookup(ifd_numbers(*raw_ifd), tag) {
                Some(value) => Ok(value),
                None => Err(missing_tag_text(source_name@)),
            },
        ),
{
    match ifd_number(raw_ifd, tag) {
        Some(value) => Ok(value),
        None => image_error(
            "compressed DNG image '",
            source_name,
            "' is missing a required TIFF tag",
        ),
    }
}

pub open spec fn block_count_text(
    source_name: Seq<char>,
    declared: nat,
    kind: Seq<char>,
    expected: nat,
) -> Seq<char> {
    "compressed DNG image '"@ + source_name + "' declares "@ + decimal(declared) + " "@ + kind
        + "s but dimensions require "@ + decimal(expected)
}

fn block_count_error<T>(source_name: &str, declared: usize, kind: &str, expected: usize) -> (r:
    ImageResult<T>)
    ensures
        is_decode_error(
            r,
            block_count_text(source_name@, declared as nat, kind@, expected as nat),
        ),
{
    let mut message = "compressed DNG image '".to_owned();
    message.append(source_name);
    message.append("' declares ");
    message.append(usize_text(declared).as_str());
    message.append(" ");
    message.append(kind);
    message.append("s but dimensions require ");
    message.append(usize_text(expected).as_str());
    Err(ImageError::Decode(message))
}

/// What the tags of a directory and the file behind it say.
pub struct IfdFacts {
    pub numbers: Map<u16, usize>,
    pub shorts: Map<u16, u16>,
    pub longs: Map<u16, Seq<u32>>,
    pub base: u32,
    pub bytes: Seq<u8>,
}

/// What a directory says.
pub open spec fn facts_of(ifd: IFD, source: RawSource) -> IfdFacts {
    IfdFacts {
        numbers: ifd_numbers(ifd),
        shorts: ifd_shorts(ifd),
        longs: ifd_longs(ifd),
        base: ifd_base(ifd),
        bytes: source_bytes(source),
    }
}

/// The blocks of an image: how it is cut, and their payloads.
pub type Blocks = (BlockLayout, Seq<Seq<u8>>);

/// The strips of an image of the given width, height and samples for each
/// pixel.
pub open spec fn strip_blocks(
    facts: IfdFacts,
    compression: u16,
    width: usize,
    height: usize,
    samples: usize,
    source_name: Seq<char>,
) -> Result<Blocks, Seq<char>> {
    let rows = match lookup(facts.numbers, TAG_ROWS_PER_STRIP) {
        Some(rows) => rows,
        None => height,
    };
    let expected = ceil_div(height as nat, rows as nat);
    if rows == 0 {
        Err("compressed DNG image '"@ + source_name + "' has invalid RowsPerStrip value 0"@)
    } else if !sound_strip_table(facts.longs, facts.base) {
        Err(
            "failed to inspect compressed DNG strips for '"@ + source_name
                + "': the strip table is empty or exceeds 32 bits"@,
        )
    } else {
        match strips_of(facts.longs, facts.base, facts.bytes) {
            None => Err(
                "failed to inspect compressed DNG strips for '"@ + source_name + "': "@
                    + strip_error(facts.numbers, facts.longs, facts.base, facts.bytes),
            ),
            Some(strips) => if strips.len() != expected {
                Err(block_count_text(source_name, strips.len(), "strip"@, expected))
            } else if width * samples > usize::MAX {
                Err("compressed DNG image '"@ + source_name + "' sample width overflows"@)
            } else {
                Ok(
                    (
                        BlockLayout {
                            compression,
                            is_tiled: false,
                            samples_per_pixel: samples,
                            block_width: width,
                            sample_width: (width * samples) as usize,
                            block_height: rows,
                            image_height: height,
                            block_count: expected as usize,
                        },
                        strips,
                    ),
                )
            },
        }
    }
}

/// The tiles of an image of the given width, height and samples for each
/// pixel.
pub open spec fn tile_blocks(
    facts: IfdFacts,
    compression: u16,
    width: usize,
    height: usize,
    samples: usize,
    source_name: Seq<char>,
) -> Result<Blocks, Seq<char>> {
    match (lookup(facts.numbers, TAG_TILE_WIDTH), lookup(facts.numbers, TAG_TILE_LENGTH)) {
        (Some(tile_width), Some(tile_height)) => {
            let expected = ceil_div(width as nat, tile_width as nat) * ceil_div(
                height as nat,
                tile_height as nat,
            );
            if tile_width == 0 || tile_height == 0 {
                Err(
                    "compressed DNG image '"@ + source_name + "' has invalid tile dimensions "@
                        + size_text(tile_width as nat, tile_height as nat),
                )
            } else if expected > usize::MAX {
                Err("compressed DNG image '"@ + source_name + "' tile count overflows"@)
            } else {
                match tiles_of(facts.longs, facts.bytes) {
                    None => Err(
                        "failed to inspect compressed DNG tiles for '"@ + source_name + "': "@
                            + tile_error(facts.longs, facts.bytes),
                    ),
                    Some(tiles) => if tiles.len() != expected {
                        Err(block_count_text(source_name, tiles.len(), "tile"@, expected))
                    } else if tile_width * samples > usize::MAX {
                        Err(
                            "compressed DNG image '"@ + source_name
                                + "' tile sample width overflows"@,
                        )
                    } else {
                        Ok(
                            (
                                BlockLayout {
                                    compression,
                                    is_tiled: true,
                                    samples_per_pixel: samples,
                                    block_width: tile_width,
                                    sample_width: (tile_width * samples) as usize,
                                    block_height: tile_height,
                                    image_height: height,
                                    block_count: expected as usize,
                                },
                                tiles,
                            ),
                        )
                    },
                }
            }
        },
        _ => Err(missing_tag_text(source_name)),
    }
}

/// How an image is compressed.
pub open spec fn compression_of(shorts: Map<u16, u16>) -> u16 {
    match lookup(shorts, TAG_COMPRESSION) {
        Some(compression) => compression,
        None => 1,
    }
}

/// The payloads of an image that have to be inspected, if it is compressed in
/// a way that needs it.
pub open spec fn compressed_blocks(facts: IfdFacts, source_name: Seq<char>) -> Result<
    Option<Blocks>,
    Seq<char>,
> {
    let compression = compression_of(facts.shorts);
    if compression != DNG_COMPRESSION_MODERN_JPEG && compression != DNG_COMPRESSION_JPEG_XL {
        Ok(None)
    } else {
        match (
            lookup(facts.numbers, TAG_IMAGE_WIDTH),
            lookup(facts.numbers, TAG_IMAGE_LENGTH),
            lookup(facts.numbers, TAG_SAMPLES_PER_PIXEL),
        ) {
            (Some(width), Some(height), Some(samples)) => if samples == 0 {
                Err("DNG image '"@ + source_name + "' has invalid SamplesPerPixel value 0"@)
            } else {
                let blocks = match storage_of(facts.numbers) {
                    None => Err(
                        "failed to inspect compressed DNG storage for '"@ + source_name + "': "@
                            + no_storage_text(),
                    ),
                    Some(Storage::Strips) => strip_blocks(
                        facts,
                        compression,
                        width,
                        height,
                        samples,
                        source_name,
                    ),
                    Some(Storage::Tiles) => tile_blocks(
                        facts,
                        compression,
                        width,
                        height,
                        samples,
                        source_name,
                    ),
                };
                match blocks {
                    Ok(blocks) => Ok(Some(blocks)),
                    Err(text) => Err(text),
                }
            },
            _ => Err(missing_tag_text(source_name)),
        }
    }
}

/// The layout and the payloads are those of `blocks`.
pub open spec fn are_blocks(layout: BlockLayout, payloads: Seq<&[u8]>, blocks: Blocks) -> bool {
    &&& layout == blocks.0
    &&& layout.well_formed()
    &&& payloads.len() == layout.block_count
    &&& holds_blocks(payloads, blocks.1)
}

fn dng_strip_blocks<'a>(
    raw_ifd: &IFD,
    source: &'a RawSource,
    compression: u16,
    width: usize,
    height: usize,
    samples: usize,
    source_name: &str,
) -> (r: ImageResult<(BlockLayout, Vec<&'a [u8]>)>)
    ensures
        match strip_blocks(
            facts_of(*raw_ifd, *source),
            compression,
            width,
            height,
            samples,
            source_name@,
        ) {
            Ok(blocks) => r matches Ok((layout, payloads)) && are_blocks(layout, payloads@, blocks),
            Err(text) => is_decode_error(r, text),
        },
{
    let rows: usize = match ifd_number(raw_ifd, TAG_ROWS_PER_STRIP) {
        Some(rows) => rows,
        None => height,
    };
    if rows == 0 {
        return image_error(
            "compressed DNG image '",
            source_name,
            "' has invalid RowsPerStrip value 0",
        );
    }
    let expected: usize = div_ceil_usize(height, rows);
    if !strip_table_is_sound(raw_ifd) {
        return image_error(
            "failed to inspect compressed DNG strips for '",
            source_name,
            "': the strip table is empty or exceeds 32 bits",
        );
    }
    let strips = match strip_payloads(raw_ifd, source) {
        Ok(strips) => strips,
        Err(text) => {
            return image_error_because(
                "failed to inspect compressed DNG strips for '",
                source_name,
                "': ",
                text.as_str(),
            );
        },
    };
    if strips.len() != expected {
        return block_count_error(source_name, strips.len(), "strip", expected);
    }
    match width.checked_mul(samples) {
        None => image_error("compressed DNG image '", source_name, "' sample width overflows"),
        Some(sample_width) => Ok(
            (
                BlockLayout {
                    compression,
                    is_tiled: false,
                    samples_per_pixel: samples,
                    block_width: width,
                    sample_width,
                    block_height: rows,
                    image_height: height,
                    block_count: expected,
                },
                strips,
            ),
        ),
    }
}

fn dng_tile_blocks<'a>(
    raw_ifd: &IFD,
    source: &'a RawSource,
    compression: u16,
    width: usize,
    height: usize,
    samples: usize,
    source_name: &str,
) -> (r: ImageResult<(BlockLayout, Vec<&'a [u8]>)>)
    ensures
        match tile_blocks(
            facts_of(*raw_ifd, *source),
            compression,
            width,
            height,
            samples,
            source_name@,
        ) {
            Ok(blocks) => r matches Ok((layout, payloads)) && are_blocks(layout, payloads@, blocks),
            Err(text) => is_decode_error(r, text),
        },
{
    let tile_width: usize = match dng_required_usize_tag(raw_ifd, TAG_TILE_WIDTH, source_name) {
        Ok(tile_width) => tile_width,
        Err(error) => {
            return Err(error);
        },
    };
    let tile_height: usize = match dng_required_usize_tag(raw_ifd, TAG_TILE_LENGTH, source_name) {
        Ok(tile_height) => tile_height,
        Err(error) => {
            return Err(error);
        },
    };
    if tile_width == 0 || tile_height == 0 {
        return image_error_because(
            "compressed DNG image '",
            source_name,
            "' has invalid tile dimensions ",
            write_size(tile_width, tile_height).as_str(),
        );
    }
    let expected: usize = match div_ceil_usize(width, tile_width).checked_mul(
        div_ceil_usize(height, tile_height),
    ) {
        Some(expected) => expected,
        None => {
            return image_error(
                "compressed DNG image '",
                source_name,
                "' tile count overflows",
            );
        },
    };
    let tiles = match tile_payloads(raw_ifd, source) {
        Ok(tiles) => tiles,
        Err(text) => {
            return image_error_because(
                "failed to inspect compressed DNG tiles for '",
                source_name,
                "': ",
                text.as_str(),
            );
        },
    };
    if tiles.len() != expected {
        return block_count_error(source_name, tiles.len(), "tile", expected);
    }
    match tile_width.checked_mul(samples) {
        None => image_error(
            "compressed DNG image '",
            source_name,
            "' tile sample width overflows",
        ),
        Some(sample_width) => Ok(
            (
                BlockLayout {
                    compression,
                    is_tiled: true,
                    samples_per_pixel: samples,
                    block_width: tile_width,
                    sample_width,
                    block_height: tile_height,
                    image_height: height,
                    block_count: expected,
                },
                tiles,
            ),
        ),
    }
}

/// The payloads of an image that have to be inspected, if it is compressed in
/// a way that needs it.
pub fn dng_compressed_blocks<'a>(raw_ifd: &IFD, source: &'a RawSource, source_name: &str) -> (r:
    ImageResult<Option<(BlockLayout, Vec<&'a [u8]>)>>)
    ensures
        match compressed_blocks(facts_of(*raw_ifd, *source), source_name@) {
            Ok(None) => r matches Ok(None),
            Ok(Some(blocks)) => r matches Ok(Some((layout, payloads))) && are_blocks(
                layout,
                payloads@,
                blocks,
            ),
            Err(text) => is_decode_error(r, text),
        },
{
    let compression: u16 = match ifd_short(raw_ifd, TAG_COMPRESSION) {
        Some(compression) => compression,
        None => 1,
    };
    if compression != DNG_COMPRESSION_MODERN_JPEG && compression != DNG_COMPRESSION_JPEG_XL {
        return Ok(None);
    }
    let width: usize = match dng_required_usize_tag(raw_ifd, TAG_IMAGE_WIDTH, source_name) {
        Ok(width) => width,
        Err(error) => {
            return Err(error);
        },
    };
    let height: usize = match dng_required_usize_tag(raw_ifd, TAG_IMAGE_LENGTH, source_name) {
        Ok(height) => height,
        Err(error) => {
            return Err(error);
        },
    };
    let samples: usize = match dng_required_usize_tag(raw_ifd, TAG_SAMPLES_PER_PIXEL, source_name) {
        Ok(samples) => samples,
        Err(error) => {
            return Err(error);
        },
    };
    if samples == 0 {
        return image_error("DNG image '", source_name, "' has invalid SamplesPerPixel value 0");
    }
    let blocks = match ifd_storage(raw_ifd) {
        Err(text) => image_error_because(
            "failed to inspect compressed DNG storage for '",
            source_name,
            "': ",
            text.as_str(),
        ),
        Ok(Storage::Strips) => dng_strip_blocks(
            raw_ifd,
            source,
            compression,
            width,
            height,
            samples,
            source_name,
        ),
        Ok(Storage::Tiles) => dng_tile_blocks(
            raw_ifd,
            source,
            compression,
            width,
            height,
            samples,
            source_name,
        ),
    };
    match blocks {
        Ok(blocks) => Ok(Some(blocks)),
        Err(error) => Err(error),
    }
}

/// What becomes of the payload at `index`.
pub open spec fn block_outcome(
    layout: BlockLayout,
    looks: Seq<PayloadLook>,
    index: int,
    source_name: &str,
) -> Result<u128, Seq<char>> {
    payload_outcome(
        layout.compression,
        layout.demand(index),
        looks[index],
        layout.context(index, source_name),
    )
}

/// What becomes of the first `n` payloads: the samples that they take together,
/// or why one of them is refused.
pub open spec fn total_outcome(
    layout: BlockLayout,
    looks: Seq<PayloadLook>,
    n: int,
    source_name: &str,
) -> Result<u128, Seq<char>>
    decreases n,
{
    if n <= 0 {
        Ok(0)
    } else {
        match total_outcome(layout, looks, n - 1, source_name) {
            Err(text) => Err(text),
            Ok(before) => match block_outcome(layout, looks, n - 1, source_name) {
                Err(text) => Err(text),
                Ok(samples) => if before + samples > u128::MAX {
                    Err(
                        "compressed DNG image '"@ + source_name@
                            + "' payload sample count overflows"@,
                    )
                } else {
                    Ok((before + samples) as u128)
                },
            },
        }
    }
}

pub open spec fn total_text(source_name: Seq<char>, total: nat) -> Seq<char> {
    "compressed DNG image '"@ + source_name
        + "' is too large to decode safely: embedded codec payloads declare "@ + decimal(total)
        + " samples, exceeding "@ + decimal(RAW_MAX_DECODED_SAMPLES as nat)
}

/// What becomes of an image, given what was found in the looks of its
/// payloads. Behind a refused payload none is looked at.
pub open spec fn codec_outcome(
    layout: BlockLayout,
    looks: Seq<PayloadLook>,
    source_name: &str,
) -> Result<(), Seq<char>> {
    match total_outcome(layout, looks, looks.len() as int, source_name) {
        Err(text) => Err(text),
        Ok(total) => if total > RAW_MAX_DECODED_SAMPLES {
            Err(total_text(source_name@, total as nat))
        } else {
            Ok(())
        },
    }
}

/// Looks at the payloads may find `looks`. They are those at all payloads, or
/// those up to one that is refused.
pub open spec fn may_find_all<
    F: Fn(&[u8]) -> LosslessHeader,
    G: Fn(jxl_oxide::UninitializedJxlImage) -> Result<JpegXlPreflightDecoder, String>,
>(
    inspect: F,
    try_init: G,
    layout: BlockLayout,
    payloads: Seq<&[u8]>,
    looks: Seq<PayloadLook>,
    source_name: &str,
) -> bool {
    &&& looks.len() <= payloads.len()
    &&& forall|i: int|
        0 <= i < looks.len() ==> may_find(
            inspect,
            try_init,
            layout.compression,
            payloads[i],
            #[trigger] looks[i],
            layout.context(i, source_name),
        )
    &&& looks.len() == payloads.len() || total_outcome(
        layout,
        looks,
        looks.len() as int,
        source_name,
    ) is Err
}

proof fn lemma_total_depends_on_looks_so_far(
    layout: BlockLayout,
    looks: Seq<PayloadLook>,
    more: Seq<PayloadLook>,
    n: int,
    source_name: &str,
)
    requires
        n <= looks.len() <= more.len(),
        forall|i: int| 0 <= i < looks.len() ==> looks[i] == more[i],
    ensures
        total_outcome(layout, looks, n, source_name) == total_outcome(
            layout,
            more,
            n,
            source_name,
        ),
    decreases n,
{
    if n > 0 {
        lemma_total_depends_on_looks_so_far(layout, looks, more, n - 1, source_name);
    }
}

/// What the block at `index` expects.
fn block_demand(layout: &BlockLayout, index: usize) -> (demand: BlockDemand)
    requires
        layout.well_formed(),
        index < layout.block_count,
    ensures
        demand == layout.demand(index as int),
{
    let (minimum_height, maximum_height): (usize, usize) = if layout.is_tiled {
        (layout.block_height, layout.block_height)
    } else {
        proof {
            lemma_ceil_div(layout.image_height as nat, layout.block_height as nat);
            assert(0 <= index * layout.block_height <= (layout.block_count - 1)
                * layout.block_height) by (nonlinear_arith)
                requires
                    0 <= index <= layout.block_count - 1,
                    0 <= layout.block_height,
            ;
            assert((layout.block_count - 1) * layout.block_height == layout.block_count
                * layout.block_height - layout.block_height) by (nonlinear_arith);
        }
        let first_row: usize = index * layout.block_height;
        let left: usize = layout.image_height - first_row;
        let rows: usize = if left < layout.block_height {
            left
        } else {
            layout.block_height
        };
        (
            rows,
            if layout.block_count > 1 {
                layout.block_height
            } else {
                rows
            },
        )
    };
    BlockDemand {
        pixel_width: layout.block_width,
        sample_width: layout.sample_width,
        minimum_height,
        maximum_height,
        samples_per_pixel: layout.samples_per_pixel,
    }
}

/// The samples that all payloads take together, if each fits its block.
pub fn validate_dng_blocks<
    F: Fn(&[u8]) -> LosslessHeader,
    G: Fn(jxl_oxide::UninitializedJxlImage) -> Result<JpegXlPreflightDecoder, String>,
>(
    layout: &BlockLayout,
    payloads: &Vec<&[u8]>,
    source_name: &str,
    inspect: &F,
    try_init: &G,
) -> (r: ImageResult<()>)
    requires
        layout.well_formed(),
        payloads@.len() == layout.block_count,
        forall|payload: &[u8]| inspect.requires((payload,)),
        forall|decoder: jxl_oxide::UninitializedJxlImage| try_init.requires((decoder,)),
    ensures
        exists|looks: Seq<PayloadLook>|
            #[trigger] may_find_all(
                *inspect,
                *try_init,
                *layout,
                payloads@,
                looks,
                source_name,
            ) && settles_as(
                r,
                codec_outcome(*layout, looks, source_name),
            ),
{
    let ghost mut looks: Seq<PayloadLook> = Seq::empty();
    let mut total: u128 = 0;
    let mut index: usize = 0;
    while index < payloads.len()
        invariant
            index <= payloads@.len(),
            layout.well_formed(),
            payloads@.len() == layout.block_count,
            forall|payload: &[u8]| inspect.requires((payload,)),
        forall|decoder: jxl_oxide::UninitializedJxlImage| try_init.requires((decoder,)),
            looks.len() == index,
            forall|i: int|
                0 <= i < looks.len() ==> may_find(
                    *inspect,
                    *try_init,
                    layout.compression,
                    payloads@[i],
                    #[trigger] looks[i],
                    layout.context(i, source_name),
                ),
            total_outcome(*layout, looks, index as int, source_name) == Ok::<
                u128,
                Seq<char>,
            >(total),
        decreases payloads@.len() - index,
    {
        let payload: &[u8] = payloads[index];
        let demand = block_demand(layout, index);
        let kind: &'static str = if layout.is_tiled {
            "tile"
        } else {
            "strip"
        };
        let context = DngBlockContext::new(kind, index, source_name);
        let r = validate_dng_codec_payload_dimensions(
            payload,
            layout.compression,
            demand,
            context,
            inspect,
            try_init,
        );
        proof {
            let look = choose|look: PayloadLook| #[trigger]
                may_find(*inspect, *try_init, layout.compression, payload, look, context)
                    && settles_as(
                    r,
                    payload_outcome(layout.compression, demand, look, context),
                );
            let more = looks.push(look);
            lemma_total_depends_on_looks_so_far(
                *layout,
                looks,
                more,
                index as int,
                source_name,
            );
            looks = more;
            assert(context == layout.context(index as int, source_name));
            assert(settles_as(
                r,
                block_outcome(*layout, looks, index as int, source_name),
            ));
        }
        let samples: u128 = match r {
            Ok(samples) => samples,
            Err(error) => {
                assert(may_find_all(*inspect, *try_init, *layout, payloads@, looks, source_name));
                return Err(error);
            },
        };
        if samples > u128::MAX - total {
            assert(may_find_all(*inspect, *try_init, *layout, payloads@, looks, source_name));
            return image_error(
                "compressed DNG image '",
                source_name,
                "' payload sample count overflows",
            );
        }
        total = total + samples;
        index = index + 1;
    }
    assert(may_find_all(*inspect, *try_init, *layout, payloads@, looks, source_name));
    if total > RAW_MAX_DECODED_SAMPLES {
        let mut message = "compressed DNG image '".to_owned();
        message.append(source_name);
        message.append(
            "' is too large to decode safely: embedded codec payloads declare ",
        );
        message.append(decimal_text(total).as_str());
        message.append(" samples, exceeding ");
        message.append(decimal_text(RAW_MAX_DECODED_SAMPLES).as_str());
        return Err(ImageError::Decode(message));
    }
    Ok(())
}

/// `r` is what may become of the compressed payloads of an image, given what
/// looks at their headers may find.
pub open spec fn codecs_may_settle<
    F: Fn(&[u8]) -> LosslessHeader,
    G: Fn(jxl_oxide::UninitializedJxlImage) -> Result<JpegXlPreflightDecoder, String>,
>(
    raw_ifd: IFD,
    source: RawSource,
    source_name: &str,
    inspect: F,
    try_init: G,
    r: ImageResult<()>,
) -> bool {
    match compressed_blocks(facts_of(raw_ifd, source), source_name@) {
        Ok(None) => r is Ok,
        Err(text) => is_decode_error(r, text),
        Ok(Some((layout, blocks))) => exists|payloads: Seq<&[u8]>, looks: Seq<PayloadLook>|
            {
                &&& holds_blocks(payloads, blocks)
                &&& #[trigger] may_find_all(inspect, try_init, layout, payloads, looks, source_name)
                &&& settles_as(r, codec_outcome(layout, looks, source_name))
            },
    }
}

/// Accepts an image whose compressed payloads all fit their blocks, and
/// together take no more samples to decode than a decoded buffer may hold.
///
/// `inspect` looks at the header of a lossless JPEG, and `try_init` makes an
/// image of what a JPEG XL decoder holds. They are handed in because the
/// decoders that they ask may panic on a damaged header.
pub fn validate_dng_embedded_codec_dimensions<
    F: Fn(&[u8]) -> LosslessHeader,
    G: Fn(jxl_oxide::UninitializedJxlImage) -> Result<JpegXlPreflightDecoder, String>,
>(
    raw_ifd: &IFD,
    source: &RawSource,
    source_name: &str,
    inspect: &F,
    try_init: &G,
) -> (r: ImageResult<()>)
    requires
        forall|payload: &[u8]| inspect.requires((payload,)),
        forall|decoder: jxl_oxide::UninitializedJxlImage| try_init.requires((decoder,)),
    ensures
        codecs_may_settle(*raw_ifd, *source, source_name, *inspect, *try_init, r),
{
    match dng_compressed_blocks(raw_ifd, source, source_name) {
        Err(error) => Err(error),
        Ok(None) => Ok(()),
        Ok(Some((layout, payloads))) => validate_dng_blocks(
            &layout,
            &payloads,
            source_name,
            inspect,
            try_init,
        ),
    }
}

/// The samples that the first `n` payloads take, where none is refused.
pub open spec fn total_samples(
    layout: BlockLayout,
    looks: Seq<PayloadLook>,
    n: int,
    source_name: &str,
) -> int
    decreases n,
{
    if n <= 0 {
        0
    } else {
        total_samples(layout, looks, n - 1, source_name) + block_outcome(
            layout,
            looks,
            n - 1,
            source_name,
        )->Ok_0
    }
}

/// In an accepted image no payload takes more samples than its block holds, and
/// all of them together keep to the sample limit.
pub proof fn law_accepted_payloads_are_bounded(
    layout: BlockLayout,
    looks: Seq<PayloadLook>,
    source_name: &str,
)
    requires
        codec_outcome(layout, looks, source_name) is Ok,
    ensures
        forall|i: int|
            0 <= i < looks.len() ==> (#[trigger] block_outcome(
                layout,
                looks,
                i,
                source_name,
            ) matches Ok(samples) && samples <= layout.demand(i).sample_width * layout.demand(
                i,
            ).maximum_height),
        total_samples(layout, looks, looks.len() as int, source_name)
            <= RAW_MAX_DECODED_SAMPLES,
{
    lemma_total_samples(layout, looks, looks.len() as int, source_name);
    assert forall|i: int| 0 <= i < looks.len() implies (#[trigger] block_outcome(
        layout,
        looks,
        i,
        source_name,
    ) matches Ok(samples) && samples <= layout.demand(i).sample_width * layout.demand(
        i,
    ).maximum_height) by {
        law_accepted_payload_fits_block(
            layout.compression,
            layout.demand(i),
            looks[i],
            layout.context(i, source_name),
        );
    }
}

proof fn lemma_total_samples(
    layout: BlockLayout,
    looks: Seq<PayloadLook>,
    n: int,
    source_name: &str,
)
    requires
        total_outcome(layout, looks, n, source_name) is Ok,
    ensures
        total_outcome(layout, looks, n, source_name)->Ok_0 == total_samples(
            layout,
            looks,
            n,
            source_name,
        ),
        forall|i: int|
            0 <= i < n ==> #[trigger] block_outcome(
                layout,
                looks,
                i,
                source_name,
            ) is Ok,
    decreases n,
{
    if n > 0 {
        lemma_total_samples(layout, looks, n - 1, source_name);
    }
}

/// The rows of the image that lie in the first `n` strips.
pub open spec fn rows_before(layout: BlockLayout, n: int) -> int
    decreases n,
{
    if n <= 0 {
        0
    } else {
        rows_before(layout, n - 1) + layout.strip_rows(n - 1)
    }
}

/// The strips of an image hold each of its rows once.
pub proof fn law_strips_cover_the_image(layout: BlockLayout)
    requires
        layout.well_formed(),
        !layout.is_tiled,
    ensures
        rows_before(layout, layout.block_count as int) == layout.image_height,
{
    lemma_ceil_div(layout.image_height as nat, layout.block_height as nat);
    lemma_rows_before(layout, layout.block_count as int);
}

proof fn lemma_rows_before(layout: BlockLayout, n: int)
    requires
        layout.block_height > 0,
        0 <= n,
    ensures
        rows_before(layout, n) == if n * layout.block_height < layout.image_height {
            n * layout.block_height
        } else {
            layout.image_height as int
        },
    decreases n,
{
    if n > 0 {
        lemma_rows_before(layout, n - 1);
        assert((n - 1) * layout.block_height == n * layout.block_height - layout.block_height)
            by (nonlinear_arith);
    } else {
        assert(0 * layout.block_height == 0);
    }
}

/// Where an image is one strip, its payload has exactly the rows of the image.
pub proof fn law_single_strip_gets_no_padding(layout: BlockLayout)
    requires
        layout.well_formed(),
        !layout.is_tiled,
        layout.block_count == 1,
    ensures
        layout.demand(0).minimum_height == layout.image_height,
        layout.demand(0).maximum_height == layout.image_height,
{
    law_strips_cover_the_image(layout);
    reveal_with_fuel(rows_before, 2);
}

/// Whether a lossless JPEG fills a block depends on the number of its samples,
/// not on how they are cut into rows.
pub proof fn law_shape_of_lossless_jpeg_is_free(
    width: nat,
    height: nat,
    other_width: nat,
    other_height: nat,
    sample_width: nat,
    minimum_height: nat,
    maximum_height: nat,
    context: DngBlockContext<'_>,
)
    requires
        width * height == other_width * other_height,
    ensures
        lossless_outcome(
            width,
            height,
            sample_width,
            minimum_height,
            maximum_height,
            context,
        ) is Ok <==> lossless_outcome(
            other_width,
            other_height,
            sample_width,
            minimum_height,
            maximum_height,
            context,
        ) is Ok,
{
}

/// Tiles cover every pixel of an image, and none lies beside it: `columns` and
/// `rows` are the least numbers of tiles that reach its right and its lower
/// edge, partly filled ones among them. A table with as many tiles is taken,
/// and one with fewer or more is refused.
pub proof fn law_tiles_cover_the_image(
    facts: IfdFacts,
    compression: u16,
    width: usize,
    height: usize,
    samples: usize,
    source_name: Seq<char>,
    tile_width: usize,
    tile_height: usize,
    columns: nat,
    rows: nat,
)
    requires
        facts.numbers.contains_pair(322, tile_width),
        facts.numbers.contains_pair(323, tile_height),
        0 < tile_width,
        0 < tile_height,
        width <= columns * tile_width,
        columns > 0 ==> (columns - 1) * tile_width < width,
        height <= rows * tile_height,
        rows > 0 ==> (rows - 1) * tile_height < height,
    ensures
        tile_blocks(facts, compression, width, height, samples, source_name) matches Ok(
            (layout, tiles),
        ) ==> {
            &&& tiles.len() == columns * rows
            &&& layout.block_count == columns * rows
            &&& layout.is_tiled
            &&& layout.compression == compression
            &&& layout.block_width == tile_width
            &&& layout.block_height == tile_height
            &&& layout.sample_width == tile_width * samples
            &&& layout.samples_per_pixel == samples
            &&& tiles_of(facts.longs, facts.bytes) == Some(tiles)
        },
        tiles_of(facts.longs, facts.bytes) matches Some(tiles) ==> (tiles.len() == columns * rows
            && columns * rows <= usize::MAX && tile_width * samples <= usize::MAX ==> tile_blocks(
            facts,
            compression,
            width,
            height,
            samples,
            source_name,
        ) is Ok),
{
    lemma_least_cover(width as nat, tile_width as nat, columns);
    lemma_least_cover(height as nat, tile_height as nat, rows);
    assert(0 <= tile_width * samples) by (nonlinear_arith)
        requires
            0 <= tile_width,
            0 <= samples,
    ;
}

/// Strips cover every row of an image, and none lies below it: `count` is the
/// least number of strips of `rows` rows that reaches its lower edge. A sound
/// table with as many strips is taken, and one with fewer or more is refused.
/// An image that does not say how many rows a strip has is one strip.
pub proof fn law_strips_reach_the_last_row(
    facts: IfdFacts,
    compression: u16,
    width: usize,
    height: usize,
    samples: usize,
    source_name: Seq<char>,
    rows: usize,
    count: nat,
)
    requires
        facts.numbers.dom().contains(278) ==> facts.numbers[278] == rows,
        !facts.numbers.dom().contains(278) ==> height == rows,
        0 < rows,
        height <= count * rows,
        count > 0 ==> (count - 1) * rows < height,
    ensures
        strip_blocks(facts, compression, width, height, samples, source_name) matches Ok(
            (layout, strips),
        ) ==> {
            &&& strips.len() == count
            &&& layout.block_count == count
            &&& !layout.is_tiled
            &&& layout.compression == compression
            &&& layout.block_width == width
            &&& layout.block_height == rows
            &&& layout.image_height == height
            &&& layout.sample_width == width * samples
            &&& layout.samples_per_pixel == samples
            &&& strips_of(facts.longs, facts.base, facts.bytes) == Some(strips)
        },
        strips_of(facts.longs, facts.base, facts.bytes) matches Some(strips) ==> (strips.len()
            == count && sound_strip_table(facts.longs, facts.base) && width * samples <= usize::MAX
            ==> strip_blocks(facts, compression, width, height, samples, source_name) is Ok),
        !facts.numbers.dom().contains(278) ==> count == 1,
{
    lemma_least_cover(height as nat, rows as nat, count);
    lemma_ceil_div(height as nat, rows as nat);
    assert(0 <= width * samples) by (nonlinear_arith)
        requires
            0 <= width,
            0 <= samples,
    ;
    if !facts.numbers.dom().contains(278) {
        lemma_least_cover(height as nat, rows as nat, 1);
    }
}

/// A lossless JPEG is accepted exactly where its samples fill some number of
/// whole rows of the block, no fewer and no more than it expects. It then counts
/// with all of its samples.
pub proof fn law_lossless_jpeg_fills_whole_rows(
    width: usize,
    height: usize,
    sample_width: nat,
    minimum_height: nat,
    maximum_height: nat,
    context: DngBlockContext<'_>,
)
    requires
        0 < sample_width,
    ensures
        lossless_outcome(
            width as nat,
            height as nat,
            sample_width,
            minimum_height,
            maximum_height,
            context,
        ) is Ok <==> exists|rows: nat|
            minimum_height <= rows <= maximum_height && width * height == #[trigger] (rows
                * sample_width),
        lossless_outcome(
            width as nat,
            height as nat,
            sample_width,
            minimum_height,
            maximum_height,
            context,
        ) matches Ok(samples) ==> samples == width * height,
{
    let samples = width * height;
    assert(0 <= samples <= usize::MAX * usize::MAX) by (nonlinear_arith)
        requires
            samples == width * height,
            0 <= width <= usize::MAX,
            0 <= height <= usize::MAX,
    ;
    let filled = fills_rows(
        samples,
        sample_width as int,
        minimum_height as int,
        maximum_height as int,
    );
    if filled {
        let rows = (samples / sample_width as int) as nat;
        vstd::arithmetic::div_mod::lemma_fundamental_div_mod(samples, sample_width as int);
        vstd::arithmetic::div_mod::lemma_div_pos_is_pos(samples, sample_width as int);
        assert(sample_width * rows == rows * sample_width) by (nonlinear_arith);
        assert(minimum_height <= rows) by (nonlinear_arith)
            requires
                sample_width * minimum_height <= sample_width * rows,
                0 < sample_width,
        ;
        assert(rows <= maximum_height) by (nonlinear_arith)
            requires
                sample_width * rows <= sample_width * maximum_height,
                0 < sample_width,
        ;
        assert(samples == rows * sample_width);
    }
    if exists|rows: nat|
        minimum_height <= rows <= maximum_height && samples == #[trigger] (rows * sample_width) {
        let rows = choose|rows: nat|
            minimum_height <= rows <= maximum_height && samples == #[trigger] (rows * sample_width);
        vstd::arithmetic::div_mod::lemma_mod_multiples_basic(rows as int, sample_width as int);
        assert(sample_width * minimum_height <= rows * sample_width <= sample_width
            * maximum_height) by (nonlinear_arith)
            requires
                minimum_height <= rows <= maximum_height,
                0 < sample_width,
        ;
        assert(filled);
    }
}

/// A JPEG XL is accepted exactly where it has the width of the block, a height
/// that the block expects, as many channels as the image has samples in a pixel,
/// rows of up to 50000 samples, up to 50000 rows, and takes no more samples to
/// decode than the block holds. It then counts with these.
pub proof fn law_jpeg_xl_fits_its_block(
    header: JpegXlHeaderDimensions,
    demand: BlockDemand,
    context: DngBlockContext<'_>,
)
    ensures
        jpeg_xl_outcome(header, demand, context) is Ok <==> {
            &&& header.width == demand.pixel_width
            &&& demand.minimum_height <= header.height <= demand.maximum_height
            &&& header.output_channels == demand.samples_per_pixel
            &&& header.width * header.output_channels <= 50_000
            &&& header.height <= 50_000
            &&& header.rendered_samples <= demand.sample_width * demand.maximum_height
        },
        jpeg_xl_outcome(header, demand, context) matches Ok(samples) ==> samples
            == header.rendered_samples,
{
    assert(0 <= header.width * header.output_channels) by (nonlinear_arith)
        requires
            0 <= header.width,
            0 <= header.output_channels,
    ;
}

/// Lossless JPEG is compression 7 and JPEG XL is 52546. Images that are
/// compressed in another way, or not at all, have no payload that has to be
/// inspected.
pub proof fn law_two_compressions_are_inspected(facts: IfdFacts, source_name: Seq<char>)
    ensures
        !facts.shorts.dom().contains(259) ==> compressed_blocks(facts, source_name) == Ok::<
            Option<Blocks>,
            Seq<char>,
        >(None),
        facts.shorts.dom().contains(259) && facts.shorts[259] != 7 && facts.shorts[259] != 52_546
            ==> compressed_blocks(facts, source_name) == Ok::<Option<Blocks>, Seq<char>>(None),
        facts.shorts.dom().contains(259) && (facts.shorts[259] == 7 || facts.shorts[259]
            == 52_546) ==> compressed_blocks(facts, source_name) != Ok::<
            Option<Blocks>,
            Seq<char>,
        >(None),
{
}

/// The payloads of a compressed image are its strips, or, where it has none, its
/// tiles, for the width, height and samples of a pixel that its tags give.
pub proof fn law_blocks_go_by_the_tags(
    facts: IfdFacts,
    source_name: Seq<char>,
    compression: u16,
    width: usize,
    height: usize,
    samples: usize,
)
    requires
        compression == 7 || compression == 52_546,
        facts.shorts.contains_pair(259, compression),
        facts.numbers.contains_pair(256, width),
        facts.numbers.contains_pair(257, height),
        facts.numbers.contains_pair(277, samples),
    ensures
        samples == 0 ==> compressed_blocks(facts, source_name) is Err,
        samples > 0 && facts.numbers.dom().contains(273) ==> match strip_blocks(
            facts,
            compression,
            width,
            height,
            samples,
            source_name,
        ) {
            Ok(blocks) => compressed_blocks(facts, source_name) == Ok::<
                Option<Blocks>,
                Seq<char>,
            >(Some(blocks)),
            Err(text) => compressed_blocks(facts, source_name) == Err::<
                Option<Blocks>,
                Seq<char>,
            >(text),
        },
        samples > 0 && !facts.numbers.dom().contains(273) && facts.numbers.dom().contains(324)
            ==> match tile_blocks(facts, compression, width, height, samples, source_name) {
            Ok(blocks) => compressed_blocks(facts, source_name) == Ok::<
                Option<Blocks>,
                Seq<char>,
            >(Some(blocks)),
            Err(text) => compressed_blocks(facts, source_name) == Err::<
                Option<Blocks>,
                Seq<char>,
            >(text),
        },
{
}

/// The strips and tiles of an image are the parts of the file that its tables
/// name: so many bytes from such a place on, one for each entry.
pub proof fn law_payloads_lie_where_the_tables_say(
    longs: Map<u16, Seq<u32>>,
    base: u32,
    bytes: Seq<u8>,
    i: int,
)
    ensures
        strips_of(longs, base, bytes) matches Some(strips) ==> {
            &&& longs.dom().contains(273)
            &&& longs.dom().contains(279)
            &&& strips.len() == longs[273].len()
            &&& 0 <= i < strips.len() ==> strips[i] == bytes.subrange(
                base + longs[273][i],
                base + longs[273][i] + longs[279][i],
            ) && base + longs[273][i] + longs[279][i] <= bytes.len()
        },
        tiles_of(longs, bytes) matches Some(tiles) ==> {
            &&& longs.dom().contains(324)
            &&& longs.dom().contains(325)
            &&& longs[324].len() == longs[325].len() ==> tiles.len() == longs[324].len()
            &&& 0 <= i < tiles.len() ==> tiles[i] == bytes.subrange(
                longs[324][i] as int,
                longs[324][i] + longs[325][i],
            ) && longs[324][i] + longs[325][i] <= bytes.len()
        },
{
    if let Some(strips) = strips_of(longs, base, bytes) {
        if 0 <= i < strips.len() {
            let offset = longs[273][i];
            assert(offset == longs[273][i]);
        }
    }
    if let Some(tiles) = tiles_of(longs, bytes) {
        if 0 <= i < tiles.len() {
            let offset = longs[324][i];
            assert(offset == longs[324][i]);
        }
    }
}

/// A tile is expected whole. A strip is expected with the rows that it has in
/// the image, and may hold as many as the others, but a single one exactly those
/// of the image. Each is as wide as the layout says.
pub proof fn law_blocks_expect_their_rows(layout: BlockLayout, i: int)
    requires
        layout.well_formed(),
        0 <= i < layout.block_count,
    ensures
        ({
            let demand = layout.demand(i);
            &&& demand.pixel_width == layout.block_width
            &&& demand.sample_width == layout.sample_width
            &&& demand.samples_per_pixel == layout.samples_per_pixel
            &&& layout.is_tiled ==> demand.minimum_height == layout.block_height
                && demand.maximum_height == layout.block_height
            &&& !layout.is_tiled && i < layout.block_count - 1 ==> demand.minimum_height
                == layout.block_height && demand.maximum_height == layout.block_height
            &&& !layout.is_tiled && i == layout.block_count - 1 ==> demand.minimum_height
                == layout.image_height - i * layout.block_height && 1 <= demand.minimum_height
                <= layout.block_height
            &&& !layout.is_tiled && layout.block_count > 1 ==> demand.maximum_height
                == layout.block_height
            &&& !layout.is_tiled && layout.block_count == 1 ==> demand.maximum_height
                == layout.image_height
        }),
{
    if !layout.is_tiled {
        let count = layout.block_count as int;
        let rows = layout.block_height as int;
        lemma_ceil_div(layout.image_height as nat, layout.block_height as nat);
        assert((count - 1) * rows == count * rows - rows) by (nonlinear_arith);
        assert(i * rows <= (count - 1) * rows) by (nonlinear_arith)
            requires
                i <= count - 1,
                0 < rows,
        ;
        if i < count - 1 {
            assert((i + 1) * rows <= (count - 1) * rows) by (nonlinear_arith)
                requires
                    i + 1 <= count - 1,
                    0 < rows,
            ;
            assert((i + 1) * rows == i * rows + rows) by (nonlinear_arith);
        }
        if count == 1 {
            assert(0 * rows == 0);
        }
    }
}

/// The sum of numbers.
pub open spec fn sum_of(numbers: Seq<u128>) -> int
    decreases numbers.len(),
{
    if numbers.len() == 0 {
        0
    } else {
        sum_of(numbers.drop_last()) + numbers.last()
    }
}

/// An image whose payloads all fit their blocks passes exactly where they take
/// no more than 200 million samples together.
pub proof fn law_sound_payloads_pass(
    layout: BlockLayout,
    looks: Seq<PayloadLook>,
    samples: Seq<u128>,
    source_name: &str,
)
    requires
        samples.len() == looks.len(),
        forall|i: int|
            0 <= i < looks.len() ==> #[trigger] block_outcome(layout, looks, i, source_name)
                == Ok::<u128, Seq<char>>(samples[i]),
    ensures
        codec_outcome(layout, looks, source_name) is Ok <==> sum_of(samples) <= 200_000_000,
{
    lemma_sums(layout, looks, samples, looks.len() as int, source_name);
    assert(samples.take(samples.len() as int) =~= samples);
}

proof fn lemma_sums(
    layout: BlockLayout,
    looks: Seq<PayloadLook>,
    samples: Seq<u128>,
    n: int,
    source_name: &str,
)
    requires
        0 <= n <= looks.len(),
        samples.len() == looks.len(),
        forall|i: int|
            0 <= i < looks.len() ==> #[trigger] block_outcome(layout, looks, i, source_name)
                == Ok::<u128, Seq<char>>(samples[i]),
    ensures
        0 <= sum_of(samples.take(n)),
        sum_of(samples.take(n)) <= u128::MAX ==> total_outcome(layout, looks, n, source_name)
            == Ok::<u128, Seq<char>>(sum_of(samples.take(n)) as u128),
        sum_of(samples.take(n)) > u128::MAX ==> total_outcome(layout, looks, n, source_name) is Err,
    decreases n,
{
    if n > 0 {
        lemma_sums(layout, looks, samples, n - 1, source_name);
        assert(samples.take(n).drop_last() =~= samples.take(n - 1));
        assert(block_outcome(layout, looks, n - 1, source_name) == Ok::<u128, Seq<char>>(
            samples[n - 1],
        ));
    } else {
        assert(samples.take(0) =~= Seq::empty());
    }
}

/// One payload that does not fit its block has the whole image refused, and the
/// first one says why.
pub proof fn law_first_misfit_is_told(
    layout: BlockLayout,
    looks: Seq<PayloadLook>,
    i: int,
    text: Seq<char>,
    source_name: &str,
)
    requires
        0 <= i < looks.len(),
        block_outcome(layout, looks, i, source_name) == Err::<u128, Seq<char>>(text),
        total_outcome(layout, looks, i, source_name) is Ok,
    ensures
        codec_outcome(layout, looks, source_name) == Err::<(), Seq<char>>(text),
{
    lemma_misfit_stays(layout, looks, i + 1, looks.len() as int, text, source_name);
}

proof fn lemma_misfit_stays(
    layout: BlockLayout,
    looks: Seq<PayloadLook>,
    n: int,
    m: int,
    text: Seq<char>,
    source_name: &str,
)
    requires
        n <= m,
        total_outcome(layout, looks, n, source_name) == Err::<u128, Seq<char>>(text),
    ensures
        total_outcome(layout, looks, m, source_name) == Err::<u128, Seq<char>>(text),
    decreases m - n,
{
    if n < m {
        lemma_misfit_stays(layout, looks, n, m - 1, text, source_name);
    }
}

/// A payload counts as its compression says: as the lossless JPEG that was found
/// in it, as the JPEG XL that was found in it, or else with nothing. What cannot
/// be inspected is refused.
pub proof fn law_payload_goes_by_its_compression(
    compression: u16,
    demand: BlockDemand,
    look: PayloadLook,
    context: DngBlockContext<'_>,
)
    ensures
        compression == 7 ==> match look.lossless {
            Ok((width, height)) => payload_outcome(compression, demand, look, context)
                == lossless_outcome(
                width as nat,
                height as nat,
                demand.sample_width as nat,
                demand.minimum_height as nat,
                demand.maximum_height as nat,
                context,
            ),
            Err(_) => payload_outcome(compression, demand, look, context) is Err,
        },
        compression == 52_546 ==> match look.jpeg_xl {
            Ok(header) => payload_outcome(compression, demand, look, context) == jpeg_xl_outcome(
                header,
                demand,
                context,
            ),
            Err(text) => payload_outcome(compression, demand, look, context) == Err::<
                u128,
                Seq<char>,
            >(text),
        },
        compression != 7 && compression != 52_546 ==> payload_outcome(
            compression,
            demand,
            look,
            context,
        ) == Ok::<u128, Seq<char>>(0),
{
}

/// What is found in a payload was found in that payload, by the look that its
/// compression asks for.
pub proof fn law_looks_are_at_the_payload<
    F: Fn(&[u8]) -> LosslessHeader,
    G: Fn(jxl_oxide::UninitializedJxlImage) -> Result<JpegXlPreflightDecoder, String>,
>(
    inspect: F,
    try_init: G,
    compression: u16,
    payload: &[u8],
    look: PayloadLook,
    context: DngBlockContext<'_>,
)
    requires
        may_find(inspect, try_init, compression, payload, look, context),
    ensures
        compression == 7 ==> inspect.ensures((payload,), look.lossless),
        compression == 52_546 ==> exists|answers: Seq<Answer>|
            may_answer_all(try_init, answers) && #[trigger] inspection(payload@, context, answers)
                == Some(look.jpeg_xl),
{
}

/// An image passes only where every one of its payloads was looked at, each with
/// its own number, and each fits its block.
pub proof fn law_every_payload_is_looked_at<
    F: Fn(&[u8]) -> LosslessHeader,
    G: Fn(jxl_oxide::UninitializedJxlImage) -> Result<JpegXlPreflightDecoder, String>,
>(
    inspect: F,
    try_init: G,
    layout: BlockLayout,
    payloads: Seq<&[u8]>,
    looks: Seq<PayloadLook>,
    source_name: &str,
    i: int,
)
    requires
        may_find_all(inspect, try_init, layout, payloads, looks, source_name),
        codec_outcome(layout, looks, source_name) is Ok,
        0 <= i < payloads.len(),
    ensures
        looks.len() == payloads.len(),
        may_find(
            inspect,
            try_init,
            layout.compression,
            payloads[i],
            looks[i],
            layout.context(i, source_name),
        ),
        layout.context(i, source_name).source_name == source_name,
        layout.context(i, source_name).index == i as usize,
        block_outcome(layout, looks, i, source_name) is Ok,
{
    let look = looks[i];
    law_accepted_payloads_are_bounded(layout, looks, source_name);
}

/// An image that needs no inspection passes, one whose payloads cannot be found
/// is refused with the reason, and any other goes by its own payloads.
pub proof fn law_image_goes_by_its_own_payloads<
    F: Fn(&[u8]) -> LosslessHeader,
    G: Fn(jxl_oxide::UninitializedJxlImage) -> Result<JpegXlPreflightDecoder, String>,
>(
    raw_ifd: IFD,
    source: RawSource,
    source_name: &str,
    inspect: F,
    try_init: G,
    r: ImageResult<()>,
)
    requires
        codecs_may_settle(raw_ifd, source, source_name, inspect, try_init, r),
    ensures
        match compressed_blocks(facts_of(raw_ifd, source), source_name@) {
            Ok(None) => r is Ok,
            Err(text) => r matches Err(ImageError::Decode(message)) && message@ == text,
            Ok(Some((layout, blocks))) => r is Ok ==> exists|
                payloads: Seq<&[u8]>,
                looks: Seq<PayloadLook>,
            |
                {
                    &&& #[trigger] may_find_all(
                        inspect,
                        try_init,
                        layout,
                        payloads,
                        looks,
                        source_name,
                    )
                    &&& payloads.len() == blocks.len()
                    &&& forall|i: int| 0 <= i < blocks.len() ==> (#[trigger] payloads[i])@
                        == blocks[i]
                    &&& codec_outcome(layout, looks, source_name) is Ok
                },
        },
{
    match compressed_blocks(facts_of(raw_ifd, source), source_name@) {
        Ok(Some((layout, blocks))) => {
            let (payloads, looks) = choose|payloads: Seq<&[u8]>, looks: Seq<PayloadLook>|
                {
                    &&& holds_blocks(payloads, blocks)
                    &&& #[trigger] may_find_all(
                        inspect,
                        try_init,
                        layout,
                        payloads,
                        looks,
                        source_name,
                    )
                    &&& settles_as(r, codec_outcome(layout, looks, source_name))
                };
            assert(may_find_all(inspect, try_init, layout, payloads, looks, source_name));
        },
        _ => {},
    }
}

/// The tags and the bytes that count are those of the directory and the file.
pub proof fn law_facts_are_those_of_the_file(ifd: IFD, source: RawSource)
    ensures
        facts_of(ifd, source).numbers == ifd_numbers(ifd),
        facts_of(ifd, source).shorts == ifd_shorts(ifd),
        facts_of(ifd, source).longs == ifd_longs(ifd),
        facts_of(ifd, source).base == ifd_base(ifd),
        facts_of(ifd, source).bytes == source_bytes(source),
{
}

} // verus!
