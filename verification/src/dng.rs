//! The guardrails for the buffer that a whole DNG is decoded into.

use rawler::formats::tiff::IFD;
use vstd::prelude::*;
use vstd::string::*;

use crate::arith::{ceil_div, div_ceil_usize, lemma_ceil_div, lemma_least_cover};
use crate::dng_ifd::{
    ifd_number, ifd_numbers, ifd_storage, lookup, no_storage_text, storage_of, Storage,
    TAG_IMAGE_LENGTH, TAG_IMAGE_WIDTH, TAG_SAMPLES_PER_PIXEL, TAG_TILE_LENGTH, TAG_TILE_WIDTH,
};
use crate::error::{image_error, image_error_because, is_decode_error, settles_as, ImageError, ImageResult};
use crate::raw_limits::{
    acceptable_allocation, unacceptable_allocation_text, validate_raw_sample_allocation,
    RAW_MAX_DECODED_SAMPLES,
};
use crate::text::{decimal, usize_text};

verus! {

// ---------------------------------------------------------------------------
// The buffer for the whole image
// ---------------------------------------------------------------------------

/// The dimensions that a directory gives its image.
pub open spec fn dimensions_of(numbers: Map<u16, usize>) -> Option<(usize, usize)> {
    match (lookup(numbers, TAG_IMAGE_WIDTH), lookup(numbers, TAG_IMAGE_LENGTH)) {
        (Some(width), Some(height)) => Some((width, height)),
        _ => None,
    }
}

/// The dimensions that a directory gives its image.
pub fn raw_dimensions_from_ifd(ifd: &IFD) -> (r: Option<(usize, usize)>)
    ensures
        r == dimensions_of(ifd_numbers(*ifd)),
{
    match ifd_number(ifd, TAG_IMAGE_WIDTH) {
        Some(width) => match ifd_number(ifd, TAG_IMAGE_LENGTH) {
            Some(height) => Some((width, height)),
            None => None,
        },
        None => None,
    }
}

/// The dimensions of the image of a directory, if it has one: the directory
/// gives dimensions, and says where the samples are.
pub open spec fn candidate_of(numbers: Map<u16, usize>) -> Option<(usize, usize)> {
    if storage_of(numbers) is Some {
        dimensions_of(numbers)
    } else {
        None
    }
}

/// The dimensions of the image of a directory, if it has one.
pub fn raw_candidate_dimensions(ifd: &IFD) -> (r: Option<(usize, usize)>)
    ensures
        r == candidate_of(ifd_numbers(*ifd)),
{
    match ifd_storage(ifd) {
        Ok(_) => raw_dimensions_from_ifd(ifd),
        Err(_) => None,
    }
}

/// A side of an image, filled up to whole tiles.
pub open spec fn padded(dimension: nat, tile: nat, axis: Seq<char>, source_name: Seq<char>) -> Result<
    nat,
    Seq<char>,
> {
    if tile == 0 {
        Err("DNG image '"@ + source_name + "' has invalid tile "@ + axis + " 0"@)
    } else if ceil_div(dimension, tile) * tile > usize::MAX {
        Err("DNG image '"@ + source_name + "' padded "@ + axis + " overflows"@)
    } else {
        Ok(ceil_div(dimension, tile) * tile)
    }
}

/// Fills a side of an image up to whole tiles.
pub fn padded_dng_dimension(
    dimension: usize,
    tile_dimension: usize,
    axis: &str,
    source_name: &str,
) -> (r: ImageResult<usize>)
    ensures
        match padded(dimension as nat, tile_dimension as nat, axis@, source_name@) {
            Ok(length) => r == Ok::<usize, ImageError>(length as usize) && length <= usize::MAX,
            Err(text) => is_decode_error(r, text),
        },
{
    if tile_dimension == 0 {
        let mut message = "DNG image '".to_owned();
        message.append(source_name);
        message.append("' has invalid tile ");
        message.append(axis);
        message.append(" 0");
        return Err(ImageError::Decode(message));
    }
    let tile_count: usize = div_ceil_usize(dimension, tile_dimension);
    match tile_count.checked_mul(tile_dimension) {
        Some(length) => Ok(length),
        None => {
            let mut message = "DNG image '".to_owned();
            message.append(source_name);
            message.append("' padded ");
            message.append(axis);
            message.append(" overflows");
            Err(ImageError::Decode(message))
        },
    }
}

/// A padded side is the least whole number of tiles that covers the side.
pub proof fn law_padding_is_least(
    dimension: nat,
    tile: nat,
    axis: Seq<char>,
    source_name: Seq<char>,
)
    ensures
        padded(dimension, tile, axis, source_name) matches Ok(length) ==> {
            &&& dimension <= length < dimension + tile
            &&& length % tile == 0
            &&& forall|n: nat| dimension <= #[trigger] (n * tile) ==> length <= n * tile
        },
{
    if tile > 0 {
        lemma_ceil_div(dimension, tile);
        let count = ceil_div(dimension, tile);
        vstd::arithmetic::div_mod::lemma_mod_multiples_basic(count as int, tile as int);
        assert forall|n: nat| dimension <= #[trigger] (n * tile) implies count * tile <= n
            * tile by {
            assert(count * tile <= n * tile) by (nonlinear_arith)
                requires
                    count <= n,
            ;
        }
    }
}

/// The dimensions in which an image is decoded: filled up to whole tiles where
/// it is stored in tiles.
pub open spec fn decoded_dimensions(
    numbers: Map<u16, usize>,
    width: usize,
    height: usize,
    source_name: Seq<char>,
) -> Result<(nat, nat), Seq<char>> {
    match storage_of(numbers) {
        None => Err(
            "failed to inspect DNG storage layout for '"@ + source_name + "': "@
                + no_storage_text(),
        ),
        Some(Storage::Strips) => Ok((width as nat, height as nat)),
        Some(Storage::Tiles) => match (
            lookup(numbers, TAG_TILE_WIDTH),
            lookup(numbers, TAG_TILE_LENGTH),
        ) {
            (None, _) => Err("tiled DNG image '"@ + source_name + "' has no TileWidth value"@),
            (_, None) => Err("tiled DNG image '"@ + source_name + "' has no TileLength value"@),
            (Some(tile_width), Some(tile_height)) => match padded(
                width as nat,
                tile_width as nat,
                "width"@,
                source_name,
            ) {
                Err(text) => Err(text),
                Ok(decode_width) => match padded(
                    height as nat,
                    tile_height as nat,
                    "height"@,
                    source_name,
                ) {
                    Err(text) => Err(text),
                    Ok(decode_height) => Ok((decode_width, decode_height)),
                },
            },
        },
    }
}

/// What becomes of the buffer for a whole image.
pub open spec fn ifd_allocation(numbers: Map<u16, usize>, source_name: Seq<char>) -> Result<
    (),
    Seq<char>,
> {
    match (dimensions_of(numbers), lookup(numbers, TAG_SAMPLES_PER_PIXEL)) {
        (None, _) => Err(
            "failed to inspect DNG allocation dimensions for '"@ + source_name + "'"@,
        ),
        (_, None) => Err("DNG image '"@ + source_name + "' has no SamplesPerPixel value"@),
        (Some((width, height)), Some(samples)) => if samples == 0 {
            Err("DNG image '"@ + source_name + "' has invalid SamplesPerPixel value 0"@)
        } else {
            match decoded_dimensions(numbers, width, height, source_name) {
                Err(text) => Err(text),
                Ok((decode_width, decode_height)) => if decode_width * samples > usize::MAX {
                    Err(
                        "DNG image '"@ + source_name + "' decoded sample width overflows: "@
                            + decimal(decode_width) + " * "@ + decimal(samples as nat),
                    )
                } else if acceptable_allocation(
                    (decode_width * samples) as int,
                    decode_height as int,
                ) {
                    Ok(())
                } else {
                    Err(
                        unacceptable_allocation_text(
                            source_name,
                            (decode_width * samples) as nat,
                            decode_height,
                        ),
                    )
                },
            }
        },
    }
}

fn dng_decoded_dimensions(raw_ifd: &IFD, width: usize, height: usize, source_name: &str) -> (r:
    ImageResult<(usize, usize)>)
    ensures
        match decoded_dimensions(ifd_numbers(*raw_ifd), width, height, source_name@) {
            Ok((decode_width, decode_height)) => {
                &&& decode_width <= usize::MAX
                &&& decode_height <= usize::MAX
                &&& r == Ok::<(usize, usize), ImageError>(
                    (decode_width as usize, decode_height as usize),
                )
            },
            Err(text) => is_decode_error(r, text),
        },
{
    let storage = match ifd_storage(raw_ifd) {
        Ok(storage) => storage,
        Err(text) => {
            return image_error_because(
                "failed to inspect DNG storage layout for '",
                source_name,
                "': ",
                text.as_str(),
            );
        },
    };
    match storage {
        Storage::Strips => Ok((width, height)),
        Storage::Tiles => {
            let tile_width: usize = match ifd_number(raw_ifd, TAG_TILE_WIDTH) {
                Some(tile_width) => tile_width,
                None => {
                    return image_error(
                        "tiled DNG image '",
                        source_name,
                        "' has no TileWidth value",
                    );
                },
            };
            let tile_height: usize = match ifd_number(raw_ifd, TAG_TILE_LENGTH) {
                Some(tile_height) => tile_height,
                None => {
                    return image_error(
                        "tiled DNG image '",
                        source_name,
                        "' has no TileLength value",
                    );
                },
            };
            match padded_dng_dimension(width, tile_width, "width", source_name) {
                Err(error) => Err(error),
                Ok(decode_width) => match padded_dng_dimension(
                    height,
                    tile_height,
                    "height",
                    source_name,
                ) {
                    Err(error) => Err(error),
                    Ok(decode_height) => Ok((decode_width, decode_height)),
                },
            }
        },
    }
}

/// Accepts a directory whose image is decoded into an acceptable buffer: one
/// that holds every sample of every pixel, filled up to whole tiles.
pub fn validate_dng_raw_ifd_allocation(raw_ifd: &IFD, source_name: &str) -> (r: ImageResult<()>)
    ensures
        settles_as(r, ifd_allocation(ifd_numbers(*raw_ifd), source_name@)),
{
    let (width, height): (usize, usize) = match raw_dimensions_from_ifd(raw_ifd) {
        Some(dimensions) => dimensions,
        None => {
            return image_error(
                "failed to inspect DNG allocation dimensions for '",
                source_name,
                "'",
            );
        },
    };
    let samples_per_pixel: usize = match ifd_number(raw_ifd, TAG_SAMPLES_PER_PIXEL) {
        Some(samples_per_pixel) => samples_per_pixel,
        None => {
            return image_error("DNG image '", source_name, "' has no SamplesPerPixel value");
        },
    };
    if samples_per_pixel == 0 {
        return image_error("DNG image '", source_name, "' has invalid SamplesPerPixel value 0");
    }
    let (decode_width, decode_height): (usize, usize) = match dng_decoded_dimensions(
        raw_ifd,
        width,
        height,
        source_name,
    ) {
        Ok(dimensions) => dimensions,
        Err(error) => {
            return Err(error);
        },
    };
    assert(0 <= decode_width * samples_per_pixel) by (nonlinear_arith)
        requires
            0 <= decode_width,
            0 <= samples_per_pixel,
    ;
    match decode_width.checked_mul(samples_per_pixel) {
        Some(sample_width) => {
            match validate_raw_sample_allocation(sample_width, decode_height, source_name) {
                Ok(()) => Ok(()),
                Err(error) => Err(error),
            }
        },
        None => {
            let mut message = "DNG image '".to_owned();
            message.append(source_name);
            message.append("' decoded sample width overflows: ");
            message.append(usize_text(decode_width).as_str());
            message.append(" * ");
            message.append(usize_text(samples_per_pixel).as_str());
            Err(ImageError::Decode(message))
        },
    }
}

/// An accepted directory is decoded into a buffer that covers the image and
/// keeps to the sample limit.
pub proof fn law_accepted_ifd_fits(numbers: Map<u16, usize>, source_name: Seq<char>)
    requires
        ifd_allocation(numbers, source_name) is Ok,
    ensures
        dimensions_of(numbers) matches Some((width, height)) && lookup(
            numbers,
            TAG_SAMPLES_PER_PIXEL,
        ) matches Some(samples) && decoded_dimensions(
            numbers,
            width,
            height,
            source_name,
        ) matches Ok((decode_width, decode_height)) && {
            &&& width <= decode_width
            &&& height <= decode_height
            &&& decode_width * samples * decode_height <= RAW_MAX_DECODED_SAMPLES
        },
{
    let (width, height) = dimensions_of(numbers).unwrap();
    match storage_of(numbers) {
        Some(Storage::Tiles) => {
            let tile_width = numbers[TAG_TILE_WIDTH];
            let tile_height = numbers[TAG_TILE_LENGTH];
            law_padding_is_least(width as nat, tile_width as nat, "width"@, source_name);
            law_padding_is_least(height as nat, tile_height as nat, "height"@, source_name);
        },
        _ => {},
    }
}

/// Width and height are the values of the tags 256 and 257. They are those of an
/// image where the directory also says where its strips or tiles are.
pub proof fn law_dimensions_go_by_their_tags(
    numbers: Map<u16, usize>,
    width: usize,
    height: usize,
)
    ensures
        dimensions_of(numbers) == Some((width, height)) <==> numbers.contains_pair(256, width)
            && numbers.contains_pair(257, height),
        candidate_of(numbers) == Some((width, height)) <==> numbers.contains_pair(256, width)
            && numbers.contains_pair(257, height) && (numbers.dom().contains(273)
            || numbers.dom().contains(324)),
{
}

/// A directory in strips is accepted exactly where a row holds from 1 to 50000
/// samples, there are from 1 to 50000 rows, and they hold no more than 200
/// million samples together.
pub proof fn law_sound_strips_are_accepted(
    numbers: Map<u16, usize>,
    width: usize,
    height: usize,
    samples: usize,
    source_name: Seq<char>,
)
    requires
        numbers.contains_pair(256, width),
        numbers.contains_pair(257, height),
        numbers.contains_pair(277, samples),
        numbers.dom().contains(273),
    ensures
        ifd_allocation(numbers, source_name) is Ok <==> {
            &&& 1 <= width * samples <= 50_000
            &&& 1 <= height <= 50_000
            &&& width * samples * height <= 200_000_000
        },
{
    assert(samples == 0 ==> width * samples == 0) by (nonlinear_arith);
    assert(0 <= width * samples) by (nonlinear_arith)
        requires
            0 <= width,
            0 <= samples,
    ;
}

/// A directory in tiles is accepted exactly where the same holds of the image
/// filled up to whole tiles: `columns` and `rows` are the least numbers of tiles
/// that cover it.
pub proof fn law_sound_tiles_are_accepted(
    numbers: Map<u16, usize>,
    width: usize,
    height: usize,
    samples: usize,
    tile_width: usize,
    tile_height: usize,
    columns: nat,
    rows: nat,
    source_name: Seq<char>,
)
    requires
        numbers.contains_pair(256, width),
        numbers.contains_pair(257, height),
        numbers.contains_pair(277, samples),
        !numbers.dom().contains(273),
        numbers.dom().contains(324),
        numbers.contains_pair(322, tile_width),
        numbers.contains_pair(323, tile_height),
        0 < tile_width,
        0 < tile_height,
        width <= columns * tile_width,
        columns > 0 ==> (columns - 1) * tile_width < width,
        height <= rows * tile_height,
        rows > 0 ==> (rows - 1) * tile_height < height,
    ensures
        ifd_allocation(numbers, source_name) is Ok <==> {
            &&& 1 <= columns * tile_width * samples <= 50_000
            &&& 1 <= rows * tile_height <= 50_000
            &&& columns * tile_width * samples * (rows * tile_height) <= 200_000_000
        },
{
    lemma_least_cover(width as nat, tile_width as nat, columns);
    lemma_least_cover(height as nat, tile_height as nat, rows);
    let padded_width = columns * tile_width;
    let padded_height = rows * tile_height;
    assert(samples == 0 ==> padded_width * samples == 0) by (nonlinear_arith);
    assert(samples > 0 && padded_width > usize::MAX ==> padded_width * samples > 50_000)
        by (nonlinear_arith);
    assert(0 <= padded_width * samples) by (nonlinear_arith)
        requires
            0 <= padded_width,
            0 <= samples,
    ;
}

/// A directory that lacks its width, its height, the samples of a pixel, or the
/// place of its strips or tiles, is refused.
pub proof fn law_incomplete_directory_is_refused(
    numbers: Map<u16, usize>,
    source_name: Seq<char>,
)
    ensures
        ifd_allocation(numbers, source_name) is Ok ==> {
            &&& numbers.dom().contains(256)
            &&& numbers.dom().contains(257)
            &&& numbers.dom().contains(277)
            &&& numbers.dom().contains(273) || (numbers.dom().contains(324)
                && numbers.dom().contains(322) && numbers.dom().contains(323)
                && numbers[322] > 0 && numbers[323] > 0)
        },
{
}

} // verus!
