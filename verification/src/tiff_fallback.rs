//! Decodes a TIFF whose pixel format the general decoder does not take.

use vstd::prelude::*;
use vstd::string::*;

use crate::error::{is_decode_error, settles_as_view, ImageError, ImageResult};
use crate::raw_limits::{size_text, write_size};
use crate::text::{decimal, ends_with, lemma_ends_with, usize_text};
use crate::types::{Dimensions, RgbImage, RgbSeq, RgbValues};

verus! {

/// The formats of image files.
#[derive(Clone, Copy, Debug, PartialEq, Eq, Structural)]
pub enum ImageFormat {
    Png,
    Jpeg,
    Tiff,
    Avif,
    Other,
}

/// Tells whether another decoder is tried where the general one fails.
pub fn should_attempt_tiff_fallback(format: Option<ImageFormat>) -> (b: bool)
    ensures
        b == (format == Some(ImageFormat::Tiff)),
{
    match format {
        Some(ImageFormat::Tiff) => true,
        _ => false,
    }
}

/// What the samples of a TIFF mean, with the bits of each.
#[derive(Debug)]
pub enum TiffColorType {
    Gray(u8),
    GrayA(u8),
    RGB(u8),
    RGBA(u8),
    /// Anything else, in the words of the decoder.
    Other(String),
}

/// What the samples of a TIFF mean, as a mathematical value.
pub enum TiffColor {
    Gray(u8),
    GrayA(u8),
    RGB(u8),
    RGBA(u8),
    Other(Seq<char>),
}

impl View for TiffColorType {
    type V = TiffColor;

    open spec fn view(&self) -> TiffColor {
        match self {
            TiffColorType::Gray(bits) => TiffColor::Gray(*bits),
            TiffColorType::GrayA(bits) => TiffColor::GrayA(*bits),
            TiffColorType::RGB(bits) => TiffColor::RGB(*bits),
            TiffColorType::RGBA(bits) => TiffColor::RGBA(*bits),
            TiffColorType::Other(text) => TiffColor::Other(text@),
        }
    }
}

/// The samples of a TIFF.
#[derive(Debug)]
pub enum TiffSamples {
    U8(Vec<u8>),
    U16(Vec<u16>),
    Unsupported,
}

/// The samples of a TIFF, as a mathematical value.
pub enum TiffSampleValues {
    U8(Seq<u8>),
    U16(Seq<u16>),
    Unsupported,
}

impl View for TiffSamples {
    type V = TiffSampleValues;

    open spec fn view(&self) -> TiffSampleValues {
        match self {
            TiffSamples::U8(data) => TiffSampleValues::U8(data@),
            TiffSamples::U16(data) => TiffSampleValues::U16(data@),
            TiffSamples::Unsupported => TiffSampleValues::Unsupported,
        }
    }
}

impl TiffColor {
    /// The samples of a pixel, where an image can be made of them.
    pub open spec fn channels(self) -> nat {
        match self {
            TiffColor::Gray(_) => 1,
            TiffColor::GrayA(_) => 2,
            TiffColor::RGB(_) => 3,
            TiffColor::RGBA(_) => 4,
            TiffColor::Other(_) => 0,
        }
    }

    /// The bits of a sample, where an image can be made of them.
    pub open spec fn bits(self) -> u8 {
        match self {
            TiffColor::Gray(bits) => bits,
            TiffColor::GrayA(bits) => bits,
            TiffColor::RGB(bits) => bits,
            TiffColor::RGBA(bits) => bits,
            TiffColor::Other(_) => 0,
        }
    }

    pub open spec fn name(self) -> Seq<char> {
        match self {
            TiffColor::Gray(_) => "Gray"@,
            TiffColor::GrayA(_) => "GrayA"@,
            TiffColor::RGB(_) => "RGB"@,
            TiffColor::RGBA(_) => "RGBA"@,
            TiffColor::Other(text) => text,
        }
    }

    /// The text of a color type, such as `Gray(8)`.
    pub open spec fn text(self) -> Seq<char> {
        match self {
            TiffColor::Other(text) => text,
            _ => self.name() + "("@ + decimal(self.bits() as nat) + ")"@,
        }
    }
}

impl TiffColorType {
    fn bits_text(name: &str, bits: u8) -> (text: String)
        ensures
            text@ == name@ + "("@ + decimal(bits as nat) + ")"@,
    {
        let mut text = name.to_owned();
        text.append("(");
        text.append(usize_text(bits as usize).as_str());
        text.append(")");
        text
    }

    /// Writes a color type, such as `Gray(8)`.
    pub fn write(&self) -> (text: String)
        ensures
            text@ == self@.text(),
    {
        match self {
            TiffColorType::Gray(bits) => Self::bits_text("Gray", *bits),
            TiffColorType::GrayA(bits) => Self::bits_text("GrayA", *bits),
            TiffColorType::RGB(bits) => Self::bits_text("RGB", *bits),
            TiffColorType::RGBA(bits) => Self::bits_text("RGBA", *bits),
            TiffColorType::Other(text) => text.clone(),
        }
    }
}

// ---------------------------------------------------------------------------
// Pixels
// ---------------------------------------------------------------------------

/// Which of the samples a value of an RGB image comes from: grey stands for all
/// three colours, and transparency is dropped.
pub open spec fn sample_index(channels: int, i: int) -> int {
    if channels <= 2 {
        i / 3 * channels
    } else {
        i / 3 * channels + i % 3
    }
}

/// The RGB values of so many pixels of 8-bit samples.
pub open spec fn rgb_of_bytes(data: Seq<u8>, channels: int, pixels: nat) -> Seq<u8> {
    Seq::new(3 * pixels, |i: int| data[sample_index(channels, i)])
}

/// The RGB values of so many pixels of 16-bit samples.
pub open spec fn rgb_of_words(data: Seq<u16>, channels: int, pixels: nat) -> Seq<u16> {
    Seq::new(3 * pixels, |i: int| data[sample_index(channels, i)])
}

proof fn lemma_sample_index(channels: int, pixels: int, length: int, p: int)
    requires
        1 <= channels <= 4,
        0 <= p < pixels,
        channels * pixels <= length,
    ensures
        0 <= p * channels,
        p * channels + channels <= length,
        sample_index(channels, 3 * p) == p * channels,
        sample_index(channels, 3 * p + 1) == p * channels + if channels <= 2 {
            0int
        } else {
            1int
        },
        sample_index(channels, 3 * p + 2) == p * channels + if channels <= 2 {
            0int
        } else {
            2int
        },
{
    assert(0 <= p * channels) by (nonlinear_arith)
        requires
            0 <= p,
            1 <= channels,
    ;
    assert(p * channels + channels <= channels * pixels) by (nonlinear_arith)
        requires
            p + 1 <= pixels,
            1 <= channels,
    ;
    assert(3 * p / 3 == p && (3 * p + 1) / 3 == p && (3 * p + 2) / 3 == p);
}

fn bytes_to_rgb(data: &Vec<u8>, channels: usize, pixels: usize) -> (rgb: Vec<u8>)
    requires
        1 <= channels <= 4,
        channels * pixels <= data@.len(),
    ensures
        rgb@ == rgb_of_bytes(data@, channels as int, pixels as nat),
{
    let length: usize = data.len();
    let mut rgb: Vec<u8> = Vec::new();
    let mut p: usize = 0;
    let step: usize = if channels <= 2 {
        0
    } else {
        1
    };
    while p < pixels
        invariant
            1 <= channels <= 4,
            channels * pixels <= length,
            length == data@.len(),
            p <= pixels,
            step == if channels <= 2 {
                0int
            } else {
                1int
            },
            rgb@ == rgb_of_bytes(data@, channels as int, p as nat),
        decreases pixels - p,
    {
        proof {
            lemma_sample_index(channels as int, pixels as int, length as int, p as int);
        }
        let at: usize = p * channels;
        rgb.push(data[at]);
        rgb.push(data[at + step]);
        rgb.push(data[at + 2 * step]);
        assert(rgb@ =~= rgb_of_bytes(data@, channels as int, (p + 1) as nat));
        p = p + 1;
    }
    rgb
}

fn words_to_rgb(data: &Vec<u16>, channels: usize, pixels: usize) -> (rgb: Vec<u16>)
    requires
        1 <= channels <= 4,
        channels * pixels <= data@.len(),
    ensures
        rgb@ == rgb_of_words(data@, channels as int, pixels as nat),
{
    let length: usize = data.len();
    let mut rgb: Vec<u16> = Vec::new();
    let mut p: usize = 0;
    let step: usize = if channels <= 2 {
        0
    } else {
        1
    };
    while p < pixels
        invariant
            1 <= channels <= 4,
            channels * pixels <= length,
            length == data@.len(),
            p <= pixels,
            step == if channels <= 2 {
                0int
            } else {
                1int
            },
            rgb@ == rgb_of_words(data@, channels as int, p as nat),
        decreases pixels - p,
    {
        proof {
            lemma_sample_index(channels as int, pixels as int, length as int, p as int);
        }
        let at: usize = p * channels;
        rgb.push(data[at]);
        rgb.push(data[at + step]);
        rgb.push(data[at + 2 * step]);
        assert(rgb@ =~= rgb_of_words(data@, channels as int, (p + 1) as nat));
        p = p + 1;
    }
    rgb
}

pub open spec fn mismatch_text(
    image_path: Seq<char>,
    width: nat,
    height: nat,
    color: TiffColor,
) -> Seq<char> {
    "decoded TIFF buffer length does not match dimensions for '"@ + image_path + "': "@ + size_text(
        width,
        height,
    ) + ", color_type="@ + color.text()
}

pub open spec fn unsupported_text(
    image_path: Seq<char>,
    color: TiffColor,
    samples: TiffSampleValues,
) -> Seq<char> {
    "unsupported TIFF pixel format for '"@ + image_path + "': color_type="@ + color.text()
        + ", sample_type="@ + sample_type_name(samples)
}

pub open spec fn sample_type_name(samples: TiffSampleValues) -> Seq<char> {
    match samples {
        TiffSampleValues::U8(_) => "u8"@,
        TiffSampleValues::U16(_) => "u16"@,
        TiffSampleValues::Unsupported => "unsupported"@,
    }
}

/// The name of the type of samples.
pub fn tiff_result_type_name(result: &TiffSamples) -> (name: &'static str)
    ensures
        name@ == sample_type_name(result@),
{
    match result {
        TiffSamples::U8(_) => "u8",
        TiffSamples::U16(_) => "u16",
        TiffSamples::Unsupported => "unsupported",
    }
}

/// The image that the samples of a TIFF make, or why they make none.
pub open spec fn tiff_pixels(
    image_path: Seq<char>,
    dimensions: Dimensions,
    color: TiffColor,
    samples: TiffSampleValues,
) -> Result<(Dimensions, RgbSeq), Seq<char>> {
    let pixels = (dimensions.width * dimensions.height) as nat;
    let channels = color.channels() as int;
    let mismatch = mismatch_text(
        image_path,
        dimensions.width as nat,
        dimensions.height as nat,
        color,
    );
    match samples {
        TiffSampleValues::U8(data) => if channels == 0 || color.bits() != 8 {
            Err(unsupported_text(image_path, color, samples))
        } else if data.len() < channels * pixels {
            Err(mismatch)
        } else {
            Ok((dimensions, RgbSeq::Bytes(rgb_of_bytes(data, channels, pixels))))
        },
        TiffSampleValues::U16(data) => if channels == 0 || color.bits() != 16 {
            Err(unsupported_text(image_path, color, samples))
        } else if data.len() < channels * pixels {
            Err(mismatch)
        } else {
            Ok((dimensions, RgbSeq::Words(rgb_of_words(data, channels, pixels))))
        },
        TiffSampleValues::Unsupported => Err(unsupported_text(image_path, color, samples)),
    }
}

/// The number of pixels, if `length` samples suffice for `channels` of each.
fn sufficient_pixels(width: u32, height: u32, channels: usize, length: usize) -> (r: Option<usize>)
    requires
        1 <= channels <= 4,
    ensures
        match r {
            Some(pixels) => pixels == width * height && channels * pixels <= length,
            None => channels * (width * height) > length,
        },
{
    assert(0 <= width * height <= u32::MAX * u32::MAX) by (nonlinear_arith)
        requires
            0 <= width <= u32::MAX,
            0 <= height <= u32::MAX,
    ;
    let pixels: u128 = width as u128 * height as u128;
    assert(pixels <= channels * pixels <= 4 * pixels) by (nonlinear_arith)
        requires
            1 <= channels <= 4,
            0 <= pixels,
    ;
    if channels as u128 * pixels <= length as u128 {
        Some(pixels as usize)
    } else {
        None
    }
}

fn tiff_buffer_mismatch_error<T>(image_path: &str, dimensions: Dimensions, color: &TiffColorType) -> (r:
    ImageResult<T>)
    ensures
        is_decode_error(
            r,
            mismatch_text(
                image_path@,
                dimensions.width as nat,
                dimensions.height as nat,
                color@,
            ),
        ),
{
    let mut message = "decoded TIFF buffer length does not match dimensions for '".to_owned();
    message.append(image_path);
    message.append("': ");
    message.append(write_size(dimensions.width as usize, dimensions.height as usize).as_str());
    message.append(", color_type=");
    message.append(color.write().as_str());
    Err(ImageError::Decode(message))
}

/// The image that the samples of a TIFF make: 8 or 16 bits of grey or of the
/// three colours, with or without transparency. It keeps the bits of the
/// samples.
pub fn dynamic_image_from_tiff(
    image_path: &str,
    dimensions: Dimensions,
    color_type: TiffColorType,
    decoded: TiffSamples,
) -> (r: ImageResult<RgbImage>)
    ensures
        settles_as_view(r, tiff_pixels(image_path@, dimensions, color_type@, decoded@)),
{
    let (channels, bits): (usize, u8) = match &color_type {
        TiffColorType::Gray(bits) => (1, *bits),
        TiffColorType::GrayA(bits) => (2, *bits),
        TiffColorType::RGB(bits) => (3, *bits),
        TiffColorType::RGBA(bits) => (4, *bits),
        TiffColorType::Other(_) => (0, 0),
    };
    if channels != 0 {
        match &decoded {
            TiffSamples::U8(data) => {
                if bits == 8 {
                    return match sufficient_pixels(
                        dimensions.width,
                        dimensions.height,
                        channels,
                        data.len(),
                    ) {
                        Some(pixels) => Ok(
                            RgbImage {
                                dimensions,
                                rgb: RgbValues::Bytes(bytes_to_rgb(data, channels, pixels)),
                            },
                        ),
                        None => tiff_buffer_mismatch_error(image_path, dimensions, &color_type),
                    };
                }
            },
            TiffSamples::U16(data) => {
                if bits == 16 {
                    return match sufficient_pixels(
                        dimensions.width,
                        dimensions.height,
                        channels,
                        data.len(),
                    ) {
                        Some(pixels) => Ok(
                            RgbImage {
                                dimensions,
                                rgb: RgbValues::Words(words_to_rgb(data, channels, pixels)),
                            },
                        ),
                        None => tiff_buffer_mismatch_error(image_path, dimensions, &color_type),
                    };
                }
            },
            TiffSamples::Unsupported => {},
        }
    }
    let mut message = "unsupported TIFF pixel format for '".to_owned();
    message.append(image_path);
    message.append("': color_type=");
    message.append(color_type.write().as_str());
    message.append(", sample_type=");
    message.append(tiff_result_type_name(&decoded));
    Err(ImageError::Decode(message))
}

// ---------------------------------------------------------------------------
// The decoder
// ---------------------------------------------------------------------------

/// What a TIFF decoder reads of the first image of a file.
#[derive(Debug)]
pub struct TiffParts {
    pub dimensions: Dimensions,
    pub color_type: TiffColorType,
    /// The color profile, if there is one that can be read.
    pub icc_profile: Option<Vec<u8>>,
    pub samples: TiffSamples,
}

/// Where a TIFF decoder stopped; the text says why.
#[derive(Debug)]
pub enum TiffTrouble {
    /// The file could not be opened as a TIFF.
    Opening(String),
    Dimensions(String),
    ColorType(String),
    ImageData(String),
}

/// What comes of reading a TIFF.
pub type TiffReading = Result<TiffParts, TiffTrouble>;

impl TiffTrouble {
    pub open spec fn text(self) -> Seq<char> {
        match self {
            TiffTrouble::Opening(text) => "failed to initialize TIFF decoder: "@ + text@,
            TiffTrouble::Dimensions(text) => "failed to read TIFF dimensions: "@ + text@,
            TiffTrouble::ColorType(text) => "failed to read TIFF color type: "@ + text@,
            TiffTrouble::ImageData(text) => "failed to decode TIFF image data: "@ + text@,
        }
    }

    /// Says at which step the decoder stopped, and why.
    pub fn message(&self) -> (text: String)
        ensures
            text@ == self.text(),
    {
        let (head, tail): (&str, &String) = match self {
            TiffTrouble::Opening(text) => ("failed to initialize TIFF decoder: ", text),
            TiffTrouble::Dimensions(text) => ("failed to read TIFF dimensions: ", text),
            TiffTrouble::ColorType(text) => ("failed to read TIFF color type: ", text),
            TiffTrouble::ImageData(text) => ("failed to decode TIFF image data: ", text),
        };
        let mut message = head.to_owned();
        message.append(tail.as_str());
        message
    }
}

/// An image, and the color profile that its values are in.
#[derive(Debug)]
pub struct ProfiledImage {
    pub image: RgbImage,
    pub icc_profile: Option<Vec<u8>>,
}

/// An image and its color profile, as a mathematical value.
pub struct ProfiledPixels {
    pub dimensions: Dimensions,
    pub rgb: RgbSeq,
    pub icc_profile: Option<Seq<u8>>,
}

impl View for ProfiledImage {
    type V = ProfiledPixels;

    open spec fn view(&self) -> ProfiledPixels {
        ProfiledPixels {
            dimensions: self.image.dimensions,
            rgb: self.image.rgb@,
            icc_profile: match self.icc_profile {
                Some(profile) => Some(profile@),
                None => None,
            },
        }
    }
}

/// What decoding a TIFF comes to, given what was read of it.
pub open spec fn tiff_outcome(reading: TiffReading, name: Seq<char>) -> Result<
    ProfiledPixels,
    Seq<char>,
> {
    match reading {
        Err(trouble) => Err(trouble.text()),
        Ok(parts) => match tiff_pixels(
            name,
            parts.dimensions,
            parts.color_type@,
            parts.samples@,
        ) {
            Err(text) => Err(text),
            Ok((dimensions, rgb)) => Ok(
                ProfiledPixels {
                    dimensions,
                    rgb,
                    icc_profile: match parts.icc_profile {
                        Some(profile) => Some(profile@),
                        None => None,
                    },
                },
            ),
        },
    }
}

/// What decoding a TIFF comes to, given what was read of it. `name` is what
/// messages call it.
pub fn settle_tiff(reading: TiffReading, name: &str) -> (r: ImageResult<ProfiledImage>)
    ensures
        settles_as_view(r, tiff_outcome(reading, name@)),
        r matches Ok(decoded) ==> decoded.image.well_formed(),
{
    match reading {
        Err(trouble) => Err(ImageError::Decode(trouble.message())),
        Ok(parts) => {
            let TiffParts { dimensions, color_type, icc_profile, samples } = parts;
            assert(0 <= dimensions.width * dimensions.height) by (nonlinear_arith)
                requires
                    0 <= dimensions.width,
                    0 <= dimensions.height,
            ;
            match dynamic_image_from_tiff(name, dimensions, color_type, samples) {
                Ok(image) => Ok(ProfiledImage { image, icc_profile }),
                Err(error) => Err(error),
            }
        },
    }
}

/// Decodes a TIFF. `name` is what messages call it.
///
/// `read_tiff` asks the TIFF decoder. It is handed in because that may panic on
/// a damaged file.
pub fn decode_tiff_from_bytes<T: FnOnce(&[u8]) -> TiffReading>(
    image_bytes: &[u8],
    name: &str,
    read_tiff: T,
) -> (r: ImageResult<ProfiledImage>)
    requires
        read_tiff.requires((image_bytes,)),
    ensures
        exists|reading: TiffReading| #[trigger]
            read_tiff.ensures((image_bytes,), reading) && settles_as_view(
                r,
                tiff_outcome(reading, name@),
            ),
        r matches Ok(decoded) ==> decoded.image.well_formed(),
{
    let reading = read_tiff(image_bytes);
    let ghost given = reading;
    assert(read_tiff.ensures((image_bytes,), given));
    settle_tiff(reading, name)
}

/// An image is made of samples exactly where they are grey or coloured, have the
/// 8 or 16 bits that the color type says, and are enough for all pixels.
pub proof fn law_sound_samples_make_an_image(
    image_path: Seq<char>,
    dimensions: Dimensions,
    color: TiffColor,
    samples: TiffSampleValues,
)
    ensures
        tiff_pixels(image_path, dimensions, color, samples) is Ok <==> {
            let pixels = dimensions.width * dimensions.height;
            let needed = match color {
                TiffColor::Gray(_) => pixels,
                TiffColor::GrayA(_) => 2 * pixels,
                TiffColor::RGB(_) => 3 * pixels,
                TiffColor::RGBA(_) => 4 * pixels,
                TiffColor::Other(_) => 0,
            };
            let bits = match color {
                TiffColor::Gray(bits) => bits,
                TiffColor::GrayA(bits) => bits,
                TiffColor::RGB(bits) => bits,
                TiffColor::RGBA(bits) => bits,
                TiffColor::Other(_) => 0,
            };
            match samples {
                TiffSampleValues::U8(data) => bits == 8 && data.len() >= needed,
                TiffSampleValues::U16(data) => bits == 16 && data.len() >= needed,
                TiffSampleValues::Unsupported => false,
            }
        },
{
    assert(0 <= dimensions.width * dimensions.height) by (nonlinear_arith)
        requires
            0 <= dimensions.width,
            0 <= dimensions.height,
    ;
    let pixels = (dimensions.width * dimensions.height) as nat;
    let channels = color.channels() as int;
    match color {
        TiffColor::Gray(_) => {
            assert(channels * pixels == pixels) by (nonlinear_arith)
                requires
                    channels == 1,
            ;
        },
        TiffColor::GrayA(_) => {
            assert(channels * pixels == 2 * pixels) by (nonlinear_arith)
                requires
                    channels == 2,
            ;
        },
        TiffColor::RGB(_) => {
            assert(channels * pixels == 3 * pixels) by (nonlinear_arith)
                requires
                    channels == 3,
            ;
        },
        TiffColor::RGBA(_) => {
            assert(channels * pixels == 4 * pixels) by (nonlinear_arith)
                requires
                    channels == 4,
            ;
        },
        TiffColor::Other(_) => {},
    }
}

/// Pixel by pixel the image holds the samples: grey stands for red, green and
/// blue, colours keep their order, and transparency is left out. No bit is lost.
pub proof fn law_samples_become_pixels(
    image_path: Seq<char>,
    dimensions: Dimensions,
    color: TiffColor,
    samples: TiffSampleValues,
    p: int,
)
    requires
        0 <= p < dimensions.width * dimensions.height,
    ensures
        tiff_pixels(image_path, dimensions, color, samples) matches Ok((size, rgb)) ==> {
            let (red, green, blue): (int, int, int) = match color {
                TiffColor::Gray(_) => (p, p, p),
                TiffColor::GrayA(_) => (2 * p, 2 * p, 2 * p),
                TiffColor::RGB(_) => (3 * p, 3 * p + 1, 3 * p + 2),
                TiffColor::RGBA(_) => (4 * p, 4 * p + 1, 4 * p + 2),
                TiffColor::Other(_) => (0, 0, 0),
            };
            &&& size == dimensions
            &&& rgb.len() == 3 * (dimensions.width * dimensions.height)
            &&& samples matches TiffSampleValues::U8(data) ==> rgb matches RgbSeq::Bytes(values) && (
            values[3 * p], values[3 * p + 1], values[3 * p + 2]) == (
                data[red],
                data[green],
                data[blue],
            )
            &&& samples matches TiffSampleValues::U16(data) ==> rgb matches RgbSeq::Words(values)
                && (values[3 * p], values[3 * p + 1], values[3 * p + 2]) == (
                data[red],
                data[green],
                data[blue],
            )
        },
{
    assert(3 * p / 3 == p && (3 * p + 1) / 3 == p && (3 * p + 2) / 3 == p);
    assert((3 * p) % 3 == 0 && (3 * p + 1) % 3 == 1 && (3 * p + 2) % 3 == 2);
    assert(p * 1 == p && p * 2 == 2 * p && p * 3 == 3 * p && p * 4 == 4 * p);
}

/// What is wrong with a TIFF is told in the words of its decoder, and a color
/// profile that was read goes with the image.
pub proof fn law_tiff_reading_is_told(reading: TiffReading, name: Seq<char>)
    ensures
        reading matches Err(trouble) ==> tiff_outcome(reading, name) matches Err(text)
            && ends_with(
            text,
            match trouble {
                TiffTrouble::Opening(why) => why@,
                TiffTrouble::Dimensions(why) => why@,
                TiffTrouble::ColorType(why) => why@,
                TiffTrouble::ImageData(why) => why@,
            },
        ),
        reading matches Ok(parts) ==> (tiff_outcome(reading, name) matches Ok(pixels) ==> {
            &&& pixels.dimensions == parts.dimensions
            &&& parts.icc_profile matches Some(profile) ==> pixels.icc_profile == Some(profile@)
            &&& parts.icc_profile is None ==> pixels.icc_profile is None
            &&& tiff_pixels(name, parts.dimensions, parts.color_type@, parts.samples@) == Ok::<
                (Dimensions, RgbSeq),
                Seq<char>,
            >((pixels.dimensions, pixels.rgb))
        }),
{
    if let Err(trouble) = reading {
        match trouble {
            TiffTrouble::Opening(why) => {
                lemma_ends_with("failed to initialize TIFF decoder: "@, why@);
            },
            TiffTrouble::Dimensions(why) => {
                lemma_ends_with("failed to read TIFF dimensions: "@, why@);
            },
            TiffTrouble::ColorType(why) => {
                lemma_ends_with("failed to read TIFF color type: "@, why@);
            },
            TiffTrouble::ImageData(why) => {
                lemma_ends_with("failed to decode TIFF image data: "@, why@);
            },
        }
    }
}

} // verus!
