//! Decoded images.

use vstd::prelude::*;

verus! {

/// The size of an image, in pixels.
#[derive(Clone, Copy, Debug, PartialEq, Eq, Structural)]
pub struct Dimensions {
    pub width: u32,
    pub height: u32,
}

/// A decoded image: rows from the top, pixels from the left, and for each pixel
/// its red, green and blue value.
#[derive(Debug)]
pub struct DecodedImage {
    pub dimensions: Dimensions,
    pub rgb: Vec<u8>,
}

/// The number of bytes of an image.
pub open spec fn rgb_length(dimensions: Dimensions) -> int {
    3 * (dimensions.width * dimensions.height)
}

/// The index of a pixel in an image of the given width.
pub open spec fn pixel_index(width: int, x: int, y: int) -> int {
    y * width + x
}

/// The values of the pixel at an index.
pub open spec fn pixel(rgb: Seq<u8>, index: int) -> (u8, u8, u8) {
    (rgb[3 * index], rgb[3 * index + 1], rgb[3 * index + 2])
}

impl View for DecodedImage {
    type V = (Dimensions, Seq<u8>);

    open spec fn view(&self) -> (Dimensions, Seq<u8>) {
        (self.dimensions, self.rgb@)
    }
}

impl DecodedImage {
    /// The image has as many bytes as its size asks for.
    pub open spec fn well_formed(self) -> bool {
        self.rgb@.len() == rgb_length(self.dimensions)
    }

    /// The pixel in column `x` and row `y`.
    pub open spec fn pixel_at(self, x: int, y: int) -> (u8, u8, u8) {
        pixel(self.rgb@, pixel_index(self.dimensions.width as int, x, y))
    }

    /// Column `x` and row `y` lie in the image.
    pub open spec fn has(self, x: int, y: int) -> bool {
        0 <= x < self.dimensions.width && 0 <= y < self.dimensions.height
    }
}

// ---------------------------------------------------------------------------
// Depth
// ---------------------------------------------------------------------------

/// The 8-bit value nearest to a 16-bit value.
pub open spec fn narrowed(sample: u16) -> u8 {
    ((sample + 128) / 257) as u8
}

/// The 8-bit value nearest to a 16-bit value.
pub fn narrow(sample: u16) -> (r: u8)
    ensures
        r == narrowed(sample),
{
    ((sample as u32 + 128) / 257) as u8
}

/// Narrowing gives back what was widened.
pub proof fn law_widened_value_is_narrowed_back(value: u8)
    ensures
        narrowed((257 * value) as u16) == value,
{
}

/// 8-bit values as 16-bit values of the same brightness.
pub open spec fn widened_all(bytes: Seq<u8>) -> Seq<u16> {
    Seq::new(bytes.len(), |i: int| (257 * bytes[i]) as u16)
}

/// The 8-bit values nearest to 16-bit values.
pub open spec fn narrowed_all(words: Seq<u16>) -> Seq<u8> {
    Seq::new(words.len(), |i: int| narrowed(words[i]))
}

/// 8-bit values as 16-bit values of the same brightness.
pub fn widen_all(bytes: &Vec<u8>) -> (words: Vec<u16>)
    ensures
        words@ == widened_all(bytes@),
{
    let mut words: Vec<u16> = Vec::new();
    let mut i: usize = 0;
    while i < bytes.len()
        invariant
            i <= bytes@.len(),
            words@.len() == i,
            forall|j: int| 0 <= j < i ==> #[trigger] words@[j] == 257 * bytes@[j],
        decreases bytes@.len() - i,
    {
        words.push(257 * bytes[i] as u16);
        i = i + 1;
    }
    assert(words@ =~= widened_all(bytes@));
    words
}

/// The 8-bit values nearest to 16-bit values.
pub fn narrow_all(words: &Vec<u16>) -> (bytes: Vec<u8>)
    ensures
        bytes@ == narrowed_all(words@),
{
    let mut bytes: Vec<u8> = Vec::new();
    let mut i: usize = 0;
    while i < words.len()
        invariant
            i <= words@.len(),
            bytes@.len() == i,
            forall|j: int| 0 <= j < i ==> #[trigger] bytes@[j] == narrowed(words@[j]),
        decreases words@.len() - i,
    {
        bytes.push(narrow(words[i]));
        i = i + 1;
    }
    assert(bytes@ =~= narrowed_all(words@));
    bytes
}

/// The red, green and blue values of an image, in 8 or in 16 bits.
#[derive(Debug)]
pub enum RgbValues {
    Bytes(Vec<u8>),
    Words(Vec<u16>),
}

/// The values of an image, as a mathematical value.
pub enum RgbSeq {
    Bytes(Seq<u8>),
    Words(Seq<u16>),
}

impl View for RgbValues {
    type V = RgbSeq;

    open spec fn view(&self) -> RgbSeq {
        match self {
            RgbValues::Bytes(bytes) => RgbSeq::Bytes(bytes@),
            RgbValues::Words(words) => RgbSeq::Words(words@),
        }
    }
}

impl RgbSeq {
    /// How many values there are.
    pub open spec fn len(self) -> nat {
        match self {
            RgbSeq::Bytes(bytes) => bytes.len(),
            RgbSeq::Words(words) => words.len(),
        }
    }

    /// The values in 8 bits.
    pub open spec fn in_bytes(self) -> Seq<u8> {
        match self {
            RgbSeq::Bytes(bytes) => bytes,
            RgbSeq::Words(words) => narrowed_all(words),
        }
    }

    /// The values in 16 bits.
    pub open spec fn in_words(self) -> Seq<u16> {
        match self {
            RgbSeq::Bytes(bytes) => widened_all(bytes),
            RgbSeq::Words(words) => words,
        }
    }
}

impl RgbValues {
    /// The values in 8 bits.
    pub fn into_bytes(self) -> (bytes: Vec<u8>)
        ensures
            bytes@ == self@.in_bytes(),
    {
        match self {
            RgbValues::Bytes(bytes) => bytes,
            RgbValues::Words(words) => narrow_all(&words),
        }
    }
}

/// An image whose values have 8 or 16 bits, in the order of a decoded image.
#[derive(Debug)]
pub struct RgbImage {
    pub dimensions: Dimensions,
    pub rgb: RgbValues,
}

impl View for RgbImage {
    type V = (Dimensions, RgbSeq);

    open spec fn view(&self) -> (Dimensions, RgbSeq) {
        (self.dimensions, self.rgb@)
    }
}

impl RgbImage {
    /// The image has as many values as its size asks for.
    pub open spec fn well_formed(self) -> bool {
        self.rgb@.len() == rgb_length(self.dimensions)
    }

    /// The image in 8 bits.
    pub fn into_decoded(self) -> (image: DecodedImage)
        ensures
            image@ == (self.dimensions, self.rgb@.in_bytes()),
    {
        DecodedImage { dimensions: self.dimensions, rgb: self.rgb.into_bytes() }
    }
}

/// A value in 8 bits is the one nearest to the value in 16 bits.
pub proof fn law_narrowed_value_is_nearest(sample: u16)
    ensures
        -128 <= 257 * narrowed(sample) - sample <= 128,
{
}

/// Brightness keeps its order and its two ends, in both directions.
pub proof fn law_depth_keeps_brightness(darker: u16, brighter: u16)
    requires
        darker <= brighter,
    ensures
        narrowed(darker) <= narrowed(brighter),
        narrowed(0) == 0,
        narrowed(65_535) == 255,
{
}

/// A change of depth keeps every value in its place, and brings values of 8 bits
/// back as they were.
pub proof fn law_depth_keeps_places(values: RgbSeq, i: int)
    requires
        0 <= i < values.len(),
    ensures
        values.in_bytes().len() == values.len(),
        values.in_words().len() == values.len(),
        -128 <= 257 * values.in_bytes()[i] - values.in_words()[i] <= 128,
        values matches RgbSeq::Bytes(bytes) ==> values.in_bytes() == bytes && values.in_words()[i]
            == 257 * bytes[i],
        values matches RgbSeq::Words(words) ==> values.in_words() == words,
{
    match values {
        RgbSeq::Bytes(_) => {},
        RgbSeq::Words(words) => {
            law_narrowed_value_is_nearest(words[i]);
        },
    }
}

/// An image holds its rows from the top, each from the left, and for each pixel
/// red, green and blue.
pub proof fn law_pixels_stand_row_by_row(image: DecodedImage, x: int, y: int)
    ensures
        ({
            let at = 3 * (y * image.dimensions.width + x);
            image.pixel_at(x, y) == (image.rgb@[at], image.rgb@[at + 1], image.rgb@[at + 2])
        }),
        image.well_formed() <==> image.rgb@.len() == 3 * (image.dimensions.width
            * image.dimensions.height),
        image.has(x, y) <==> 0 <= x < image.dimensions.width && 0 <= y < image.dimensions.height,
{
}

} // verus!
