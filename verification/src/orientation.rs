//! Turns images the way their metadata says.

use vstd::prelude::*;

use crate::types::{pixel, pixel_index, DecodedImage, Dimensions};

verus! {

/// The orientation that a RAW decoder reports.
#[derive(Clone, Copy, Debug, PartialEq, Eq, Structural)]
pub enum RawOrientation {
    Normal,
    HorizontalFlip,
    Rotate180,
    VerticalFlip,
    Transpose,
    Rotate90,
    Transverse,
    Rotate270,
    Unknown,
}

/// The number that Exif gives an orientation.
pub open spec fn exif_number(orientation: RawOrientation) -> Option<u8> {
    match orientation {
        RawOrientation::Normal => Some(1),
        RawOrientation::HorizontalFlip => Some(2),
        RawOrientation::Rotate180 => Some(3),
        RawOrientation::VerticalFlip => Some(4),
        RawOrientation::Transpose => Some(5),
        RawOrientation::Rotate90 => Some(6),
        RawOrientation::Transverse => Some(7),
        RawOrientation::Rotate270 => Some(8),
        RawOrientation::Unknown => None,
    }
}

/// The number that Exif gives an orientation.
pub fn raw_orientation_to_exif(orientation: RawOrientation) -> (r: Option<u8>)
    ensures
        r == exif_number(orientation),
{
    match orientation {
        RawOrientation::Normal => Some(1),
        RawOrientation::HorizontalFlip => Some(2),
        RawOrientation::Rotate180 => Some(3),
        RawOrientation::VerticalFlip => Some(4),
        RawOrientation::Transpose => Some(5),
        RawOrientation::Rotate90 => Some(6),
        RawOrientation::Transverse => Some(7),
        RawOrientation::Rotate270 => Some(8),
        RawOrientation::Unknown => None,
    }
}

/// A value of the Exif orientation tag that means something.
pub open spec fn valid_orientation(value: Option<u32>) -> Option<u8> {
    match value {
        Some(value) => if 1 <= value <= 8 {
            Some(value as u8)
        } else {
            None
        },
        None => None,
    }
}

/// Drops a value of the Exif orientation tag that means nothing.
pub fn checked_orientation(value: Option<u32>) -> (r: Option<u8>)
    ensures
        r == valid_orientation(value),
{
    match value {
        Some(value) => {
            if 1 <= value && value <= 8 {
                Some(value as u8)
            } else {
                None
            }
        },
        None => None,
    }
}

/// Width and height change places.
pub open spec fn swaps_sides(orientation: u8) -> bool {
    5 <= orientation <= 8
}

/// The size of an image behind an orientation.
pub open spec fn oriented_dimensions(dimensions: Dimensions, orientation: u8) -> Dimensions {
    if swaps_sides(orientation) {
        Dimensions { width: dimensions.height, height: dimensions.width }
    } else {
        dimensions
    }
}

/// Where the pixel comes from that an orientation puts in column `x` and row
/// `y`, in an image of the given size.
pub open spec fn origin(orientation: u8, dimensions: Dimensions, x: int, y: int) -> (int, int) {
    let right = dimensions.width - 1;
    let bottom = dimensions.height - 1;
    if orientation == 2 {
        (right - x, y)
    } else if orientation == 3 {
        (right - x, bottom - y)
    } else if orientation == 4 {
        (x, bottom - y)
    } else if orientation == 5 {
        (y, x)
    } else if orientation == 6 {
        (y, bottom - x)
    } else if orientation == 7 {
        (right - y, bottom - x)
    } else if orientation == 8 {
        (right - y, x)
    } else {
        (x, y)
    }
}

/// `turned` is `image` behind an orientation.
pub open spec fn is_oriented(turned: DecodedImage, image: DecodedImage, orientation: u8) -> bool {
    &&& turned.well_formed()
    &&& turned.dimensions == oriented_dimensions(image.dimensions, orientation)
    &&& forall|x: int, y: int| #[trigger]
        turned.has(x, y) ==> turned.pixel_at(x, y) == {
            let (from_x, from_y) = origin(orientation, image.dimensions, x, y);
            image.pixel_at(from_x, from_y)
        }
}

/// The orientation that undoes another.
pub open spec fn inverse_orientation(orientation: u8) -> u8 {
    if orientation == 6 {
        8
    } else if orientation == 8 {
        6
    } else {
        orientation
    }
}

proof fn lemma_index_in_image(width: int, height: int, x: int, y: int)
    requires
        0 <= x < width,
        0 <= y < height,
    ensures
        0 <= pixel_index(width, x, y) < width * height,
{
    assert(0 <= y * width) by (nonlinear_arith)
        requires
            0 <= y,
            0 <= width,
    ;
    assert(y * width + width <= height * width) by (nonlinear_arith)
        requires
            y + 1 <= height,
            0 <= width,
    ;
    assert(height * width == width * height) by (nonlinear_arith);
}

/// Where the pixel comes from that an orientation puts in column `x` and row
/// `y`.
fn find_origin(orientation: u8, dimensions: Dimensions, x: u32, y: u32) -> (r: (u32, u32))
    requires
        x < oriented_dimensions(dimensions, orientation).width,
        y < oriented_dimensions(dimensions, orientation).height,
    ensures
        r.0 < dimensions.width,
        r.1 < dimensions.height,
        (r.0 as int, r.1 as int) == origin(orientation, dimensions, x as int, y as int),
{
    let right: u32 = dimensions.width - 1;
    let bottom: u32 = dimensions.height - 1;
    if orientation == 2 {
        (right - x, y)
    } else if orientation == 3 {
        (right - x, bottom - y)
    } else if orientation == 4 {
        (x, bottom - y)
    } else if orientation == 5 {
        (y, x)
    } else if orientation == 6 {
        (y, bottom - x)
    } else if orientation == 7 {
        (right - y, bottom - x)
    } else if orientation == 8 {
        (right - y, x)
    } else {
        (x, y)
    }
}

/// Turns an image. An orientation that means nothing leaves it as it is.
pub fn apply_exif_orientation(image: DecodedImage, orientation: u8) -> (turned: DecodedImage)
    requires
        image.well_formed(),
    ensures
        is_oriented(turned, image, orientation),
        !(2 <= orientation <= 8) ==> turned == image,
{
    if orientation < 2 || orientation > 8 {
        return image;
    }
    let dimensions = if orientation >= 5 {
        Dimensions { width: image.dimensions.height, height: image.dimensions.width }
    } else {
        image.dimensions
    };
    let width: u32 = dimensions.width;
    let height: u32 = dimensions.height;
    let ghost w = width as int;
    let length: usize = image.rgb.len();
    let mut rgb: Vec<u8> = Vec::new();
    let mut y: u32 = 0;
    assert(0 * w == 0);
    while y < height
        invariant
            image.well_formed(),
            length == image.rgb@.len(),
            dimensions == oriented_dimensions(image.dimensions, orientation),
            width == dimensions.width,
            height == dimensions.height,
            w == width,
            y <= height,
            rgb@.len() == 3 * (y * w),
            forall|i: int, j: int|
                0 <= i < width && 0 <= j < y ==> pixel(
                    rgb@,
                    #[trigger] pixel_index(w, i, j),
                ) == {
                    let (from_x, from_y) = origin(orientation, image.dimensions, i, j);
                    image.pixel_at(from_x, from_y)
                },
        decreases height - y,
    {
        let mut x: u32 = 0;
        while x < width
            invariant
                image.well_formed(),
                length == image.rgb@.len(),
                dimensions == oriented_dimensions(image.dimensions, orientation),
                width == dimensions.width,
                height == dimensions.height,
                w == width,
                y < height,
                x <= width,
                rgb@.len() == 3 * (y * w + x),
                forall|i: int, j: int|
                    0 <= i < width && 0 <= j < y ==> pixel(
                        rgb@,
                        #[trigger] pixel_index(w, i, j),
                    ) == {
                        let (from_x, from_y) = origin(orientation, image.dimensions, i, j);
                        image.pixel_at(from_x, from_y)
                    },
                forall|i: int|
                    0 <= i < x ==> pixel(rgb@, #[trigger] pixel_index(w, i, y as int)) == {
                        let (from_x, from_y) = origin(orientation, image.dimensions, i, y as int);
                        image.pixel_at(from_x, from_y)
                    },
            decreases width - x,
        {
            let (from_x, from_y): (u32, u32) = find_origin(orientation, image.dimensions, x, y);
            let ghost before = rgb@;
            proof {
                lemma_index_in_image(
                    image.dimensions.width as int,
                    image.dimensions.height as int,
                    from_x as int,
                    from_y as int,
                );
                assert(0 <= from_y * image.dimensions.width) by (nonlinear_arith)
                    requires
                        0 <= from_y,
                        0 <= image.dimensions.width,
                ;
            }
            let from: usize = from_y as usize * image.dimensions.width as usize + from_x as usize;
            rgb.push(image.rgb[3 * from]);
            rgb.push(image.rgb[3 * from + 1]);
            rgb.push(image.rgb[3 * from + 2]);
            proof {
                assert forall|i: int, j: int| 0 <= i < width && 0 <= j < y implies pixel(
                    rgb@,
                    #[trigger] pixel_index(w, i, j),
                ) == pixel(before, pixel_index(w, i, j)) by {
                    lemma_index_in_image(w, y as int, i, j);
                    assert(w * y == y * w) by (nonlinear_arith);
                }
                assert forall|i: int| 0 <= i < x implies pixel(
                    rgb@,
                    #[trigger] pixel_index(w, i, y as int),
                ) == pixel(before, pixel_index(w, i, y as int)) by {
                    assert(0 <= y * w) by (nonlinear_arith)
                        requires
                            0 <= y,
                            0 <= w,
                    ;
                }
            }
            x = x + 1;
        }
        proof {
            assert((y + 1) * w == y * w + w) by (nonlinear_arith);
        }
        y = y + 1;
    }
    let turned = DecodedImage { dimensions, rgb };
    proof {
        assert(height * w == width * height) by (nonlinear_arith)
            requires
                w == width,
        ;
        assert forall|i: int, j: int| #[trigger] turned.has(i, j) implies turned.pixel_at(i, j)
            == {
            let (from_x, from_y) = origin(orientation, image.dimensions, i, j);
            image.pixel_at(from_x, from_y)
        } by {
            assert(pixel(rgb@, pixel_index(w, i, j)) == turned.pixel_at(i, j));
        }
    }
    turned
}

/// Turning an image and turning it back shows the image again.
pub proof fn law_orientation_is_undone(
    image: DecodedImage,
    turned: DecodedImage,
    back: DecodedImage,
    orientation: u8,
)
    requires
        image.well_formed(),
        is_oriented(turned, image, orientation),
        is_oriented(back, turned, inverse_orientation(orientation)),
    ensures
        back.dimensions == image.dimensions,
        forall|x: int, y: int| #[trigger]
            image.has(x, y) ==> back.pixel_at(x, y) == image.pixel_at(x, y),
{
    assert forall|x: int, y: int| #[trigger] image.has(x, y) implies back.pixel_at(x, y)
        == image.pixel_at(x, y) by {
        let (i, j) = origin(inverse_orientation(orientation), turned.dimensions, x, y);
        assert(back.has(x, y));
        assert(turned.has(i, j));
    }
}

/// Where an orientation shows what is stored in column `x` and row `y`, counted
/// from the edge on which Exif has the first stored row and the first stored
/// column: 2 has the first column on the right, 3 the first row at the bottom
/// and the first column on the right, 4 the first row at the bottom, 5 the first
/// row on the left, 6 the first row on the right, 7 the first row on the right
/// and the first column at the bottom, and 8 the first row on the left and the
/// first column at the bottom.
pub open spec fn shown_place(orientation: u8, width: int, height: int, x: int, y: int) -> (
    int,
    int,
) {
    let row_on_the_side = orientation == 5 || orientation == 6 || orientation == 7 || orientation
        == 8;
    let row_from_the_end = orientation == 3 || orientation == 4 || orientation == 6 || orientation
        == 7;
    let column_from_the_end = orientation == 2 || orientation == 3 || orientation == 7
        || orientation == 8;
    let row = if row_from_the_end {
        height - 1 - y
    } else {
        y
    };
    let column = if column_from_the_end {
        width - 1 - x
    } else {
        x
    };
    if row_on_the_side {
        (row, column)
    } else {
        (column, row)
    }
}

/// A turned image shows every stored pixel, and shows it where Exif says.
pub proof fn law_stored_pixels_are_shown(
    image: DecodedImage,
    turned: DecodedImage,
    orientation: u8,
    x: int,
    y: int,
)
    requires
        is_oriented(turned, image, orientation),
        image.has(x, y),
    ensures
        ({
            let (column, row) = shown_place(
                orientation,
                image.dimensions.width as int,
                image.dimensions.height as int,
                x,
                y,
            );
            turned.has(column, row) && turned.pixel_at(column, row) == image.pixel_at(x, y)
        }),
{
    let (column, row) = shown_place(
        orientation,
        image.dimensions.width as int,
        image.dimensions.height as int,
        x,
        y,
    );
    assert(turned.has(column, row));
}

/// The four orientations from 5 on put the image on its side, and the others
/// keep its sides.
pub proof fn law_sides_of_a_turned_image(
    image: DecodedImage,
    turned: DecodedImage,
    orientation: u8,
)
    requires
        is_oriented(turned, image, orientation),
    ensures
        5 <= orientation <= 8 ==> turned.dimensions.width == image.dimensions.height
            && turned.dimensions.height == image.dimensions.width,
        !(5 <= orientation <= 8) ==> turned.dimensions == image.dimensions,
        turned.rgb@.len() == 3 * (turned.dimensions.width * turned.dimensions.height),
{
}

/// Two orientations, one applied behind the other, are a single one: two quarter
/// turns are a half turn, a half turn and a quarter turn are three quarters, two
/// half turns are none, mirrored to the side and upside down is a half turn, and
/// 5 and 7 are mirrored to the side and turned by three quarters and by one.
pub open spec fn combine_to(first: u8, second: u8, single: u8) -> bool {
    ||| first == 6 && second == 6 && single == 3
    ||| first == 3 && second == 6 && single == 8
    ||| first == 3 && second == 3 && single == 1
    ||| first == 2 && second == 4 && single == 3
    ||| first == 2 && second == 8 && single == 5
    ||| first == 2 && second == 6 && single == 7
}

/// A quarter turn, two of them, three of them, and the mirror images of these
/// are what the names of the orientations say: applying one behind another shows
/// what a single one shows.
pub proof fn law_orientations_combine(
    image: DecodedImage,
    once: DecodedImage,
    twice: DecodedImage,
    first: u8,
    second: u8,
    single: u8,
    combined: DecodedImage,
)
    requires
        image.well_formed(),
        is_oriented(once, image, first),
        is_oriented(twice, once, second),
        is_oriented(combined, image, single),
        combine_to(first, second, single),
    ensures
        twice.dimensions == combined.dimensions,
        forall|x: int, y: int| #[trigger]
            combined.has(x, y) ==> twice.pixel_at(x, y) == combined.pixel_at(x, y),
{
    assert forall|x: int, y: int| #[trigger] combined.has(x, y) implies twice.pixel_at(x, y)
        == combined.pixel_at(x, y) by {
        assert(twice.has(x, y));
        let (i, j) = origin(second, once.dimensions, x, y);
        assert(once.has(i, j));
    }
}

/// A value of the orientation tag counts if it is one of 1 to 8, and then it is
/// that orientation. No other value is brought into this range.
pub proof fn law_eight_orientations_count(value: Option<u32>)
    ensures
        valid_orientation(value) matches Some(orientation) ==> value == Some(orientation as u32)
            && 1 <= orientation <= 8,
        valid_orientation(value) is None ==> (value matches Some(n) ==> n == 0 || n > 8),
{
}

/// What a RAW decoder says of an orientation is shown as its name says: where
/// the stored pixel in column `x` and row `y` goes.
pub proof fn law_named_orientations_are_shown(
    orientation: RawOrientation,
    image: DecodedImage,
    turned: DecodedImage,
    x: int,
    y: int,
)
    requires
        exif_number(orientation) matches Some(n) && is_oriented(turned, image, n),
        image.has(x, y),
    ensures
        ({
            let right = image.dimensions.width - 1;
            let bottom = image.dimensions.height - 1;
            let (column, row) = match orientation {
                RawOrientation::Normal | RawOrientation::Unknown => (x, y),
                RawOrientation::HorizontalFlip => (right - x, y),
                RawOrientation::VerticalFlip => (x, bottom - y),
                RawOrientation::Rotate180 => (right - x, bottom - y),
                RawOrientation::Transpose => (y, x),
                RawOrientation::Rotate90 => (bottom - y, x),
                RawOrientation::Transverse => (bottom - y, right - x),
                RawOrientation::Rotate270 => (y, right - x),
            };
            turned.has(column, row) && turned.pixel_at(column, row) == image.pixel_at(x, y)
        }),
        orientation != RawOrientation::Unknown,
{
    law_stored_pixels_are_shown(image, turned, exif_number(orientation).unwrap(), x, y);
}

/// Every orientation that has a name is known, and no two are taken for one.
pub proof fn law_named_orientations_differ(one: RawOrientation, other: RawOrientation)
    ensures
        exif_number(one) is None <==> one == RawOrientation::Unknown,
        exif_number(one) == exif_number(other) ==> one == other,
{
}

} // verus!
