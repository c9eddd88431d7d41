//! Reads what an image file directory (IFD) of a DNG says.

use rawler::formats::tiff::ifd::DataMode;
use rawler::formats::tiff::{Entry, Value, IFD};
use rawler::rawsource::RawSource;
use vstd::prelude::*;
use vstd::string::*;

use crate::sniff::readable;

verus! {

pub const TAG_IMAGE_WIDTH: u16 = 256;

pub const TAG_IMAGE_LENGTH: u16 = 257;

pub const TAG_COMPRESSION: u16 = 259;

pub const TAG_STRIP_OFFSETS: u16 = 273;

pub const TAG_SAMPLES_PER_PIXEL: u16 = 277;

pub const TAG_ROWS_PER_STRIP: u16 = 278;

pub const TAG_STRIP_BYTE_COUNTS: u16 = 279;

pub const TAG_TILE_WIDTH: u16 = 322;

pub const TAG_TILE_LENGTH: u16 = 323;

pub const TAG_TILE_OFFSETS: u16 = 324;

pub const TAG_TILE_BYTE_COUNTS: u16 = 325;

pub const TAG_JPEG_OFFSET: u16 = 513;

pub const TAG_JPEG_BYTE_COUNT: u16 = 514;

/// `rawler::formats::tiff::IFD`: nothing inside it is looked at.
#[verifier::external_type_specification]
#[verifier::external_body]
pub struct ExIfd(rawler::formats::tiff::IFD);

/// `rawler::rawsource::RawSource`: nothing inside it is looked at.
#[verifier::external_type_specification]
#[verifier::external_body]
pub struct ExRawSource(rawler::rawsource::RawSource);

/// The tags of a directory, each with its first value as a length. A value that
/// is no such number counts as zero.
pub uninterp spec fn ifd_numbers(ifd: IFD) -> Map<u16, usize>;

/// The tags of a directory, each with its first value as a 16-bit number. A
/// value that is no such number counts as zero.
pub uninterp spec fn ifd_shorts(ifd: IFD) -> Map<u16, u16>;

/// The tags of a directory whose values are 32-bit numbers, each with all of
/// them.
pub uninterp spec fn ifd_longs(ifd: IFD) -> Map<u16, Seq<u32>>;

/// The position that the strips of a directory are counted from.
pub uninterp spec fn ifd_base(ifd: IFD) -> u32;

/// The bytes of a file.
pub uninterp spec fn source_bytes(source: RawSource) -> Seq<u8>;

/// `map[key]`, where there is one.
pub open spec fn lookup<T>(map: Map<u16, T>, key: u16) -> Option<T> {
    if map.dom().contains(key) {
        Some(map[key])
    } else {
        None
    }
}

/// A tag's first value, by `IFD::get_entry` and `Entry::force_usize`.
///
/// Trusted: it depends on the directory and the tag, and is there wherever the
/// tag is.
#[verifier::external_body]
pub(crate) fn ifd_number(ifd: &IFD, tag: u16) -> (r: Option<usize>)
    ensures
        r == lookup(ifd_numbers(*ifd), tag),
{
    ifd.get_entry(tag).map(|entry| entry.force_usize(0))
}

/// A tag's first value, by `IFD::get_entry` and `Entry::force_u16`.
///
/// Trusted: it depends on the directory and the tag, and is there wherever the
/// tag is.
#[verifier::external_body]
pub(crate) fn ifd_short(ifd: &IFD, tag: u16) -> (r: Option<u16>)
    ensures
        r == lookup(ifd_shorts(*ifd), tag),
{
    ifd.get_entry(tag).map(|entry| entry.force_u16(0))
}

/// The values of a tag, where they are 32-bit numbers, by `IFD::get_entry`.
///
/// Trusted: they depend on the directory and the tag.
#[verifier::external_body]
pub(crate) fn ifd_long_values(ifd: &IFD, tag: u16) -> (r: Option<&[u32]>)
    ensures
        match r {
            Some(values) => lookup(ifd_longs(*ifd), tag) == Some(values@),
            None => lookup(ifd_longs(*ifd), tag) is None,
        },
{
    match ifd.get_entry(tag) {
        Some(Entry { value: Value::Long(values), .. }) => Some(values.as_slice()),
        _ => None,
    }
}

/// The position that strips are counted from: the field `IFD::base`.
///
/// Trusted: it depends on the directory.
#[verifier::external_body]
pub(crate) fn read_ifd_base(ifd: &IFD) -> (r: u32)
    ensures
        r == ifd_base(*ifd),
{
    ifd.base
}

/// How the samples of an image are stored.
#[derive(Clone, Copy, Debug, PartialEq, Eq, Structural)]
pub enum Storage {
    Strips,
    Tiles,
}

/// How a directory stores its samples.
pub open spec fn storage_of(numbers: Map<u16, usize>) -> Option<Storage> {
    if numbers.dom().contains(TAG_STRIP_OFFSETS) {
        Some(Storage::Strips)
    } else if numbers.dom().contains(TAG_TILE_OFFSETS) {
        Some(Storage::Tiles)
    } else {
        None
    }
}

pub open spec fn no_storage_text() -> Seq<char> {
    "General error: IFD has no StripOffsets or TileOffsets tag"@
}

/// How a directory stores its samples, by `IFD::data_mode`.
///
/// Trusted: in strips where it says where strips are, else in tiles where it
/// says where tiles are. With neither there is an error of a fixed text.
#[verifier::external_body]
pub(crate) fn ifd_storage(ifd: &IFD) -> (r: Result<Storage, String>)
    ensures
        match r {
            Ok(storage) => storage_of(ifd_numbers(*ifd)) == Some(storage),
            Err(text) => storage_of(ifd_numbers(*ifd)) is None && text@ == no_storage_text(),
        },
{
    match ifd.data_mode() {
        Ok(DataMode::Strips) => Ok(Storage::Strips),
        Ok(DataMode::Tiles) => Ok(Storage::Tiles),
        Err(e) => Err(e.to_string()),
    }
}

// ---------------------------------------------------------------------------
// Blocks
// ---------------------------------------------------------------------------

/// Every block of the table lies in the file, counted from `base`.
pub open spec fn blocks_in_file(
    offsets: Seq<u32>,
    sizes: Seq<u32>,
    base: int,
    bytes: Seq<u8>,
) -> bool {
    forall|i: int|
        0 <= i < offsets.len() && i < sizes.len() ==> readable(
            bytes,
            base + #[trigger] offsets[i],
            sizes[i] as int,
        )
}

/// The blocks of a table, counted from `base`.
pub open spec fn table_blocks(
    offsets: Seq<u32>,
    sizes: Seq<u32>,
    base: int,
    bytes: Seq<u8>,
) -> Seq<Seq<u8>> {
    let count = if offsets.len() < sizes.len() {
        offsets.len()
    } else {
        sizes.len()
    };
    Seq::new(
        count,
        |i: int| bytes.subrange(base + offsets[i], base + offsets[i] + sizes[i]),
    )
}

/// No strip from `i` on, as long as each begins where the one before it ends,
/// ends beyond 32 bits.
pub open spec fn run_fits(offsets: Seq<u32>, sizes: Seq<u32>, i: int) -> bool
    decreases offsets.len() - i,
{
    if i < 0 || i >= offsets.len() || i >= sizes.len() {
        true
    } else {
        let end = offsets[i] + sizes[i];
        end <= u32::MAX && (i + 1 < offsets.len() && offsets[i + 1] == end ==> run_fits(
            offsets,
            sizes,
            i + 1,
        ))
    }
}

/// The table of strips holds one, and the positions that are computed from it
/// keep to 32 bits.
pub open spec fn sound_strip_table(longs: Map<u16, Seq<u32>>, base: u32) -> bool {
    match (lookup(longs, TAG_STRIP_OFFSETS), lookup(longs, TAG_STRIP_BYTE_COUNTS)) {
        (Some(offsets), Some(sizes)) => offsets.len() == sizes.len() ==> {
            &&& offsets.len() > 0
            &&& run_fits(offsets, sizes, 0)
            &&& forall|i: int|
                0 <= i < offsets.len() ==> base + #[trigger] offsets[i] <= u32::MAX
        },
        _ => true,
    }
}

/// The strips of a directory, where it has a table of them that keeps to the
/// file.
pub open spec fn strips_of(longs: Map<u16, Seq<u32>>, base: u32, bytes: Seq<u8>) -> Option<
    Seq<Seq<u8>>,
> {
    match (lookup(longs, TAG_STRIP_OFFSETS), lookup(longs, TAG_STRIP_BYTE_COUNTS)) {
        (Some(offsets), Some(sizes)) => if offsets.len() == sizes.len() && blocks_in_file(
            offsets,
            sizes,
            base as int,
            bytes,
        ) {
            Some(table_blocks(offsets, sizes, base as int, bytes))
        } else {
            None
        },
        _ => None,
    }
}

/// The tiles of a directory, where it has a table of them that keeps to the
/// file. Of two lists of different length the longer is cut.
pub open spec fn tiles_of(longs: Map<u16, Seq<u32>>, bytes: Seq<u8>) -> Option<Seq<Seq<u8>>> {
    match (lookup(longs, TAG_TILE_OFFSETS), lookup(longs, TAG_TILE_BYTE_COUNTS)) {
        (Some(offsets), Some(sizes)) => if blocks_in_file(offsets, sizes, 0, bytes) {
            Some(table_blocks(offsets, sizes, 0, bytes))
        } else {
            None
        },
        _ => None,
    }
}

/// Why there are no strips.
pub uninterp spec fn strip_error(
    numbers: Map<u16, usize>,
    longs: Map<u16, Seq<u32>>,
    base: u32,
    bytes: Seq<u8>,
) -> Seq<char>;

/// Why there are no tiles.
pub uninterp spec fn tile_error(longs: Map<u16, Seq<u32>>, bytes: Seq<u8>) -> Seq<char>;

/// `slices` holds the given blocks.
pub open spec fn holds_blocks(slices: Seq<&[u8]>, blocks: Seq<Seq<u8>>) -> bool {
    &&& slices.len() == blocks.len()
    &&& forall|i: int| 0 <= i < slices.len() ==> (#[trigger] slices[i])@ == blocks[i]
}

/// The strips of an image, by `IFD::strip_data`.
///
/// Trusted: they are the parts of the file that the tables of offsets and byte
/// counts name, and there is an error where a table is missing, the tables
/// differ in length, or a part exceeds the file. The error's text depends on
/// the tags and the file.
#[verifier::external_body]
pub(crate) fn strip_payloads<'a>(ifd: &IFD, source: &'a RawSource) -> (r: Result<
    Vec<&'a [u8]>,
    String,
>)
    requires
        sound_strip_table(ifd_longs(*ifd), ifd_base(*ifd)),
    ensures
        match r {
            Ok(strips) => strips_of(
                ifd_longs(*ifd),
                ifd_base(*ifd),
                source_bytes(*source),
            ) matches Some(blocks) && holds_blocks(strips@, blocks),
            Err(text) => {
                &&& strips_of(ifd_longs(*ifd), ifd_base(*ifd), source_bytes(*source)) is None
                &&& text@ == strip_error(
                    ifd_numbers(*ifd),
                    ifd_longs(*ifd),
                    ifd_base(*ifd),
                    source_bytes(*source),
                )
            },
        },
{
    match ifd.strip_data(source) {
        Ok((strips, _)) => Ok(strips),
        Err(e) => Err(e.to_string()),
    }
}

/// The tiles of an image, by `IFD::tile_data`.
///
/// Trusted: they are the parts of the file that the tables of offsets and byte
/// counts name, and there is an error where a table is missing or a part
/// exceeds the file. The error's text depends on the tags and the file.
#[verifier::external_body]
pub(crate) fn tile_payloads<'a>(ifd: &IFD, source: &'a RawSource) -> (r: Result<
    Vec<&'a [u8]>,
    String,
>)
    ensures
        match r {
            Ok(tiles) => tiles_of(ifd_longs(*ifd), source_bytes(*source)) matches Some(blocks)
                && holds_blocks(tiles@, blocks),
            Err(text) => {
                &&& tiles_of(ifd_longs(*ifd), source_bytes(*source)) is None
                &&& text@ == tile_error(ifd_longs(*ifd), source_bytes(*source))
            },
        },
{
    match ifd.tile_data(source) {
        Ok(tiles) => Ok(tiles),
        Err(e) => Err(e.to_string()),
    }
}

/// Tells whether the table of strips is sound.
pub(crate) fn strip_table_is_sound(ifd: &IFD) -> (b: bool)
    ensures
        b == sound_strip_table(ifd_longs(*ifd), ifd_base(*ifd)),
{
    let offsets = match ifd_long_values(ifd, TAG_STRIP_OFFSETS) {
        Some(offsets) => offsets,
        None => {
            return true;
        },
    };
    let sizes = match ifd_long_values(ifd, TAG_STRIP_BYTE_COUNTS) {
        Some(sizes) => sizes,
        None => {
            return true;
        },
    };
    if offsets.len() != sizes.len() {
        return true;
    }
    if offsets.len() == 0 {
        return false;
    }
    let base: u32 = read_ifd_base(ifd);
    let mut i: usize = 0;
    while i < offsets.len()
        invariant
            i <= offsets@.len() == sizes@.len(),
            base == ifd_base(*ifd),
            lookup(ifd_longs(*ifd), TAG_STRIP_OFFSETS) == Some(offsets@),
            lookup(ifd_longs(*ifd), TAG_STRIP_BYTE_COUNTS) == Some(sizes@),
            forall|j: int| 0 <= j < i ==> base + #[trigger] offsets@[j] <= u32::MAX,
        decreases offsets@.len() - i,
    {
        if offsets[i] > u32::MAX - base {
            assert(base + offsets@[i as int] > u32::MAX);
            return false;
        }
        i = i + 1;
    }
    strip_run_fits(offsets, sizes)
}

/// Tells whether strips that follow each other keep to 32 bits.
fn strip_run_fits(offsets: &[u32], sizes: &[u32]) -> (b: bool)
    requires
        offsets@.len() == sizes@.len(),
    ensures
        b == run_fits(offsets@, sizes@, 0),
{
    let n: usize = offsets.len();
    let mut i: usize = 0;
    while i < n
        invariant
            n == offsets@.len() == sizes@.len(),
            i <= n,
            run_fits(offsets@, sizes@, i as int) == run_fits(offsets@, sizes@, 0),
        decreases n - i,
    {
        if sizes[i] > u32::MAX - offsets[i] {
            return false;
        }
        let end: u32 = offsets[i] + sizes[i];
        if i + 1 >= n || offsets[i + 1] != end {
            return true;
        }
        i = i + 1;
    }
    true
}

} // verus!
