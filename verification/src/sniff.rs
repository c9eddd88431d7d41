//! Tells from a file name or from leading bytes which decoder an image is for.

use vstd::prelude::*;
use vstd::string::*;
use vstd::utf8::{decode_utf8, valid_utf8};

use crate::text::{
    contains, eq_ignore_ascii_case, same_ignoring_ascii_case, same_text, to_chars, trim, trim_text,
};

verus! {

/// File name extensions of camera RAWs.
pub const RAW_EXTENSIONS: [&'static str; 31] = [
    "3fr",
    "ari",
    "arw",
    "cr2",
    "cr3",
    "crm",
    "crw",
    "dcr",
    "dcs",
    "dng",
    "erf",
    "fff",
    "iiq",
    "kdc",
    "mef",
    "mos",
    "mrw",
    "nef",
    "nrw",
    "orf",
    "ori",
    "pef",
    "qtk",
    "raf",
    "raw",
    "rw2",
    "rwl",
    "sr2",
    "srf",
    "srw",
    "x3f",
];

/// How RAW containers begin that go to the RAW decoder first: Canon CRW,
/// Panasonic RW2, three Olympus ORF, Fujifilm RAF, Sigma X3F, Minolta MRW.
///
/// TIFF is not among them, although most RAWs are TIFF containers: a TIFF is
/// looked into for the tags that a camera writes.
pub const RAW_MAGIC_PREFIXES: [&'static str; 8] = [
    "II\x1a\0",
    "IIU\0",
    "IIRO",
    "IIRS",
    "MMOR",
    "FUJIFILM",
    "FOVb",
    "\0MRM",
];

/// The brands that mark a HEIF image.
pub const HEIF_BRANDS: [&'static str; 10] = [
    "heic",
    "heix",
    "hevc",
    "hevx",
    "heim",
    "heis",
    "hevm",
    "hevs",
    "mif1",
    "msf1",
];

/// `text` stands in `bytes` from position `at` on, one byte for each
/// character.
pub open spec fn spells(bytes: Seq<u8>, at: int, text: Seq<char>) -> bool {
    &&& 0 <= at
    &&& at + text.len() <= bytes.len()
    &&& forall|i: int| 0 <= i < text.len() ==> bytes[at + i] as char == #[trigger] text[i]
}

/// Tells whether `text` stands in `bytes` from position `at` on.
pub fn spelled_at(bytes: &[u8], at: usize, text: &str) -> (b: bool)
    ensures
        b == spells(bytes@, at as int, text@),
{
    let chars = to_chars(text);
    let n: usize = bytes.len();
    if at > n || chars.len() > n - at {
        return false;
    }
    let mut i: usize = 0;
    while i < chars.len()
        invariant
            n == bytes@.len(),
            at + chars@.len() <= n,
            i <= chars@.len(),
            chars@ == text@,
            forall|j: int| 0 <= j < i ==> bytes@[at + j] as char == #[trigger] chars@[j],
        decreases chars@.len() - i,
    {
        if bytes[at + i] as char != chars[i] {
            assert(bytes@[at + i] as char != text@[i as int]);
            return false;
        }
        i = i + 1;
    }
    true
}

/// One of `texts` stands in `bytes` from position `at` on.
pub open spec fn spells_one_of(bytes: Seq<u8>, at: int, texts: Seq<&'static str>) -> bool {
    exists|k: int| 0 <= k < texts.len() && spells(bytes, at, #[trigger] texts[k]@)
}

fn one_spelled_at(bytes: &[u8], at: usize, texts: &[&'static str]) -> (b: bool)
    ensures
        b == spells_one_of(bytes@, at as int, texts@),
{
    let mut k: usize = 0;
    while k < texts.len()
        invariant
            k <= texts@.len(),
            forall|j: int| 0 <= j < k ==> !spells(bytes@, at as int, #[trigger] texts@[j]@),
        decreases texts@.len() - k,
    {
        if spelled_at(bytes, at, texts[k]) {
            return true;
        }
        k = k + 1;
    }
    false
}

/// The first box of the file is an `ftyp` box with room for its brand.
pub open spec fn has_brand(bytes: Seq<u8>) -> bool {
    bytes.len() >= 12 && spells(bytes, 4, "ftyp"@)
}

/// A file whose brand is that of a HEIF image.
pub open spec fn looks_like_heif(bytes: Seq<u8>) -> bool {
    has_brand(bytes) && spells_one_of(bytes, 8, HEIF_BRANDS@)
}

/// Tells whether an image is a HEIF.
pub fn bytes_look_like_heif(image_bytes: &[u8]) -> (b: bool)
    ensures
        b == looks_like_heif(image_bytes@),
{
    if image_bytes.len() < 12 || !spelled_at(image_bytes, 4, "ftyp") {
        return false;
    }
    one_spelled_at(image_bytes, 8, &HEIF_BRANDS)
}

// ---------------------------------------------------------------------------
// File names
// ---------------------------------------------------------------------------

/// A path that is read alike on every platform: it has `/` for its only
/// separator and names no drive or host, and its last segment is a file name.
pub open spec fn plain_path(path: Seq<char>) -> bool {
    &&& !path.contains('\\')
    &&& !path.contains(':')
    &&& !matches_double_slash(path)
    &&& last_segment(path).len() > 0
    &&& last_segment(path) != seq!['.']
    &&& last_segment(path) != seq!['.', '.']
}

pub open spec fn matches_double_slash(path: Seq<char>) -> bool {
    path.len() >= 2 && path[0] == '/' && path[1] == '/'
}

/// What follows the last `/`.
pub open spec fn last_segment(path: Seq<char>) -> Seq<char>
    decreases path.len(),
{
    if path.len() == 0 || path.last() == '/' {
        Seq::empty()
    } else {
        last_segment(path.drop_last()).push(path.last())
    }
}

/// What follows the last dot of a file name that holds a dot behind its first
/// character.
pub open spec fn name_extension(name: Seq<char>) -> Option<Seq<char>>
    decreases name.len(),
{
    if name.len() <= 1 {
        None
    } else if name.last() == '.' {
        Some(Seq::empty())
    } else {
        match name_extension(name.drop_last()) {
            Some(extension) => Some(extension.push(name.last())),
            None => None,
        }
    }
}

/// A separator on some platform.
pub open spec fn is_separator(c: char) -> bool {
    c == '/' || c == '\\'
}

/// What follows the last `/`, `\` or `:`.
pub open spec fn last_part(path: Seq<char>) -> Seq<char>
    decreases path.len(),
{
    if path.len() == 0 || is_separator(path.last()) || path.last() == ':' {
        Seq::empty()
    } else {
        last_part(path.drop_last()).push(path.last())
    }
}

/// The extension that every platform finds, though they may differ on what
/// stands before the file name. The path names no host, and a dot stands behind
/// the first character of its last part.
pub open spec fn common_extension(path: Seq<char>) -> Option<Seq<char>> {
    if path.len() >= 2 && is_separator(path[0]) && is_separator(path[1]) {
        None
    } else if last_part(path) == seq!['.', '.'] {
        None
    } else {
        name_extension(last_part(path))
    }
}

/// A text that may be missing, as a mathematical value.
pub open spec fn text_view(text: Option<String>) -> Option<Seq<char>> {
    match text {
        Some(text) => Some(text@),
        None => None,
    }
}

/// The extension of a path, by `std::path::Path::extension`.
///
/// Trusted: on a path that every platform reads alike, the extension is what
/// follows the last dot of the file name, where a leading dot does not count.
/// So it is wherever that dot and the character before it stand behind all that
/// some platform takes for a separator or a drive. On any other path the
/// extension, if there is one, stands in the path behind a dot; what else the
/// path means depends on the platform.
#[verifier::external_body]
fn path_extension(path: &str) -> (r: Option<String>)
    ensures
        plain_path(path@) ==> text_view(r) == name_extension(last_segment(path@)),
        common_extension(path@) is Some ==> text_view(r) == common_extension(path@),
        r matches Some(extension) ==> contains(path@, seq!['.'] + extension@),
{
    std::path::Path::new(path).extension().and_then(|e| e.to_str()).map(|e| e.to_owned())
}

/// The extension of a camera RAW, in capital or small letters.
pub open spec fn is_raw_extension(extension: Seq<char>) -> bool {
    exists|k: int|
        0 <= k < RAW_EXTENSIONS@.len() && same_ignoring_ascii_case(
            extension,
            #[trigger] RAW_EXTENSIONS@[k]@,
        )
}

/// Tells whether an extension is that of a camera RAW.
pub fn extension_is_raw(extension: &str) -> (b: bool)
    ensures
        b == is_raw_extension(extension@),
{
    let chars = to_chars(extension);
    let extensions = RAW_EXTENSIONS;
    let mut k: usize = 0;
    while k < extensions.len()
        invariant
            k <= extensions@.len(),
            extensions@ == RAW_EXTENSIONS@,
            chars@ == extension@,
            forall|j: int|
                0 <= j < k ==> !same_ignoring_ascii_case(
                    extension@,
                    #[trigger] RAW_EXTENSIONS@[j]@,
                ),
        decreases extensions@.len() - k,
    {
        let known = to_chars(extensions[k]);
        if eq_ignore_ascii_case(&chars, &known) {
            assert(same_ignoring_ascii_case(extension@, RAW_EXTENSIONS@[k as int]@));
            return true;
        }
        k = k + 1;
    }
    false
}

/// A plain path whose file name has the extension of a camera RAW.
pub open spec fn raw_file_name(path: Seq<char>) -> bool {
    name_extension(last_segment(path)) matches Some(extension) && is_raw_extension(extension)
}

/// Tells by its extension whether a path is that of a camera RAW.
pub fn path_extension_is_raw(path: &str) -> (b: bool)
    ensures
        plain_path(path@) ==> b == raw_file_name(path@),
        common_extension(path@) matches Some(extension) ==> b == is_raw_extension(extension),
        b ==> exists|extension: Seq<char>|
            is_raw_extension(extension) && #[trigger] contains(path@, seq!['.'] + extension),
{
    match path_extension(path) {
        Some(extension) => extension_is_raw(extension.as_str()),
        None => false,
    }
}

// ---------------------------------------------------------------------------
// TIFF
// ---------------------------------------------------------------------------

pub const TIFF_MAGIC_LITTLE_ENDIAN: &'static str = "II*\0";

pub const TIFF_MAGIC_BIG_ENDIAN: &'static str = "MM\0*";

pub const TIFF_TAG_MAKE: u16 = 0x010F;

pub const TIFF_TAG_MODEL: u16 = 0x0110;

pub const TIFF_TAG_SOFTWARE: u16 = 0x0131;

pub const TIFF_TAG_DNG_VERSION: u16 = 0xC612;

pub const TIFF_ASCII_TYPE: u16 = 2;

/// The software that marks the RAW of a Leaf camera back.
pub const LEAF_MOS_SOFTWARE: &'static str = "Camera Library";

/// The longest chain of image file directories (IFDs) that is followed.
pub const TIFF_PRESCREEN_MAX_IFDS: usize = 32;

pub const TIFF_PRESCREEN_MAX_ENTRIES_PER_IFD: u16 = 4096;

/// A longer value of the software tag is not looked at.
pub const TIFF_PRESCREEN_MAX_SOFTWARE_BYTES: u32 = 64;

/// `n` bytes can be read from position `at` on.
pub open spec fn readable(bytes: Seq<u8>, at: int, n: int) -> bool {
    0 <= at && at + n <= bytes.len()
}

/// The two-byte number at `at`.
pub open spec fn u16_at(bytes: Seq<u8>, little_endian: bool, at: int) -> int {
    if little_endian {
        bytes[at] + 0x100 * bytes[at + 1]
    } else {
        0x100 * bytes[at] + bytes[at + 1]
    }
}

/// The four-byte number at `at`.
pub open spec fn u32_at(bytes: Seq<u8>, little_endian: bool, at: int) -> int {
    if little_endian {
        u16_at(bytes, true, at) + 0x1_0000 * u16_at(bytes, true, at + 2)
    } else {
        0x1_0000 * u16_at(bytes, false, at) + u16_at(bytes, false, at + 2)
    }
}

fn read_u16(bytes: &[u8], little_endian: bool, at: usize) -> (n: u16)
    requires
        readable(bytes@, at as int, 2),
    ensures
        n == u16_at(bytes@, little_endian, at as int),
{
    let length: usize = bytes.len();
    let first: u16 = bytes[at] as u16;
    let second: u16 = bytes[at + 1] as u16;
    if little_endian {
        first + 0x100 * second
    } else {
        0x100 * first + second
    }
}

fn read_u32(bytes: &[u8], little_endian: bool, at: usize) -> (n: u32)
    requires
        readable(bytes@, at as int, 4),
    ensures
        n == u32_at(bytes@, little_endian, at as int),
{
    let length: usize = bytes.len();
    let first: u32 = read_u16(bytes, little_endian, at) as u32;
    let second: u32 = read_u16(bytes, little_endian, at + 2) as u32;
    if little_endian {
        first + 0x1_0000 * second
    } else {
        0x1_0000 * first + second
    }
}

/// A file that begins as a TIFF does, in either byte order.
pub open spec fn has_tiff_magic(bytes: Seq<u8>) -> bool {
    spells(bytes, 0, TIFF_MAGIC_LITTLE_ENDIAN@) || spells(bytes, 0, TIFF_MAGIC_BIG_ENDIAN@)
}

/// Tells whether a file begins as a TIFF does.
pub fn bytes_have_tiff_magic(image_bytes: &[u8]) -> (b: bool)
    ensures
        b == has_tiff_magic(image_bytes@),
{
    spelled_at(image_bytes, 0, TIFF_MAGIC_LITTLE_ENDIAN) || spelled_at(
        image_bytes,
        0,
        TIFF_MAGIC_BIG_ENDIAN,
    )
}

/// Where the entry at `index` of the directory at `ifd` begins. An entry is
/// its tag, its type, the number of its values, and the values or their
/// position.
pub open spec fn entry_at(ifd: int, index: int) -> int {
    ifd + 2 + 12 * index
}

pub open spec fn entry_tag(bytes: Seq<u8>, little_endian: bool, ifd: int, index: int) -> int {
    u16_at(bytes, little_endian, entry_at(ifd, index))
}

/// A tag that the RAW decoder recognises a camera by.
pub open spec fn is_camera_tag(tag: int) -> bool {
    tag == TIFF_TAG_MAKE || tag == TIFF_TAG_MODEL || tag == TIFF_TAG_DNG_VERSION
}

/// One of the first `count` entries of the directory has a camera's tag.
pub open spec fn has_camera_tag(bytes: Seq<u8>, little_endian: bool, ifd: int, count: int) -> bool {
    exists|i: int|
        0 <= i < count && is_camera_tag(#[trigger] entry_tag(bytes, little_endian, ifd, i))
}

/// The last of the first `count` entries of the directory that names a
/// software.
pub open spec fn software_entry(
    bytes: Seq<u8>,
    little_endian: bool,
    ifd: int,
    count: int,
) -> Option<int>
    decreases count,
{
    if count <= 0 {
        None
    } else if entry_tag(bytes, little_endian, ifd, count - 1) == TIFF_TAG_SOFTWARE {
        Some(entry_at(ifd, count - 1))
    } else {
        software_entry(bytes, little_endian, ifd, count - 1)
    }
}

/// What stands before the first zero byte.
pub open spec fn before_nul(bytes: Seq<u8>) -> Seq<u8>
    decreases bytes.len(),
{
    if bytes.len() == 0 || bytes[0] == 0 {
        Seq::empty()
    } else {
        seq![bytes[0]] + before_nul(bytes.drop_first())
    }
}

fn cut_at_nul(bytes: &[u8]) -> (r: &[u8])
    ensures
        r@ == before_nul(bytes@),
{
    let n: usize = bytes.len();
    let mut at: usize = 0;
    assert(bytes@.subrange(0, n as int) == bytes@);
    assert(bytes@.subrange(0, 0) + before_nul(bytes@) == before_nul(bytes@));
    while at < n && bytes[at] != 0
        invariant
            n == bytes@.len(),
            at <= n,
            before_nul(bytes@) == bytes@.subrange(0, at as int) + before_nul(
                bytes@.subrange(at as int, n as int),
            ),
        decreases n - at,
    {
        proof {
            let rest = bytes@.subrange(at as int, n as int);
            assert(rest.drop_first() == bytes@.subrange(at + 1, n as int));
            assert(bytes@.subrange(0, at as int) + seq![rest[0]] == bytes@.subrange(0, at + 1));
            assert(bytes@.subrange(0, at as int) + (seq![rest[0]] + before_nul(rest.drop_first()))
                == bytes@.subrange(0, at + 1) + before_nul(rest.drop_first()));
        }
        at = at + 1;
    }
    proof {
        assert(before_nul(bytes@.subrange(at as int, n as int)) =~= Seq::empty());
        assert(bytes@.subrange(0, at as int) + Seq::<u8>::empty() == bytes@.subrange(
            0,
            at as int,
        ));
    }
    &bytes[0..at]
}

/// A text in UTF-8, by `std::str::from_utf8`.
///
/// Trusted: the bytes are taken if and only if they are valid UTF-8, and the
/// text is the one that they encode.
#[verifier::external_body]
fn utf8_text(bytes: &[u8]) -> (r: Option<String>)
    ensures
        r is Some <==> valid_utf8(bytes@),
        r matches Some(text) ==> text@ == decode_utf8(bytes@),
{
    std::str::from_utf8(bytes).ok().map(|text| text.to_owned())
}

/// A value of the software tag that marks the RAW of a Leaf camera back.
pub open spec fn is_leaf_software(value: Seq<u8>) -> bool {
    let text = before_nul(value);
    valid_utf8(text) && trim(decode_utf8(text)) == LEAF_MOS_SOFTWARE@
}

fn value_is_leaf_software(value: &[u8]) -> (b: bool)
    ensures
        b == is_leaf_software(value@),
{
    match utf8_text(cut_at_nul(value)) {
        Some(text) => same_text(trim_text(text.as_str()).as_str(), LEAF_MOS_SOFTWARE),
        None => false,
    }
}

/// Whether the software entry at `entry` marks the RAW of a Leaf camera back.
/// `None` where its value lies outside of the file.
pub open spec fn entry_marks_leaf(bytes: Seq<u8>, little_endian: bool, entry: int) -> Option<bool> {
    let count = u32_at(bytes, little_endian, entry + 4);
    let position = u32_at(bytes, little_endian, entry + 8);
    if u16_at(bytes, little_endian, entry + 2) != TIFF_ASCII_TYPE || count == 0 || count
        > TIFF_PRESCREEN_MAX_SOFTWARE_BYTES {
        Some(false)
    } else if count <= 4 {
        Some(is_leaf_software(bytes.subrange(entry + 8, entry + 8 + count)))
    } else if readable(bytes, position, count) {
        Some(is_leaf_software(bytes.subrange(position, position + count)))
    } else {
        None
    }
}

fn software_entry_marks_leaf(bytes: &[u8], little_endian: bool, entry: usize) -> (r: Option<bool>)
    requires
        readable(bytes@, entry as int, 12),
    ensures
        r == entry_marks_leaf(bytes@, little_endian, entry as int),
{
    let length: usize = bytes.len();
    let count: u32 = read_u32(bytes, little_endian, entry + 4);
    if read_u16(bytes, little_endian, entry + 2) != TIFF_ASCII_TYPE || count == 0 || count
        > TIFF_PRESCREEN_MAX_SOFTWARE_BYTES {
        return Some(false);
    }
    let start: usize = if count <= 4 {
        entry + 8
    } else {
        let position: u32 = read_u32(bytes, little_endian, entry + 8);
        if position as usize > length || count as usize > length - position as usize {
            return None;
        }
        position as usize
    };
    Some(value_is_leaf_software(&bytes[start..start + count as usize]))
}

/// Whether a directory of the chain that starts at `ifd` marks a camera RAW,
/// where `visited` directories came before it. `None` where the chain is too
/// long, or a directory cannot be read or has an implausible length.
pub open spec fn chain_marks_camera(
    bytes: Seq<u8>,
    little_endian: bool,
    ifd: int,
    visited: int,
) -> Option<bool>
    decreases TIFF_PRESCREEN_MAX_IFDS - visited,
{
    let count = u16_at(bytes, little_endian, ifd);
    let next = u32_at(bytes, little_endian, entry_at(ifd, count));
    if ifd == 0 {
        Some(false)
    } else if visited >= TIFF_PRESCREEN_MAX_IFDS {
        None
    } else if !readable(bytes, ifd, 2) || count == 0 || count > TIFF_PRESCREEN_MAX_ENTRIES_PER_IFD
        || !readable(bytes, entry_at(ifd, count), 4) {
        None
    } else if has_camera_tag(bytes, little_endian, ifd, count) {
        Some(true)
    } else {
        let leaf = match software_entry(bytes, little_endian, ifd, count) {
            Some(entry) => entry_marks_leaf(bytes, little_endian, entry),
            None => Some(false),
        };
        if leaf == Some(false) {
            chain_marks_camera(bytes, little_endian, next, visited + 1)
        } else {
            leaf
        }
    }
}

/// Whether a TIFF marks itself as a camera RAW: a directory of its chain names
/// a camera's make or model, a version of DNG, or the software of Leaf. `None`
/// where the file cannot be read as a TIFF.
pub open spec fn tiff_marks_camera(bytes: Seq<u8>) -> Option<bool> {
    if bytes.len() < 8 || !has_tiff_magic(bytes) {
        None
    } else {
        let little_endian = spells(bytes, 0, TIFF_MAGIC_LITTLE_ENDIAN@);
        chain_marks_camera(bytes, little_endian, u32_at(bytes, little_endian, 4), 0)
    }
}

/// What one directory says of the camera.
enum IfdScan {
    /// It has a camera's tag.
    Camera,
    /// It has none. Its last software entry, if it has one, begins here.
    Other(Option<usize>),
}

fn scan_ifd(bytes: &[u8], little_endian: bool, ifd: usize, count: u16) -> (r: IfdScan)
    requires
        readable(bytes@, entry_at(ifd as int, count as int), 4),
    ensures
        has_camera_tag(bytes@, little_endian, ifd as int, count as int) <==> r is Camera,
        r matches IfdScan::Other(entry) ==> match entry {
            Some(entry) => {
                &&& readable(bytes@, entry as int, 12)
                &&& software_entry(bytes@, little_endian, ifd as int, count as int) == Some(
                    entry as int,
                )
            },
            None => software_entry(bytes@, little_endian, ifd as int, count as int) is None,
        },
{
    let length: usize = bytes.len();
    let mut software: Option<usize> = None;
    let mut index: u16 = 0;
    while index < count
        invariant
            length == bytes@.len(),
            index <= count,
            readable(bytes@, entry_at(ifd as int, count as int), 4),
            forall|i: int|
                0 <= i < index ==> !is_camera_tag(
                    #[trigger] entry_tag(bytes@, little_endian, ifd as int, i),
                ),
            match software {
                Some(entry) => {
                    &&& readable(bytes@, entry as int, 12)
                    &&& software_entry(bytes@, little_endian, ifd as int, index as int) == Some(
                        entry as int,
                    )
                },
                None => software_entry(bytes@, little_endian, ifd as int, index as int) is None,
            },
        decreases count - index,
    {
        let entry: usize = ifd + 2 + 12 * index as usize;
        let tag: u16 = read_u16(bytes, little_endian, entry);
        assert(tag == entry_tag(bytes@, little_endian, ifd as int, index as int));
        if tag == TIFF_TAG_MAKE || tag == TIFF_TAG_MODEL || tag == TIFF_TAG_DNG_VERSION {
            return IfdScan::Camera;
        }
        if tag == TIFF_TAG_SOFTWARE {
            software = Some(entry);
        }
        index = index + 1;
    }
    IfdScan::Other(software)
}

/// Looks for the marks of a camera in the directories of a TIFF. `None` where
/// the file cannot be read as a TIFF.
pub fn tiff_contains_camera_raw_markers(bytes: &[u8]) -> (r: Option<bool>)
    ensures
        r == tiff_marks_camera(bytes@),
{
    let length: usize = bytes.len();
    if length < 8 {
        return None;
    }
    let little_endian = if spelled_at(bytes, 0, TIFF_MAGIC_LITTLE_ENDIAN) {
        true
    } else if spelled_at(bytes, 0, TIFF_MAGIC_BIG_ENDIAN) {
        false
    } else {
        return None;
    };
    let mut ifd: usize = read_u32(bytes, little_endian, 4) as usize;
    let mut visited: usize = 0;
    while ifd != 0
        invariant
            length == bytes@.len(),
            ifd <= u32::MAX,
            visited <= TIFF_PRESCREEN_MAX_IFDS,
            chain_marks_camera(bytes@, little_endian, ifd as int, visited as int)
                == tiff_marks_camera(bytes@),
        decreases TIFF_PRESCREEN_MAX_IFDS - visited,
    {
        if visited == TIFF_PRESCREEN_MAX_IFDS {
            return None;
        }
        if ifd > length || length - ifd < 2 {
            return None;
        }
        let count: u16 = read_u16(bytes, little_endian, ifd);
        if count == 0 || count > TIFF_PRESCREEN_MAX_ENTRIES_PER_IFD {
            return None;
        }
        if length - ifd < 2 + 12 * count as usize + 4 {
            return None;
        }
        match scan_ifd(bytes, little_endian, ifd, count) {
            IfdScan::Camera => {
                return Some(true);
            },
            IfdScan::Other(Some(entry)) => {
                let leaf = software_entry_marks_leaf(bytes, little_endian, entry);
                match leaf {
                    Some(false) => {},
                    _ => {
                        return leaf;
                    },
                }
            },
            IfdScan::Other(None) => {},
        }
        ifd = read_u32(bytes, little_endian, ifd + 2 + 12 * count as usize) as usize;
        visited = visited + 1;
    }
    Some(false)
}

/// A TIFF for the RAW decoder: one that marks itself as a camera RAW, or that
/// cannot be read.
pub open spec fn tiff_is_raw_candidate(bytes: Seq<u8>) -> bool {
    tiff_marks_camera(bytes) != Some(false)
}

/// Tells whether a TIFF is for the RAW decoder. A TIFF that cannot be read is:
/// this look at it only saves work, and never takes a file from that decoder.
pub fn tiff_looks_like_camera_raw(bytes: &[u8]) -> (b: bool)
    ensures
        b == tiff_is_raw_candidate(bytes@),
{
    match tiff_contains_camera_raw_markers(bytes) {
        Some(found) => found,
        None => true,
    }
}

// ---------------------------------------------------------------------------
// Camera RAWs
// ---------------------------------------------------------------------------

/// A file that is for the RAW decoder. Among the files with a brand these are
/// Canon's CR3.
pub open spec fn looks_like_raw(bytes: Seq<u8>) -> bool {
    if has_brand(bytes) {
        spells(bytes, 8, "crx "@)
    } else if has_tiff_magic(bytes) {
        tiff_is_raw_candidate(bytes)
    } else {
        spells_one_of(bytes, 0, RAW_MAGIC_PREFIXES@)
    }
}

/// Tells whether an image is for the RAW decoder.
pub fn bytes_look_like_raw(image_bytes: &[u8]) -> (b: bool)
    ensures
        b == looks_like_raw(image_bytes@),
{
    if image_bytes.len() >= 12 && spelled_at(image_bytes, 4, "ftyp") {
        return spelled_at(image_bytes, 8, "crx ");
    }
    if bytes_have_tiff_magic(image_bytes) {
        return tiff_looks_like_camera_raw(image_bytes);
    }
    one_spelled_at(image_bytes, 0, &RAW_MAGIC_PREFIXES)
}

/// How many bytes are read of a file to tell what it is.
pub const MAGIC_BYTES: usize = 16;

/// Tells whether a file is for the RAW decoder, from the bytes that it begins
/// with. `leading` is `None` where the file cannot be read. The rest of a file
/// is read, with `read_all`, only where it begins as a TIFF does.
pub fn file_magic_looks_like_raw<F: FnOnce() -> Option<Vec<u8>>>(
    leading: Option<&[u8]>,
    read_all: F,
) -> (b: bool)
    requires
        read_all.requires(()),
    ensures
        leading is None ==> !b,
        leading matches Some(bytes) ==> !has_tiff_magic(bytes@) ==> b == looks_like_raw(bytes@),
        leading matches Some(bytes) ==> has_tiff_magic(bytes@) ==> exists|all: Option<Vec<u8>>|
            #[trigger] read_all.ensures((), all) && b == (all matches Some(contents)
                ==> tiff_is_raw_candidate(contents@)),
{
    let bytes = match leading {
        Some(bytes) => bytes,
        None => {
            return false;
        },
    };
    if bytes_have_tiff_magic(bytes) {
        return match read_all() {
            Some(contents) => tiff_looks_like_camera_raw(contents.as_slice()),
            None => true,
        };
    }
    bytes_look_like_raw(bytes)
}

// ---------------------------------------------------------------------------
// Laws
// ---------------------------------------------------------------------------

/// The first bytes of a file tell whether it is for the RAW decoder, unless
/// they are those of a TIFF.
pub proof fn law_leading_bytes_suffice(bytes: Seq<u8>)
    requires
        !has_tiff_magic(bytes),
    ensures
        bytes.len() > MAGIC_BYTES ==> {
            let leading = bytes.subrange(0, MAGIC_BYTES as int);
            !has_tiff_magic(leading) && looks_like_raw(leading) == looks_like_raw(bytes)
        },
{
    if bytes.len() > MAGIC_BYTES {
        let leading = bytes.subrange(0, MAGIC_BYTES as int);
        reveal_strlit("II*\0");
        reveal_strlit("MM\0*");
        reveal_strlit("ftyp");
        reveal_strlit("crx ");
        lemma_spells_in_leading(bytes, 0, TIFF_MAGIC_LITTLE_ENDIAN@);
        lemma_spells_in_leading(bytes, 0, TIFF_MAGIC_BIG_ENDIAN@);
        lemma_spells_in_leading(bytes, 4, "ftyp"@);
        lemma_spells_in_leading(bytes, 8, "crx "@);
        lemma_magic_prefixes_are_short();
        assert forall|k: int| 0 <= k < RAW_MAGIC_PREFIXES@.len() implies spells(
            leading,
            0,
            #[trigger] RAW_MAGIC_PREFIXES@[k]@,
        ) == spells(bytes, 0, RAW_MAGIC_PREFIXES@[k]@) by {
            lemma_spells_in_leading(bytes, 0, RAW_MAGIC_PREFIXES@[k]@);
        }
        assert(spells_one_of(bytes, 0, RAW_MAGIC_PREFIXES@) ==> spells_one_of(
            leading,
            0,
            RAW_MAGIC_PREFIXES@,
        )) by {
            if spells_one_of(bytes, 0, RAW_MAGIC_PREFIXES@) {
                let k = choose|k: int|
                    0 <= k < RAW_MAGIC_PREFIXES@.len() && spells(
                        bytes,
                        0,
                        #[trigger] RAW_MAGIC_PREFIXES@[k]@,
                    );
                assert(spells(leading, 0, RAW_MAGIC_PREFIXES@[k]@));
            }
        }
    }
}

proof fn lemma_spells_in_leading(bytes: Seq<u8>, at: int, text: Seq<char>)
    requires
        bytes.len() > MAGIC_BYTES,
        at + text.len() <= MAGIC_BYTES,
    ensures
        spells(bytes.subrange(0, MAGIC_BYTES as int), at, text) == spells(bytes, at, text),
{
    let leading = bytes.subrange(0, MAGIC_BYTES as int);
    if at >= 0 {
        assert forall|i: int| 0 <= i < text.len() implies #[trigger] leading[at + i] == bytes[at + i] by {}
        if spells(leading, at, text) {
            assert forall|i: int| 0 <= i < text.len() implies bytes[at + i] as char
                == #[trigger] text[i] by {
                assert(leading[at + i] as char == text[i]);
            }
        }
        if spells(bytes, at, text) {
            assert forall|i: int| 0 <= i < text.len() implies leading[at + i] as char
                == #[trigger] text[i] by {
                assert(bytes[at + i] as char == text[i]);
            }
        }
    }
}

proof fn lemma_magic_prefixes_are_short()
    ensures
        forall|k: int|
            0 <= k < RAW_MAGIC_PREFIXES@.len() ==> (#[trigger] RAW_MAGIC_PREFIXES@[k]@).len() <= 8,
{
    reveal_strlit("II\x1a\0");
    reveal_strlit("IIU\0");
    reveal_strlit("IIRO");
    reveal_strlit("IIRS");
    reveal_strlit("MMOR");
    reveal_strlit("FUJIFILM");
    reveal_strlit("FOVb");
    reveal_strlit("\0MRM");
}

/// No file is both a HEIF and a camera RAW.
pub proof fn law_heif_is_no_raw(bytes: Seq<u8>)
    ensures
        !(looks_like_heif(bytes) && looks_like_raw(bytes)),
{
    if looks_like_heif(bytes) && looks_like_raw(bytes) {
        let k = choose|k: int|
            0 <= k < HEIF_BRANDS@.len() && spells(bytes, 8, #[trigger] HEIF_BRANDS@[k]@);
        lemma_heif_brands_do_not_begin_with_c();
        reveal_strlit("crx ");
        assert(bytes[8 + 0int] as char == "crx "@[0]);
        assert(bytes[8 + 0int] as char == HEIF_BRANDS@[k]@[0]);
    }
}

proof fn lemma_heif_brands_do_not_begin_with_c()
    ensures
        forall|k: int|
            0 <= k < HEIF_BRANDS@.len() ==> (#[trigger] HEIF_BRANDS@[k]@).len() == 4
                && HEIF_BRANDS@[k]@[0] != 'c',
{
    reveal_strlit("heic");
    reveal_strlit("heix");
    reveal_strlit("hevc");
    reveal_strlit("hevx");
    reveal_strlit("heim");
    reveal_strlit("heis");
    reveal_strlit("hevm");
    reveal_strlit("hevs");
    reveal_strlit("mif1");
    reveal_strlit("msf1");
}

/// The directory at `ifd` can be read, and marks no camera RAW.
pub open spec fn plain_ifd(bytes: Seq<u8>, little_endian: bool, ifd: int) -> bool {
    let count = u16_at(bytes, little_endian, ifd);
    &&& ifd != 0
    &&& readable(bytes, ifd, 2)
    &&& 0 < count <= TIFF_PRESCREEN_MAX_ENTRIES_PER_IFD
    &&& readable(bytes, entry_at(ifd, count), 4)
    &&& !has_camera_tag(bytes, little_endian, ifd, count)
    &&& software_entry(bytes, little_endian, ifd, count) matches Some(entry) ==> entry_marks_leaf(
        bytes,
        little_endian,
        entry,
    ) == Some(false)
}

/// The chain at `ifd` has `n` directories, and none of them marks a camera RAW.
pub open spec fn plain_chain(bytes: Seq<u8>, little_endian: bool, ifd: int, n: nat) -> bool
    decreases n,
{
    if n == 0 {
        ifd == 0
    } else {
        plain_ifd(bytes, little_endian, ifd) && plain_chain(
            bytes,
            little_endian,
            u32_at(bytes, little_endian, entry_at(ifd, u16_at(bytes, little_endian, ifd))),
            (n - 1) as nat,
        )
    }
}

/// A TIFF is taken from the RAW decoder if and only if its chain of directories
/// was read to its end and none of them marks a camera RAW.
pub proof fn law_only_plain_tiffs_skip_raw(bytes: Seq<u8>)
    ensures
        !tiff_is_raw_candidate(bytes) <==> {
            let little_endian = spells(bytes, 0, TIFF_MAGIC_LITTLE_ENDIAN@);
            &&& bytes.len() >= 8
            &&& has_tiff_magic(bytes)
            &&& exists|n: nat|
                n <= TIFF_PRESCREEN_MAX_IFDS && #[trigger] plain_chain(
                    bytes,
                    little_endian,
                    u32_at(bytes, little_endian, 4),
                    n,
                )
        },
{
    if bytes.len() >= 8 && has_tiff_magic(bytes) {
        let little_endian = spells(bytes, 0, TIFF_MAGIC_LITTLE_ENDIAN@);
        let first = u32_at(bytes, little_endian, 4);
        if tiff_marks_camera(bytes) == Some(false) {
            let n = lemma_unmarked_chain_is_plain(bytes, little_endian, first, 0);
            assert(plain_chain(bytes, little_endian, first, n));
        }
        if exists|n: nat|
            n <= TIFF_PRESCREEN_MAX_IFDS && #[trigger] plain_chain(
                bytes,
                little_endian,
                first,
                n,
            ) {
            let n = choose|n: nat|
                n <= TIFF_PRESCREEN_MAX_IFDS && #[trigger] plain_chain(
                    bytes,
                    little_endian,
                    first,
                    n,
                );
            lemma_plain_chain_is_unmarked(bytes, little_endian, first, 0, n);
        }
    }
}

proof fn lemma_unmarked_chain_is_plain(
    bytes: Seq<u8>,
    little_endian: bool,
    ifd: int,
    visited: int,
) -> (n: nat)
    requires
        0 <= visited <= TIFF_PRESCREEN_MAX_IFDS,
        chain_marks_camera(bytes, little_endian, ifd, visited) == Some(false),
    ensures
        n <= TIFF_PRESCREEN_MAX_IFDS - visited,
        plain_chain(bytes, little_endian, ifd, n),
    decreases TIFF_PRESCREEN_MAX_IFDS - visited,
{
    if ifd == 0 {
        0
    } else {
        let next = u32_at(
            bytes,
            little_endian,
            entry_at(ifd, u16_at(bytes, little_endian, ifd)),
        );
        1 + lemma_unmarked_chain_is_plain(bytes, little_endian, next, visited + 1)
    }
}

proof fn lemma_plain_chain_is_unmarked(
    bytes: Seq<u8>,
    little_endian: bool,
    ifd: int,
    visited: int,
    n: nat,
)
    requires
        0 <= visited,
        n <= TIFF_PRESCREEN_MAX_IFDS - visited,
        plain_chain(bytes, little_endian, ifd, n),
    ensures
        chain_marks_camera(bytes, little_endian, ifd, visited) == Some(false),
    decreases n,
{
    if n > 0 {
        let next = u32_at(
            bytes,
            little_endian,
            entry_at(ifd, u16_at(bytes, little_endian, ifd)),
        );
        lemma_plain_chain_is_unmarked(bytes, little_endian, next, visited + 1, (n - 1) as nat);
    }
}

/// The extensions of camera RAWs, in capital or small letters.
pub proof fn law_raw_extensions_are_known(extension: Seq<char>)
    ensures
        is_raw_extension(extension) <==> {
            ||| same_ignoring_ascii_case(extension, "3fr"@)
            ||| same_ignoring_ascii_case(extension, "ari"@)
            ||| same_ignoring_ascii_case(extension, "arw"@)
            ||| same_ignoring_ascii_case(extension, "cr2"@)
            ||| same_ignoring_ascii_case(extension, "cr3"@)
            ||| same_ignoring_ascii_case(extension, "crm"@)
            ||| same_ignoring_ascii_case(extension, "crw"@)
            ||| same_ignoring_ascii_case(extension, "dcr"@)
            ||| same_ignoring_ascii_case(extension, "dcs"@)
            ||| same_ignoring_ascii_case(extension, "dng"@)
            ||| same_ignoring_ascii_case(extension, "erf"@)
            ||| same_ignoring_ascii_case(extension, "fff"@)
            ||| same_ignoring_ascii_case(extension, "iiq"@)
            ||| same_ignoring_ascii_case(extension, "kdc"@)
            ||| same_ignoring_ascii_case(extension, "mef"@)
            ||| same_ignoring_ascii_case(extension, "mos"@)
            ||| same_ignoring_ascii_case(extension, "mrw"@)
            ||| same_ignoring_ascii_case(extension, "nef"@)
            ||| same_ignoring_ascii_case(extension, "nrw"@)
            ||| same_ignoring_ascii_case(extension, "orf"@)
            ||| same_ignoring_ascii_case(extension, "ori"@)
            ||| same_ignoring_ascii_case(extension, "pef"@)
            ||| same_ignoring_ascii_case(extension, "qtk"@)
            ||| same_ignoring_ascii_case(extension, "raf"@)
            ||| same_ignoring_ascii_case(extension, "raw"@)
            ||| same_ignoring_ascii_case(extension, "rw2"@)
            ||| same_ignoring_ascii_case(extension, "rwl"@)
            ||| same_ignoring_ascii_case(extension, "sr2"@)
            ||| same_ignoring_ascii_case(extension, "srf"@)
            ||| same_ignoring_ascii_case(extension, "srw"@)
            ||| same_ignoring_ascii_case(extension, "x3f"@)
        },
{
    assert(RAW_EXTENSIONS@[0]@ == "3fr"@);
    assert(RAW_EXTENSIONS@[1]@ == "ari"@);
    assert(RAW_EXTENSIONS@[2]@ == "arw"@);
    assert(RAW_EXTENSIONS@[3]@ == "cr2"@);
    assert(RAW_EXTENSIONS@[4]@ == "cr3"@);
    assert(RAW_EXTENSIONS@[5]@ == "crm"@);
    assert(RAW_EXTENSIONS@[6]@ == "crw"@);
    assert(RAW_EXTENSIONS@[7]@ == "dcr"@);
    assert(RAW_EXTENSIONS@[8]@ == "dcs"@);
    assert(RAW_EXTENSIONS@[9]@ == "dng"@);
    assert(RAW_EXTENSIONS@[10]@ == "erf"@);
    assert(RAW_EXTENSIONS@[11]@ == "fff"@);
    assert(RAW_EXTENSIONS@[12]@ == "iiq"@);
    assert(RAW_EXTENSIONS@[13]@ == "kdc"@);
    assert(RAW_EXTENSIONS@[14]@ == "mef"@);
    assert(RAW_EXTENSIONS@[15]@ == "mos"@);
    assert(RAW_EXTENSIONS@[16]@ == "mrw"@);
    assert(RAW_EXTENSIONS@[17]@ == "nef"@);
    assert(RAW_EXTENSIONS@[18]@ == "nrw"@);
    assert(RAW_EXTENSIONS@[19]@ == "orf"@);
    assert(RAW_EXTENSIONS@[20]@ == "ori"@);
    assert(RAW_EXTENSIONS@[21]@ == "pef"@);
    assert(RAW_EXTENSIONS@[22]@ == "qtk"@);
    assert(RAW_EXTENSIONS@[23]@ == "raf"@);
    assert(RAW_EXTENSIONS@[24]@ == "raw"@);
    assert(RAW_EXTENSIONS@[25]@ == "rw2"@);
    assert(RAW_EXTENSIONS@[26]@ == "rwl"@);
    assert(RAW_EXTENSIONS@[27]@ == "sr2"@);
    assert(RAW_EXTENSIONS@[28]@ == "srf"@);
    assert(RAW_EXTENSIONS@[29]@ == "srw"@);
    assert(RAW_EXTENSIONS@[30]@ == "x3f"@);
}

/// `head` stands at the beginning of a file.
pub open spec fn leads(bytes: Seq<u8>, head: Seq<u8>) -> bool {
    bytes.len() >= head.len() && bytes.take(head.len() as int) == head
}

proof fn lemma_spelled_bytes(bytes: Seq<u8>, at: int, text: Seq<char>, head: Seq<u8>)
    requires
        0 <= at,
        text.len() == head.len(),
        forall|i: int| 0 <= i < head.len() ==> #[trigger] head[i] as char == text[i],
    ensures
        spells(bytes, at, text) <==> at + head.len() <= bytes.len() && bytes.subrange(
            at,
            at + head.len(),
        ) == head,
        at == 0 ==> (spells(bytes, at, text) <==> leads(bytes, head)),
{
    if at + head.len() <= bytes.len() {
        let part = bytes.subrange(at, at + head.len());
        if spells(bytes, at, text) {
            assert forall|i: int| 0 <= i < head.len() implies part[i] == head[i] by {
                assert(bytes[at + i] as char == text[i]);
                assert(head[i] as char == text[i]);
            }
            assert(part =~= head);
        }
        if part == head {
            assert forall|i: int| 0 <= i < text.len() implies bytes[at + i] as char
                == #[trigger] text[i] by {
                assert(part[i] == bytes[at + i]);
                assert(head[i] as char == text[i]);
            }
        }
        if at == 0 {
            assert(bytes.take(head.len() as int) =~= part);
        }
    }
}

/// A file without a brand that is no TIFF is for the RAW decoder exactly where it
/// begins as a CRW, RW2, ORF, RAF, X3F or MRW does.
pub proof fn law_raw_magic_is_known(bytes: Seq<u8>)
    requires
        !has_brand(bytes),
        !has_tiff_magic(bytes),
    ensures
        looks_like_raw(bytes) <==> {
            ||| leads(bytes, seq![0x49u8, 0x49u8, 0x1au8, 0x00u8])
            ||| leads(bytes, seq![0x49u8, 0x49u8, 0x55u8, 0x00u8])
            ||| leads(bytes, seq![0x49u8, 0x49u8, 0x52u8, 0x4fu8])
            ||| leads(bytes, seq![0x49u8, 0x49u8, 0x52u8, 0x53u8])
            ||| leads(bytes, seq![0x4du8, 0x4du8, 0x4fu8, 0x52u8])
            ||| leads(bytes, seq![0x46u8, 0x55u8, 0x4au8, 0x49u8, 0x46u8, 0x49u8, 0x4cu8, 0x4du8])
            ||| leads(bytes, seq![0x46u8, 0x4fu8, 0x56u8, 0x62u8])
            ||| leads(bytes, seq![0x00u8, 0x4du8, 0x52u8, 0x4du8])
        },
{
    assert(RAW_MAGIC_PREFIXES@[0]@ == "II\x1a\0"@);
    reveal_strlit("II\x1a\0");
    lemma_spelled_bytes(bytes, 0, "II\x1a\0"@, seq![0x49u8, 0x49u8, 0x1au8, 0x00u8]);
    assert(RAW_MAGIC_PREFIXES@[1]@ == "IIU\0"@);
    reveal_strlit("IIU\0");
    lemma_spelled_bytes(bytes, 0, "IIU\0"@, seq![0x49u8, 0x49u8, 0x55u8, 0x00u8]);
    assert(RAW_MAGIC_PREFIXES@[2]@ == "IIRO"@);
    reveal_strlit("IIRO");
    lemma_spelled_bytes(bytes, 0, "IIRO"@, seq![0x49u8, 0x49u8, 0x52u8, 0x4fu8]);
    assert(RAW_MAGIC_PREFIXES@[3]@ == "IIRS"@);
    reveal_strlit("IIRS");
    lemma_spelled_bytes(bytes, 0, "IIRS"@, seq![0x49u8, 0x49u8, 0x52u8, 0x53u8]);
    assert(RAW_MAGIC_PREFIXES@[4]@ == "MMOR"@);
    reveal_strlit("MMOR");
    lemma_spelled_bytes(bytes, 0, "MMOR"@, seq![0x4du8, 0x4du8, 0x4fu8, 0x52u8]);
    assert(RAW_MAGIC_PREFIXES@[5]@ == "FUJIFILM"@);
    reveal_strlit("FUJIFILM");
    lemma_spelled_bytes(bytes, 0, "FUJIFILM"@, seq![0x46u8, 0x55u8, 0x4au8, 0x49u8, 0x46u8, 0x49u8, 0x4cu8, 0x4du8]);
    assert(RAW_MAGIC_PREFIXES@[6]@ == "FOVb"@);
    reveal_strlit("FOVb");
    lemma_spelled_bytes(bytes, 0, "FOVb"@, seq![0x46u8, 0x4fu8, 0x56u8, 0x62u8]);
    assert(RAW_MAGIC_PREFIXES@[7]@ == "\0MRM"@);
    reveal_strlit("\0MRM");
    lemma_spelled_bytes(bytes, 0, "\0MRM"@, seq![0x00u8, 0x4du8, 0x52u8, 0x4du8]);
    if spells_one_of(bytes, 0, RAW_MAGIC_PREFIXES@) {
        let k = choose|k: int|
            0 <= k < RAW_MAGIC_PREFIXES@.len() && spells(
                bytes,
                0,
                #[trigger] RAW_MAGIC_PREFIXES@[k]@,
            );
        assert(0 <= k < 8);
    }
}

/// A file is a HEIF exactly where its first box is `ftyp` and its brand is one of
/// the ten, and a file with a brand is for the RAW decoder exactly where that is
/// `crx `.
pub proof fn law_brands_are_known(bytes: Seq<u8>)
    ensures
        has_brand(bytes) <==> bytes.len() >= 12 && bytes.subrange(4, 8) == seq![
            0x66u8,
            0x74u8,
            0x79u8,
            0x70u8,
        ],
        has_brand(bytes) ==> (looks_like_raw(bytes) <==> bytes.subrange(8, 12) == seq![
            0x63u8,
            0x72u8,
            0x78u8,
            0x20u8,
        ]),
        looks_like_heif(bytes) <==> has_brand(bytes) && {
            let brand = bytes.subrange(8, 12);
            {
                ||| brand == seq![0x68u8, 0x65u8, 0x69u8, 0x63u8]
                ||| brand == seq![0x68u8, 0x65u8, 0x69u8, 0x78u8]
                ||| brand == seq![0x68u8, 0x65u8, 0x76u8, 0x63u8]
                ||| brand == seq![0x68u8, 0x65u8, 0x76u8, 0x78u8]
                ||| brand == seq![0x68u8, 0x65u8, 0x69u8, 0x6du8]
                ||| brand == seq![0x68u8, 0x65u8, 0x69u8, 0x73u8]
                ||| brand == seq![0x68u8, 0x65u8, 0x76u8, 0x6du8]
                ||| brand == seq![0x68u8, 0x65u8, 0x76u8, 0x73u8]
                ||| brand == seq![0x6du8, 0x69u8, 0x66u8, 0x31u8]
                ||| brand == seq![0x6du8, 0x73u8, 0x66u8, 0x31u8]
            }
        },
{
    reveal_strlit("ftyp");
    reveal_strlit("crx ");
    lemma_spelled_bytes(bytes, 4, "ftyp"@, seq![0x66u8, 0x74u8, 0x79u8, 0x70u8]);
    lemma_spelled_bytes(bytes, 8, "crx "@, seq![0x63u8, 0x72u8, 0x78u8, 0x20u8]);
    assert(HEIF_BRANDS@[0]@ == "heic"@);
    reveal_strlit("heic");
    lemma_spelled_bytes(bytes, 8, "heic"@, seq![0x68u8, 0x65u8, 0x69u8, 0x63u8]);
    assert(HEIF_BRANDS@[1]@ == "heix"@);
    reveal_strlit("heix");
    lemma_spelled_bytes(bytes, 8, "heix"@, seq![0x68u8, 0x65u8, 0x69u8, 0x78u8]);
    assert(HEIF_BRANDS@[2]@ == "hevc"@);
    reveal_strlit("hevc");
    lemma_spelled_bytes(bytes, 8, "hevc"@, seq![0x68u8, 0x65u8, 0x76u8, 0x63u8]);
    assert(HEIF_BRANDS@[3]@ == "hevx"@);
    reveal_strlit("hevx");
    lemma_spelled_bytes(bytes, 8, "hevx"@, seq![0x68u8, 0x65u8, 0x76u8, 0x78u8]);
    assert(HEIF_BRANDS@[4]@ == "heim"@);
    reveal_strlit("heim");
    lemma_spelled_bytes(bytes, 8, "heim"@, seq![0x68u8, 0x65u8, 0x69u8, 0x6du8]);
    assert(HEIF_BRANDS@[5]@ == "heis"@);
    reveal_strlit("heis");
    lemma_spelled_bytes(bytes, 8, "heis"@, seq![0x68u8, 0x65u8, 0x69u8, 0x73u8]);
    assert(HEIF_BRANDS@[6]@ == "hevm"@);
    reveal_strlit("hevm");
    lemma_spelled_bytes(bytes, 8, "hevm"@, seq![0x68u8, 0x65u8, 0x76u8, 0x6du8]);
    assert(HEIF_BRANDS@[7]@ == "hevs"@);
    reveal_strlit("hevs");
    lemma_spelled_bytes(bytes, 8, "hevs"@, seq![0x68u8, 0x65u8, 0x76u8, 0x73u8]);
    assert(HEIF_BRANDS@[8]@ == "mif1"@);
    reveal_strlit("mif1");
    lemma_spelled_bytes(bytes, 8, "mif1"@, seq![0x6du8, 0x69u8, 0x66u8, 0x31u8]);
    assert(HEIF_BRANDS@[9]@ == "msf1"@);
    reveal_strlit("msf1");
    lemma_spelled_bytes(bytes, 8, "msf1"@, seq![0x6du8, 0x73u8, 0x66u8, 0x31u8]);
    if spells_one_of(bytes, 8, HEIF_BRANDS@) {
        let k = choose|k: int|
            0 <= k < HEIF_BRANDS@.len() && spells(bytes, 8, #[trigger] HEIF_BRANDS@[k]@);
        assert(0 <= k < 10);
    }
}

/// A TIFF begins with `II`, 42 and 0 where the lowest byte of a number comes
/// first, and with `MM`, 0 and 42 where the highest does.
pub proof fn law_tiff_magic_is_known(bytes: Seq<u8>)
    ensures
        has_tiff_magic(bytes) <==> leads(bytes, seq![0x49u8, 0x49u8, 42u8, 0u8]) || leads(
            bytes,
            seq![0x4du8, 0x4du8, 0u8, 42u8],
        ),
        spells(bytes, 0, TIFF_MAGIC_LITTLE_ENDIAN@) <==> leads(
            bytes,
            seq![0x49u8, 0x49u8, 42u8, 0u8],
        ),
{
    reveal_strlit("II*\0");
    reveal_strlit("MM\0*");
    lemma_spelled_bytes(bytes, 0, "II*\0"@, seq![0x49u8, 0x49u8, 42u8, 0u8]);
    lemma_spelled_bytes(bytes, 0, "MM\0*"@, seq![0x4du8, 0x4du8, 0u8, 42u8]);
}

/// The same bytes in the opposite order make the same number in the opposite
/// byte order, and in the one the first byte counts least.
pub proof fn law_byte_order_of_numbers(bytes: Seq<u8>, other: Seq<u8>, at: int)
    ensures
        other[at] == bytes[at + 1] && other[at + 1] == bytes[at] ==> u16_at(bytes, true, at)
            == u16_at(other, false, at),
        other[at] == bytes[at + 3] && other[at + 1] == bytes[at + 2] && other[at + 2] == bytes[at
            + 1] && other[at + 3] == bytes[at] ==> u32_at(bytes, true, at) == u32_at(
            other,
            false,
            at,
        ),
        u16_at(bytes, true, at) == bytes[at] + 256 * bytes[at + 1],
        u32_at(bytes, true, at) == bytes[at] + 256 * bytes[at + 1] + 65_536 * bytes[at + 2]
            + 16_777_216 * bytes[at + 3],
{
}

/// The directory at `ifd` can be read: it has from 1 to 4096 entries of twelve
/// bytes, and the place of the next one behind them.
pub open spec fn sound_ifd(bytes: Seq<u8>, little_endian: bool, ifd: int) -> bool {
    &&& 0 < ifd
    &&& ifd + 2 <= bytes.len()
    &&& 1 <= u16_at(bytes, little_endian, ifd) <= 4096
    &&& ifd + 2 + 12 * u16_at(bytes, little_endian, ifd) + 4 <= bytes.len()
}

/// A directory that can be read and has an entry for the make or the model of a
/// camera or for a version of DNG marks a camera RAW, wherever that entry stands
/// in it and whatever the other entries are.
pub proof fn law_camera_entry_marks_a_raw(
    bytes: Seq<u8>,
    little_endian: bool,
    ifd: int,
    visited: int,
    entry: int,
)
    requires
        0 <= visited < 32,
        sound_ifd(bytes, little_endian, ifd),
        0 <= entry < u16_at(bytes, little_endian, ifd),
        ({
            let tag = u16_at(bytes, little_endian, ifd + 2 + 12 * entry);
            tag == 0x010f || tag == 0x0110 || tag == 0xc612
        }),
    ensures
        chain_marks_camera(bytes, little_endian, ifd, visited) == Some(true),
{
    let count = u16_at(bytes, little_endian, ifd);
    assert(is_camera_tag(entry_tag(bytes, little_endian, ifd, entry)));
    assert(has_camera_tag(bytes, little_endian, ifd, count));
}

/// A directory that can be read and has no entry for a camera, for a version of
/// DNG or for a software says nothing: the next one decides. A chain without a
/// next one marks no camera RAW.
pub proof fn law_plain_directory_passes_on(
    bytes: Seq<u8>,
    little_endian: bool,
    ifd: int,
    visited: int,
)
    requires
        0 <= visited < 32,
        sound_ifd(bytes, little_endian, ifd),
        forall|i: int|
            0 <= i < u16_at(bytes, little_endian, ifd) ==> {
                let tag = #[trigger] entry_tag(bytes, little_endian, ifd, i);
                tag != 0x010f && tag != 0x0110 && tag != 0xc612 && tag != 0x0131
            },
    ensures
        ({
            let count = u16_at(bytes, little_endian, ifd);
            let next = u32_at(bytes, little_endian, ifd + 2 + 12 * count);
            chain_marks_camera(bytes, little_endian, ifd, visited) == chain_marks_camera(
                bytes,
                little_endian,
                next,
                visited + 1,
            )
        }),
        chain_marks_camera(bytes, little_endian, 0, visited) == Some(false),
{
    let count = u16_at(bytes, little_endian, ifd);
    assert(!has_camera_tag(bytes, little_endian, ifd, count));
    lemma_no_software(bytes, little_endian, ifd, count);
}

proof fn lemma_no_software(bytes: Seq<u8>, little_endian: bool, ifd: int, count: int)
    requires
        forall|i: int|
            0 <= i < count ==> #[trigger] entry_tag(bytes, little_endian, ifd, i) != 0x0131,
    ensures
        software_entry(bytes, little_endian, ifd, count) is None,
    decreases count,
{
    if count > 0 {
        assert(entry_tag(bytes, little_endian, ifd, count - 1) != 0x0131);
        lemma_no_software(bytes, little_endian, ifd, count - 1);
    }
}

/// The entries of a directory begin behind their number, twelve bytes each, and
/// with their tag.
pub proof fn law_entries_are_twelve_bytes(
    bytes: Seq<u8>,
    little_endian: bool,
    ifd: int,
    index: int,
)
    ensures
        entry_tag(bytes, little_endian, ifd, index) == u16_at(
            bytes,
            little_endian,
            ifd + 2 + 12 * index,
        ),
{
}

/// A directory that cannot be read, and the 33rd of a chain, leave it open
/// whether the file is a camera RAW.
pub proof fn law_unreadable_directory_decides_nothing(
    bytes: Seq<u8>,
    little_endian: bool,
    ifd: int,
    visited: int,
)
    requires
        0 < ifd,
        0 <= visited,
        !sound_ifd(bytes, little_endian, ifd) || visited >= 32,
    ensures
        chain_marks_camera(bytes, little_endian, ifd, visited) is None,
{
}

/// A TIFF is walked from the directory whose place stands behind its first four
/// bytes. Where the walk leaves it open whether it is a camera RAW, the RAW
/// decoder is asked.
pub proof fn law_tiff_is_walked_from_its_first_directory(bytes: Seq<u8>)
    requires
        bytes.len() >= 8,
        has_tiff_magic(bytes),
    ensures
        ({
            let little_endian = leads(bytes, seq![0x49u8, 0x49u8, 42u8, 0u8]);
            let first = u32_at(bytes, little_endian, 4);
            let walk = chain_marks_camera(bytes, little_endian, first, 0);
            &&& tiff_marks_camera(bytes) == walk
            &&& tiff_is_raw_candidate(bytes) <==> walk == Some(true) || walk is None
        }),
        !has_brand(bytes) ==> looks_like_raw(bytes) == tiff_is_raw_candidate(bytes),
{
    law_tiff_magic_is_known(bytes);
    let little_endian = leads(bytes, seq![0x49u8, 0x49u8, 42u8, 0u8]);
    assert(little_endian == spells(bytes, 0, TIFF_MAGIC_LITTLE_ENDIAN@));
    let walk = chain_marks_camera(bytes, little_endian, u32_at(bytes, little_endian, 4), 0);
    assert(tiff_marks_camera(bytes) == walk);
    assert(walk matches Some(found) ==> walk == Some(found) && (found || !found));
}

/// What stands before the first zero byte holds none, and is followed by one or
/// by nothing.
pub proof fn law_text_ends_at_the_first_zero(bytes: Seq<u8>)
    ensures
        ({
            let text = before_nul(bytes);
            &&& text.len() <= bytes.len()
            &&& text == bytes.take(text.len() as int)
            &&& forall|i: int| 0 <= i < text.len() ==> #[trigger] text[i] != 0
            &&& text.len() < bytes.len() ==> bytes[text.len() as int] == 0
        }),
    decreases bytes.len(),
{
    if bytes.len() > 0 && bytes[0] != 0 {
        let rest = bytes.drop_first();
        law_text_ends_at_the_first_zero(rest);
        let text = before_nul(bytes);
        assert(text =~= bytes.take(text.len() as int));
        assert(text.len() < bytes.len() ==> bytes[text.len() as int] == rest[text.len() - 1]);
        assert forall|i: int| 0 <= i < text.len() implies #[trigger] text[i] != 0 by {
            if i > 0 {
                assert(text[i] == before_nul(rest)[i - 1]);
            }
        }
    } else {
        assert(before_nul(bytes) =~= bytes.take(0));
    }
}

/// A software entry marks the RAW of a Leaf camera back exactly where its value
/// is a text of up to 64 bytes that, up to its first zero byte and without outer
/// space, is `Camera Library`. Up to four bytes stand in the entry, more where it
/// says.
pub proof fn law_leaf_software_marks_a_raw(bytes: Seq<u8>, little_endian: bool, entry: int)
    ensures
        entry_marks_leaf(bytes, little_endian, entry) == Some(true) <==> {
            let length = u32_at(bytes, little_endian, entry + 4);
            let place = if length <= 4 {
                entry + 8
            } else {
                u32_at(bytes, little_endian, entry + 8)
            };
            let text = before_nul(bytes.subrange(place, place + length));
            &&& u16_at(bytes, little_endian, entry + 2) == 2
            &&& 1 <= length <= 64
            &&& length > 4 ==> 0 <= place && place + length <= bytes.len()
            &&& valid_utf8(text)
            &&& trim(decode_utf8(text)) == "Camera Library"@
        },
        entry_marks_leaf(bytes, little_endian, entry) is None ==> {
            &&& u16_at(bytes, little_endian, entry + 2) == 2
            &&& 4 < u32_at(bytes, little_endian, entry + 4) <= 64
        },
{
}

/// A directory with no camera's tag whose only software entry marks the RAW of a
/// Leaf camera back marks a camera RAW.
pub proof fn law_software_entry_is_looked_at(
    bytes: Seq<u8>,
    little_endian: bool,
    ifd: int,
    visited: int,
    entry: int,
)
    requires
        0 <= visited < 32,
        sound_ifd(bytes, little_endian, ifd),
        0 <= entry < u16_at(bytes, little_endian, ifd),
        entry_tag(bytes, little_endian, ifd, entry) == 0x0131,
        forall|i: int|
            entry < i < u16_at(bytes, little_endian, ifd) ==> #[trigger] entry_tag(
                bytes,
                little_endian,
                ifd,
                i,
            ) != 0x0131,
        entry_marks_leaf(bytes, little_endian, ifd + 2 + 12 * entry) == Some(true),
    ensures
        chain_marks_camera(bytes, little_endian, ifd, visited) == Some(true),
{
    lemma_last_software(
        bytes,
        little_endian,
        ifd,
        u16_at(bytes, little_endian, ifd),
        entry,
    );
}

proof fn lemma_last_software(
    bytes: Seq<u8>,
    little_endian: bool,
    ifd: int,
    count: int,
    entry: int,
)
    requires
        0 <= entry < count,
        entry_tag(bytes, little_endian, ifd, entry) == 0x0131,
        forall|i: int|
            entry < i < count ==> #[trigger] entry_tag(bytes, little_endian, ifd, i) != 0x0131,
    ensures
        software_entry(bytes, little_endian, ifd, count) == Some(ifd + 2 + 12 * entry),
    decreases count,
{
    if entry < count - 1 {
        assert(entry_tag(bytes, little_endian, ifd, count - 1) != 0x0131);
        lemma_last_software(bytes, little_endian, ifd, count - 1, entry);
    }
}

/// An extension is what follows the last dot of a name: no dot stands in it, and
/// a dot and at least one character stand before it.
pub proof fn law_extension_follows_the_last_dot(name: Seq<char>)
    ensures
        name_extension(name) matches Some(extension) ==> {
            let dot = name.len() - extension.len() - 1;
            &&& dot >= 1
            &&& name[dot] == '.'
            &&& extension == name.skip(dot + 1)
            &&& !extension.contains('.')
        },
        name_extension(name) is None ==> forall|i: int| 1 <= i < name.len() ==> name[i] != '.',
    decreases name.len(),
{
    if name.len() > 1 && name.last() != '.' {
        let shorter = name.drop_last();
        law_extension_follows_the_last_dot(shorter);
        match name_extension(shorter) {
            Some(extension) => {
                let dot = shorter.len() - extension.len() - 1;
                assert(extension.push(name.last()) =~= name.skip(dot + 1));
                assert(!extension.push(name.last()).contains('.')) by {
                    if extension.push(name.last()).contains('.') {
                        let i = choose|i: int|
                            0 <= i < extension.len() + 1 && extension.push(name.last())[i] == '.';
                        if i < extension.len() {
                            assert(extension[i] == '.');
                        }
                    }
                }
            },
            None => {
                assert forall|i: int| 1 <= i < name.len() implies name[i] != '.' by {
                    if i < shorter.len() {
                        assert(shorter[i] == name[i]);
                    }
                }
            },
        }
    } else if name.len() > 1 {
        assert(name.skip(name.len() as int) =~= Seq::empty());
    }
}

/// A file name is what follows the last `/` of a path, and with `\` and `:` for
/// separators too, what follows the last of these.
pub proof fn law_name_follows_the_last_separator(path: Seq<char>)
    ensures
        ({
            let name = last_segment(path);
            let at = path.len() - name.len();
            &&& at >= 0
            &&& name == path.skip(at)
            &&& !name.contains('/')
            &&& at > 0 ==> path[at - 1] == '/'
        }),
        ({
            let part = last_part(path);
            let at = path.len() - part.len();
            &&& at >= 0
            &&& part == path.skip(at)
            &&& !part.contains('/') && !part.contains('\\') && !part.contains(':')
            &&& at > 0 ==> path[at - 1] == '/' || path[at - 1] == '\\' || path[at - 1] == ':'
        }),
    decreases path.len(),
{
    if path.len() > 0 {
        let shorter = path.drop_last();
        law_name_follows_the_last_separator(shorter);
        let name = last_segment(path);
        let at = path.len() - name.len();
        assert(name =~= path.skip(at));
        assert forall|i: int| 0 <= i < name.len() implies name[i] != '/' by {
            if i < name.len() - 1 {
                assert(last_segment(shorter)[i] == name[i]);
                assert(last_segment(shorter).contains(last_segment(shorter)[i]));
            }
        }
        let part = last_part(path);
        let from = path.len() - part.len();
        assert(part =~= path.skip(from));
        assert forall|i: int| 0 <= i < part.len() implies part[i] != '/' && part[i] != '\\'
            && part[i] != ':' by {
            if i < part.len() - 1 {
                assert(last_part(shorter)[i] == part[i]);
                assert(last_part(shorter).contains(last_part(shorter)[i]));
            }
        }
    } else {
        assert(path.skip(0) =~= Seq::empty());
    }
}

} // verus!
