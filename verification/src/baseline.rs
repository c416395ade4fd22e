//! The TIFF files that are handed to the decoder.
//!
//! The decoder reads a file's first directory and trusts much of what it
//! finds there. Before a file reaches it, the directory is read here as
//! the decoder reads it, and the file is refused where the decoder is
//! known not to come back with an answer:
//!
//! - a header other than the classic one, since the counts of a BigTIFF
//!   directory are multiplied unchecked;
//! - an embedded JPEG stream, whose pixels are copied into a buffer sized
//!   by the directory;
//! - sample depths other than 8 and 16, which are refused in the end, but
//!   multiplied by the number of channels first;
//! - sizes whose sums and products leave 32 bits, or that exceed the
//!   decoder's own limit on a picture;
//! - LZW strips with a length beyond the file, for which the decoder sets
//!   a buffer of that length aside.
//!
//! Everything else goes to the decoder: strips without compression or
//! packed by LZW, PackBits or Deflate, with or without a predictor,
//! directories in any order.

use vstd::prelude::*;

verus! {

/// The largest number of pixels of a picture. The decoder's limit of
/// 256 MiB on the samples of a picture admits no more.
pub const MAX_PIXELS: u64 = 0x1000_0000;

/// The largest number of pixels in the rows of one strip, as the directory
/// gives them: four samples of each still count in 32 bits.
pub const MAX_STRIP_PIXELS: u64 = 0x3fff_ffff;

/// The tag of the image's width.
pub const IMAGE_WIDTH: u16 = 256;

/// The tag of the image's height.
pub const IMAGE_LENGTH: u16 = 257;

/// The tag of the bits that each sample takes.
pub const BITS_PER_SAMPLE: u16 = 258;

/// The tag of the compression scheme.
pub const COMPRESSION: u16 = 259;

/// The tag of the number of rows in each strip.
pub const ROWS_PER_STRIP: u16 = 278;

/// The tag of the lengths of the strips.
pub const STRIP_BYTE_COUNTS: u16 = 279;

/// The compression scheme of LZW.
pub const LZW: u16 = 5;

/// The compression scheme of an embedded JPEG stream.
pub const JPEG: u16 = 7;

/// The field type of bytes.
pub const BYTE: u16 = 1;

/// The field type of 16-bit unsigned values.
pub const SHORT: u16 = 3;

/// The field type of 32-bit unsigned values.
pub const LONG: u16 = 4;

/// The field type of fractions.
pub const RATIONAL: u16 = 5;

/// The field type of 64-bit unsigned values.
pub const LONG8: u16 = 16;

/// The 16-bit value at `at`, in the given byte order.
pub open spec fn short_at(bytes: Seq<u8>, at: int, little: bool) -> int {
    if little {
        bytes[at] + 0x100 * bytes[at + 1]
    } else {
        0x100 * bytes[at] + bytes[at + 1]
    }
}

/// The 32-bit value at `at`, in the given byte order.
pub open spec fn long_at(bytes: Seq<u8>, at: int, little: bool) -> int {
    if little {
        short_at(bytes, at, little) + 0x1_0000 * short_at(bytes, at + 2, little)
    } else {
        0x1_0000 * short_at(bytes, at, little) + short_at(bytes, at + 2, little)
    }
}

/// The 64-bit value at `at`, in the given byte order.
pub open spec fn long8_at(bytes: Seq<u8>, at: int, little: bool) -> int {
    if little {
        long_at(bytes, at, little) + 0x1_0000_0000 * long_at(bytes, at + 4, little)
    } else {
        0x1_0000_0000 * long_at(bytes, at, little) + long_at(bytes, at + 4, little)
    }
}

/// True when the file declares the byte order of Intel processors.
pub open spec fn little_endian(bytes: Seq<u8>) -> bool {
    bytes[0] == 0x49
}

/// True when `bytes` begin with the header of a classic TIFF file: the
/// byte order, twice, and the number 42 in that order.
pub open spec fn classic_header(bytes: Seq<u8>) -> bool {
    &&& bytes.len() >= 8
    &&& (bytes[0] == 0x49 && bytes[1] == 0x49) || (bytes[0] == 0x4d && bytes[1] == 0x4d)
    &&& short_at(bytes, 2, little_endian(bytes)) == 42
}

/// Where the first directory begins.
pub open spec fn directory(bytes: Seq<u8>) -> int {
    long_at(bytes, 4, little_endian(bytes))
}

/// The number of entries of the first directory.
pub open spec fn entry_count(bytes: Seq<u8>) -> int {
    short_at(bytes, directory(bytes), little_endian(bytes))
}

/// True when the first directory lies within the file, with all of its
/// entries.
pub open spec fn directory_in_bounds(bytes: Seq<u8>) -> bool {
    &&& directory(bytes) + 2 <= bytes.len()
    &&& directory(bytes) + 2 + 12 * entry_count(bytes) <= bytes.len()
}

/// Where the entry of index `k` begins.
pub open spec fn entry_at(bytes: Seq<u8>, k: int) -> int {
    directory(bytes) + 2 + 12 * k
}

/// The tag of the entry of index `k`.
pub open spec fn tag_of(bytes: Seq<u8>, k: int) -> int {
    short_at(bytes, entry_at(bytes, k), little_endian(bytes))
}

/// The field type of the entry of index `k`.
pub open spec fn kind_of(bytes: Seq<u8>, k: int) -> int {
    short_at(bytes, entry_at(bytes, k) + 2, little_endian(bytes))
}

/// The number of values of the entry of index `k`.
pub open spec fn count_of(bytes: Seq<u8>, k: int) -> int {
    long_at(bytes, entry_at(bytes, k) + 4, little_endian(bytes))
}

/// True of the field types that the decoder knows. It passes over an
/// entry of any other type.
pub open spec fn known_kind(kind: int) -> bool {
    1 <= kind <= 12 || kind == LONG8
}

/// The entry that the decoder goes by for `tag`, among the first `n`: the
/// last of them with that tag and a type that it knows.
pub open spec fn entry_for(bytes: Seq<u8>, tag: u16, n: int) -> Option<int>
    decreases n,
{
    if n <= 0 {
        None
    } else if tag_of(bytes, n - 1) == tag && known_kind(kind_of(bytes, n - 1)) {
        Some(n - 1)
    } else {
        entry_for(bytes, tag, n - 1)
    }
}

/// The bytes that a value of a `BYTE`, `SHORT` or `LONG` entry takes.
pub open spec fn width_of_kind(kind: int) -> int {
    if kind == BYTE {
        1
    } else if kind == SHORT {
        2
    } else {
        4
    }
}

/// Where the values of a `BYTE`, `SHORT` or `LONG` entry begin: in the
/// entry, where four bytes hold them all, and else where the entry points.
pub open spec fn values_at(bytes: Seq<u8>, k: int) -> int {
    if count_of(bytes, k) * width_of_kind(kind_of(bytes, k)) <= 4 {
        entry_at(bytes, k) + 8
    } else {
        long_at(bytes, entry_at(bytes, k) + 8, little_endian(bytes))
    }
}

/// True when the values of a `BYTE`, `SHORT` or `LONG` entry lie within
/// the file.
pub open spec fn values_in_bounds(bytes: Seq<u8>, k: int) -> bool {
    values_at(bytes, k) + count_of(bytes, k) * width_of_kind(kind_of(bytes, k)) <= bytes.len()
}

/// The value of index `i` of a `BYTE`, `SHORT` or `LONG` entry.
pub open spec fn value_of(bytes: Seq<u8>, k: int, i: int) -> int {
    let kind = kind_of(bytes, k);
    let at = values_at(bytes, k) + i * width_of_kind(kind);
    if kind == BYTE {
        bytes[at] as int
    } else if kind == SHORT {
        short_at(bytes, at, little_endian(bytes))
    } else {
        long_at(bytes, at, little_endian(bytes))
    }
}

/// The unsigned number that the decoder reads from the entry of index
/// `k`: the single value of a `BYTE`, `SHORT`, `LONG` or `LONG8` entry.
/// From any other entry it reads none.
pub open spec fn number_of(bytes: Seq<u8>, k: int) -> Option<int> {
    let kind = kind_of(bytes, k);
    let at = long_at(bytes, entry_at(bytes, k) + 8, little_endian(bytes));
    if count_of(bytes, k) != 1 {
        None
    } else if kind == BYTE || kind == SHORT || kind == LONG {
        Some(value_of(bytes, k, 0))
    } else if kind == LONG8 && at + 8 <= bytes.len() {
        Some(long8_at(bytes, at, little_endian(bytes)))
    } else {
        None
    }
}

/// The unsigned number that the decoder reads for `tag`.
pub open spec fn number_for(bytes: Seq<u8>, tag: u16) -> Option<int> {
    match entry_for(bytes, tag, entry_count(bytes)) {
        Some(k) => number_of(bytes, k),
        None => None,
    }
}

/// The rows of a strip that the decoder goes by: the number of the
/// directory where it reads one in 32 bits, and else the image's height.
pub open spec fn rows_of(bytes: Seq<u8>, height: int) -> int {
    match number_for(bytes, ROWS_PER_STRIP) {
        Some(rows) => if rows <= u32::MAX {
            rows
        } else {
            height
        },
        None => height,
    }
}

/// True when the sizes keep the decoder's sums and products within 32 bits
/// and the picture within the decoder's limit.
pub open spec fn sizes_within_limit(width: int, height: int, rows: int) -> bool {
    &&& width <= u32::MAX
    &&& height <= u32::MAX
    &&& width * height <= MAX_PIXELS
    &&& width * rows <= MAX_STRIP_PIXELS
    &&& rows >= 1 ==> height + rows - 1 <= u32::MAX
}

/// True when the decoder reads the width and height and they are within
/// the limit, with the rows of a strip.
pub open spec fn sizes_are_plain(bytes: Seq<u8>) -> bool {
    match (number_for(bytes, IMAGE_WIDTH), number_for(bytes, IMAGE_LENGTH)) {
        (Some(width), Some(height)) => sizes_within_limit(width, height, rows_of(bytes, height)),
        _ => false,
    }
}

/// True when every depth that the directory gives is 8 or 16, given as at
/// most four `BYTE`, `SHORT` or `LONG` values within the file.
pub open spec fn depths_are_plain(bytes: Seq<u8>) -> bool {
    match entry_for(bytes, BITS_PER_SAMPLE, entry_count(bytes)) {
        Some(k) => {
            let kind = kind_of(bytes, k);
            &&& kind == BYTE || kind == SHORT || kind == LONG
            &&& count_of(bytes, k) <= 4
            &&& values_in_bounds(bytes, k)
            &&& forall|i: int|
                0 <= i < count_of(bytes, k) ==> #[trigger] value_of(bytes, k, i) == 8 || value_of(
                    bytes,
                    k,
                    i,
                ) == 16
        },
        None => true,
    }
}

/// True when no length of a strip that the directory gives exceeds the
/// file. Only `LONG` and wider values can; the wider ones are not read.
pub open spec fn strip_lengths_are_plain(bytes: Seq<u8>) -> bool {
    match entry_for(bytes, STRIP_BYTE_COUNTS, entry_count(bytes)) {
        Some(k) => {
            let kind = kind_of(bytes, k);
            &&& kind != RATIONAL
            &&& kind != LONG8
            &&& kind == LONG ==> values_in_bounds(bytes, k) && forall|i: int|
                0 <= i < count_of(bytes, k) ==> #[trigger] value_of(bytes, k, i) <= bytes.len()
        },
        None => true,
    }
}

/// The profile of the files that are handed to the decoder.
pub open spec fn plain_tiff(bytes: Seq<u8>) -> bool {
    &&& classic_header(bytes)
    &&& directory_in_bounds(bytes)
    &&& sizes_are_plain(bytes)
    &&& depths_are_plain(bytes)
    &&& number_for(bytes, COMPRESSION) != Some(JPEG as int)
    &&& number_for(bytes, COMPRESSION) == Some(LZW as int) ==> strip_lengths_are_plain(bytes)
}

/// Reads the 16-bit value at `at`.
fn read_short(bytes: &[u8], at: usize, little: bool) -> (v: u16)
    requires
        at + 2 <= bytes@.len(),
    ensures
        v == short_at(bytes@, at as int, little),
{
    let a: u16 = bytes[at] as u16;
    let b: u16 = bytes[at + 1] as u16;
    if little {
        a + 0x100 * b
    } else {
        0x100 * a + b
    }
}

/// Reads the 32-bit value at `at`.
fn read_long(bytes: &[u8], at: usize, little: bool) -> (v: u32)
    requires
        at + 4 <= bytes@.len(),
    ensures
        v == long_at(bytes@, at as int, little),
{
    let _ = bytes.len();
    let a: u32 = read_short(bytes, at, little) as u32;
    let b: u32 = read_short(bytes, at + 2, little) as u32;
    if little {
        a + 0x1_0000 * b
    } else {
        0x1_0000 * a + b
    }
}

/// Reads the 64-bit value at `at`.
fn read_long8(bytes: &[u8], at: usize, little: bool) -> (v: u64)
    requires
        at + 8 <= bytes@.len(),
    ensures
        v == long8_at(bytes@, at as int, little),
{
    let _ = bytes.len();
    let a: u64 = read_long(bytes, at, little) as u64;
    let b: u64 = read_long(bytes, at + 4, little) as u64;
    if little {
        a + 0x1_0000_0000 * b
    } else {
        0x1_0000_0000 * a + b
    }
}

/// A directory that was found within its file.
struct Layout {
    little: bool,
    first: usize,
    entries: u16,
}

impl Layout {
    /// True when the layout is that of `bytes`.
    spec fn is_of(self, bytes: Seq<u8>) -> bool {
        &&& classic_header(bytes)
        &&& directory_in_bounds(bytes)
        &&& self.little == little_endian(bytes)
        &&& self.first == directory(bytes)
        &&& self.entries == entry_count(bytes)
    }
}

/// Finds the first directory of a classic file.
fn layout_of(bytes: &[u8]) -> (r: Option<Layout>)
    ensures
        match r {
            Some(layout) => layout.is_of(bytes@),
            None => !(classic_header(bytes@) && directory_in_bounds(bytes@)),
        },
{
    if bytes.len() < 8 {
        return None;
    }
    let little = bytes[0] == 0x49;
    if !((bytes[0] == 0x49 && bytes[1] == 0x49) || (bytes[0] == 0x4d && bytes[1] == 0x4d)) {
        return None;
    }
    if read_short(bytes, 2, little) != 42 {
        return None;
    }
    let start: u64 = read_long(bytes, 4, little) as u64;
    let len: u64 = bytes.len() as u64;
    if start + 2 > len {
        return None;
    }
    let first: usize = start as usize;
    let entries: u16 = read_short(bytes, first, little);
    if start + 2 + 12 * (entries as u64) > len {
        return None;
    }
    Some(Layout { little, first, entries })
}

/// Where the entry of index `k` begins.
fn entry_position(bytes: &[u8], layout: &Layout, k: u16) -> (at: usize)
    requires
        layout.is_of(bytes@),
        k < layout.entries,
    ensures
        at == entry_at(bytes@, k as int),
        at + 12 <= bytes@.len(),
        bytes@.len() <= usize::MAX,
{
    let _ = bytes.len();
    layout.first + 2 + 12 * (k as usize)
}

/// The index that an exec value stands for.
spec fn as_index(entry: Option<u16>) -> Option<int> {
    match entry {
        Some(k) => Some(k as int),
        None => None,
    }
}

/// Finds the entry that the decoder goes by for `tag`.
fn find_entry(bytes: &[u8], layout: &Layout, tag: u16) -> (r: Option<u16>)
    requires
        layout.is_of(bytes@),
    ensures
        as_index(r) == entry_for(bytes@, tag, entry_count(bytes@)),
        r matches Some(k) ==> k < layout.entries,
{
    let mut found: Option<u16> = None;
    let mut k: u16 = 0;
    while k < layout.entries
        invariant
            k <= layout.entries,
            layout.is_of(bytes@),
            as_index(found) == entry_for(bytes@, tag, k as int),
            found matches Some(j) ==> j < layout.entries,
        decreases layout.entries - k,
    {
        let at: usize = entry_position(bytes, layout, k);
        let kind = read_short(bytes, at + 2, layout.little);
        if read_short(bytes, at, layout.little) == tag && ((1 <= kind && kind <= 12) || kind
            == LONG8) {
            found = Some(k);
        }
        k += 1;
    }
    found
}

/// The number that an exec value stands for.
spec fn as_number(value: Option<u64>) -> Option<int> {
    match value {
        Some(v) => Some(v as int),
        None => None,
    }
}

/// Reads the unsigned number of an entry.
fn read_number(bytes: &[u8], layout: &Layout, k: u16) -> (r: Option<u64>)
    requires
        layout.is_of(bytes@),
        k < layout.entries,
    ensures
        as_number(r) == number_of(bytes@, k as int),
{
    let at: usize = entry_position(bytes, layout, k);
    let kind = read_short(bytes, at + 2, layout.little);
    let count = read_long(bytes, at + 4, layout.little);
    if count != 1 {
        None
    } else if kind == BYTE {
        Some(bytes[at + 8] as u64)
    } else if kind == SHORT {
        Some(read_short(bytes, at + 8, layout.little) as u64)
    } else if kind == LONG {
        Some(read_long(bytes, at + 8, layout.little) as u64)
    } else if kind == LONG8 {
        let target: u64 = read_long(bytes, at + 8, layout.little) as u64;
        if target + 8 <= bytes.len() as u64 {
            Some(read_long8(bytes, target as usize, layout.little))
        } else {
            None
        }
    } else {
        None
    }
}

/// Reads the unsigned number that the decoder reads for `tag`.
fn read_number_for(bytes: &[u8], layout: &Layout, tag: u16) -> (r: Option<u64>)
    requires
        layout.is_of(bytes@),
    ensures
        as_number(r) == number_for(bytes@, tag),
{
    match find_entry(bytes, layout, tag) {
        Some(k) => read_number(bytes, layout, k),
        None => None,
    }
}

/// Tells whether the sizes are within the limit.
fn check_sizes(bytes: &[u8], layout: &Layout) -> (r: bool)
    requires
        layout.is_of(bytes@),
    ensures
        r == sizes_are_plain(bytes@),
{
    let width = read_number_for(bytes, layout, IMAGE_WIDTH);
    let height = read_number_for(bytes, layout, IMAGE_LENGTH);
    let given = read_number_for(bytes, layout, ROWS_PER_STRIP);
    match (width, height) {
        (Some(w), Some(h)) => {
            if w > 0xffff_ffff || h > 0xffff_ffff {
                return false;
            }
            let rows: u64 = match given {
                Some(rows) => if rows <= 0xffff_ffff {
                    rows
                } else {
                    h
                },
                None => h,
            };
            assert(w * h <= 0xffff_ffff * 0xffff_ffff && w * rows <= 0xffff_ffff * 0xffff_ffff)
                by (nonlinear_arith)
                requires
                    w <= 0xffff_ffff,
                    h <= 0xffff_ffff,
                    rows <= 0xffff_ffff,
            ;
            w * h <= MAX_PIXELS && w * rows <= MAX_STRIP_PIXELS && (rows < 1 || h + rows - 1
                <= 0xffff_ffff)
        },
        _ => false,
    }
}

/// Where the values of an entry lie, if they lie within the file.
fn values_within(bytes: &[u8], layout: &Layout, k: u16) -> (r: Option<usize>)
    requires
        layout.is_of(bytes@),
        k < layout.entries,
        kind_of(bytes@, k as int) == BYTE || kind_of(bytes@, k as int) == SHORT || kind_of(
            bytes@,
            k as int,
        ) == LONG,
    ensures
        match r {
            Some(at) => values_in_bounds(bytes@, k as int) && at == values_at(bytes@, k as int),
            None => !values_in_bounds(bytes@, k as int),
        },
{
    let at: usize = entry_position(bytes, layout, k);
    let kind = read_short(bytes, at + 2, layout.little);
    let count: u64 = read_long(bytes, at + 4, layout.little) as u64;
    let width: u64 = if kind == BYTE {
        1
    } else if kind == SHORT {
        2
    } else {
        4
    };
    let start: u64 = if count * width <= 4 {
        (at + 8) as u64
    } else {
        read_long(bytes, at + 8, layout.little) as u64
    };
    if start + count * width <= bytes.len() as u64 {
        Some(start as usize)
    } else {
        None
    }
}

/// Reads the value of index `i` of an entry.
fn read_value(bytes: &[u8], layout: &Layout, k: u16, start: usize, i: u32) -> (v: u32)
    requires
        layout.is_of(bytes@),
        k < layout.entries,
        kind_of(bytes@, k as int) == BYTE || kind_of(bytes@, k as int) == SHORT || kind_of(
            bytes@,
            k as int,
        ) == LONG,
        values_in_bounds(bytes@, k as int),
        start == values_at(bytes@, k as int),
        i < count_of(bytes@, k as int),
    ensures
        v == value_of(bytes@, k as int, i as int),
{
    let at: usize = entry_position(bytes, layout, k);
    let kind = read_short(bytes, at + 2, layout.little);
    assert(i * width_of_kind(kind as int) + width_of_kind(kind as int) <= count_of(bytes@, k as int)
        * width_of_kind(kind as int)) by (nonlinear_arith)
        requires
            0 <= i < count_of(bytes@, k as int),
            1 <= width_of_kind(kind as int),
    ;
    if kind == BYTE {
        bytes[start + i as usize] as u32
    } else if kind == SHORT {
        read_short(bytes, start + 2 * (i as usize), layout.little) as u32
    } else {
        read_long(bytes, start + 4 * (i as usize), layout.little)
    }
}

/// Tells whether the depths are 8 or 16.
fn check_depths(bytes: &[u8], layout: &Layout) -> (r: bool)
    requires
        layout.is_of(bytes@),
    ensures
        r == depths_are_plain(bytes@),
{
    let k = match find_entry(bytes, layout, BITS_PER_SAMPLE) {
        Some(k) => k,
        None => {
            return true;
        },
    };
    let at: usize = entry_position(bytes, layout, k);
    let kind = read_short(bytes, at + 2, layout.little);
    let count = read_long(bytes, at + 4, layout.little);
    if !(kind == BYTE || kind == SHORT || kind == LONG) || count > 4 {
        return false;
    }
    let start = match values_within(bytes, layout, k) {
        Some(start) => start,
        None => {
            return false;
        },
    };
    let mut i: u32 = 0;
    while i < count
        invariant
            i <= count,
            layout.is_of(bytes@),
            k < layout.entries,
            kind_of(bytes@, k as int) == BYTE || kind_of(bytes@, k as int) == SHORT || kind_of(
                bytes@,
                k as int,
            ) == LONG,
            values_in_bounds(bytes@, k as int),
            start == values_at(bytes@, k as int),
            count == count_of(bytes@, k as int),
            count <= 4,
            entry_for(bytes@, BITS_PER_SAMPLE, entry_count(bytes@)) == Some(k as int),
            forall|j: int|
                0 <= j < i ==> #[trigger] value_of(bytes@, k as int, j) == 8 || value_of(
                    bytes@,
                    k as int,
                    j,
                ) == 16,
        decreases count - i,
    {
        let depth = read_value(bytes, layout, k, start, i);
        if depth != 8 && depth != 16 {
            assert(value_of(bytes@, k as int, i as int) != 8);
            return false;
        }
        i += 1;
    }
    true
}

/// Tells whether the lengths of the strips are within the file.
fn check_strip_lengths(bytes: &[u8], layout: &Layout) -> (r: bool)
    requires
        layout.is_of(bytes@),
    ensures
        r == strip_lengths_are_plain(bytes@),
{
    let k = match find_entry(bytes, layout, STRIP_BYTE_COUNTS) {
        Some(k) => k,
        None => {
            return true;
        },
    };
    let at: usize = entry_position(bytes, layout, k);
    let kind = read_short(bytes, at + 2, layout.little);
    let count = read_long(bytes, at + 4, layout.little);
    if kind == RATIONAL || kind == LONG8 {
        return false;
    }
    if kind != LONG {
        return true;
    }
    let start = match values_within(bytes, layout, k) {
        Some(start) => start,
        None => {
            return false;
        },
    };
    let mut i: u32 = 0;
    while i < count
        invariant
            i <= count,
            layout.is_of(bytes@),
            k < layout.entries,
            kind_of(bytes@, k as int) == LONG,
            values_in_bounds(bytes@, k as int),
            start == values_at(bytes@, k as int),
            count == count_of(bytes@, k as int),
            entry_for(bytes@, STRIP_BYTE_COUNTS, entry_count(bytes@)) == Some(k as int),
            forall|j: int| 0 <= j < i ==> #[trigger] value_of(bytes@, k as int, j) <= bytes@.len(),
        decreases count - i,
    {
        let length = read_value(bytes, layout, k, start, i);
        if length as u64 > bytes.len() as u64 {
            assert(value_of(bytes@, k as int, i as int) > bytes@.len());
            return false;
        }
        i += 1;
    }
    true
}

/// Tells whether a file keeps to the profile.
pub fn is_plain_tiff(bytes: &[u8]) -> (r: bool)
    ensures
        r == plain_tiff(bytes@),
{
    let layout = match layout_of(bytes) {
        Some(layout) => layout,
        None => {
            return false;
        },
    };
    if !check_sizes(bytes, &layout) || !check_depths(bytes, &layout) {
        return false;
    }
    match read_number_for(bytes, &layout, COMPRESSION) {
        Some(scheme) => if scheme == JPEG as u64 {
            false
        } else if scheme == LZW as u64 {
            check_strip_lengths(bytes, &layout)
        } else {
            true
        },
        None => true,
    }
}

} // verus!
