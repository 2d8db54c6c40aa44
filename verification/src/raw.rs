//! Camera RAW and Exif containers: where the embedded JPEG previews lie, the
//! sensor dimensions Fujifilm RAF files record, and the Exif orientation.

use vstd::prelude::*;
use vstd::string::*;
use crate::text::{decimal_digits, decimal_string, chars_of, append_chars};

verus! {

// ---------------------------------------------------------------------------
// Bytes
// ---------------------------------------------------------------------------

/// Big-endian 16-bit value at `i`.
pub open spec fn be16(b: Seq<u8>, i: int) -> int {
    b[i] * 256 + b[i + 1]
}

/// Big-endian 32-bit value at `i`.
pub open spec fn be32(b: Seq<u8>, i: int) -> int {
    b[i] * 16777216 + b[i + 1] * 65536 + b[i + 2] * 256 + b[i + 3]
}

/// Whether `b` begins with `m`.
pub open spec fn starts_with_bytes(b: Seq<u8>, m: Seq<u8>) -> bool {
    m.len() <= b.len() && b.subrange(0, m.len() as int) == m
}

/// The signature `FUJIFILM` that opens a Fujifilm RAF file.
pub open spec fn fuji_magic() -> Seq<u8> {
    seq![70u8, 85u8, 74u8, 73u8, 70u8, 73u8, 76u8, 77u8]
}

/// The bytes `Exif\0\0` that precede the TIFF block in a JPEG APP1 segment.
pub open spec fn exif_marker() -> Seq<u8> {
    seq![69u8, 120u8, 105u8, 102u8, 0u8, 0u8]
}

/// `len` bytes of `b` from `start`, when they lie inside it.
pub open spec fn slice_at(b: Seq<u8>, start: int, len: int) -> Option<Seq<u8>> {
    if 0 <= start && 0 <= len && start + len <= b.len() {
        Some(b.subrange(start, start + len))
    } else {
        None
    }
}

fn read_be16(b: &[u8], i: usize) -> (r: u16)
    requires
        i + 2 <= b.len(),
    ensures
        r == be16(b@, i as int),
{
    (b[i] as u16) * 256 + (b[i + 1] as u16)
}

fn read_be32(b: &[u8], i: usize) -> (r: u32)
    requires
        i + 4 <= b.len(),
    ensures
        r == be32(b@, i as int),
{
    (b[i] as u32) * 16777216 + (b[i + 1] as u32) * 65536 + (b[i + 2] as u32) * 256 + (b[i
        + 3] as u32)
}

fn starts_with_fuji(b: &[u8]) -> (r: bool)
    ensures
        r == starts_with_bytes(b@, fuji_magic()),
{
    if b.len() < 8 {
        return false;
    }
    let r = b[0] == 70 && b[1] == 85 && b[2] == 74 && b[3] == 73 && b[4] == 70 && b[5] == 73
        && b[6] == 76 && b[7] == 77;
    proof {
        if r {
            assert(b@.subrange(0, 8) =~= fuji_magic());
        } else {
            assert(b@.subrange(0, 8) != fuji_magic()) by {
                let s = b@.subrange(0, 8);
                if s == fuji_magic() {
                    assert(s[0] == 70 && s[1] == 85 && s[2] == 74 && s[3] == 73);
                    assert(s[4] == 70 && s[5] == 73 && s[6] == 76 && s[7] == 77);
                }
            }
        }
    }
    r
}

fn copy_range(b: &[u8], start: usize, end: usize) -> (r: Vec<u8>)
    requires
        start <= end <= b.len(),
    ensures
        r@ == b@.subrange(start as int, end as int),
{
    let mut out: Vec<u8> = Vec::new();
    let mut i: usize = start;
    while i < end
        invariant
            start <= i <= end <= b.len(),
            out@ == b@.subrange(start as int, i as int),
        decreases end - i,
    {
        out.push(b[i]);
        i = i + 1;
        assert(out@ =~= b@.subrange(start as int, i as int));
    }
    out
}

/// `slice_at` on a slice, for positions given as `usize`.
fn take_slice(b: &[u8], start: usize, len: usize) -> (r: Option<Vec<u8>>)
    ensures
        match r {
            Some(v) => slice_at(b@, start as int, len as int) == Some(v@),
            None => slice_at(b@, start as int, len as int) is None,
        },
{
    if start <= b.len() && len <= b.len() - start {
        Some(copy_range(b, start, start + len))
    } else {
        None
    }
}

// ---------------------------------------------------------------------------
// Fujifilm RAF
// ---------------------------------------------------------------------------

/// The sizes a RAF metadata container records, by tag.
pub struct FujiSizes {
    /// Tag 0x0111: the cropped output size.
    pub cropped: Option<(u32, u32)>,
    /// Tag 0x0121: the image size.
    pub image: Option<(u32, u32)>,
    /// Tag 0x0100: the full sensor size.
    pub full: Option<(u32, u32)>,
}

/// Folds the metadata records from `pos` on, at most `left` of them, into
/// `acc`. A record is a 16-bit tag, a 16-bit length and that many data
/// bytes; a size record's data begins with height and width, each 16 bits,
/// and counts only when both are positive. The scan stops at a record that
/// does not fit in the container.
pub open spec fn fuji_records(b: Seq<u8>, pos: int, left: nat, acc: FujiSizes) -> FujiSizes
    decreases left,
{
    if left == 0 || pos + 4 > b.len() {
        acc
    } else {
        let tag = be16(b, pos);
        let len = be16(b, pos + 2);
        let start = pos + 4;
        let end = start + len;
        if end > b.len() {
            acc
        } else {
            let h = be16(b, start);
            let w = be16(b, start + 2);
            let size = (w as u32, h as u32);
            let next = if len >= 4 && w > 0 && h > 0 {
                if tag == 0x0111 {
                    FujiSizes { cropped: Some(size), ..acc }
                } else if tag == 0x0121 {
                    FujiSizes { image: Some(size), ..acc }
                } else if tag == 0x0100 {
                    FujiSizes { full: Some(size), ..acc }
                } else {
                    acc
                }
            } else {
                acc
            };
            fuji_records(b, end, (left - 1) as nat, next)
        }
    }
}

/// The RAF sensor dimensions `(width, height)`: the cropped size if the
/// container records one, else the image size, else the full size. The
/// container starts with a 32-bit big-endian record count.
pub open spec fn spec_fuji_dimensions(b: Seq<u8>) -> Option<(u32, u32)> {
    if b.len() < 4 {
        None
    } else {
        let s = fuji_records(
            b,
            4,
            be32(b, 0) as nat,
            FujiSizes { cropped: None, image: None, full: None },
        );
        if s.cropped is Some {
            s.cropped
        } else if s.image is Some {
            s.image
        } else {
            s.full
        }
    }
}

/// A RAF size record: the tag, a length of 4, then height and width, each
/// big-endian 16 bits.
pub open spec fn fuji_size_record(tag: u16, h: u16, w: u16) -> Seq<u8> {
    seq![
        (tag / 256) as u8,
        (tag % 256) as u8,
        0u8,
        4u8,
        (h / 256) as u8,
        (h % 256) as u8,
        (w / 256) as u8,
        (w % 256) as u8,
    ]
}

/// A RAF metadata container holding two size records, then anything.
pub open spec fn fuji_two_records(first: Seq<u8>, second: Seq<u8>, rest: Seq<u8>) -> Seq<u8> {
    seq![0u8, 0u8, 0u8, 2u8] + first + second + rest
}

proof fn lemma_fuji_record_fields(b: Seq<u8>, pos: int, tag: u16, h: u16, w: u16)
    requires
        0 <= pos,
        pos + 8 <= b.len(),
        b.subrange(pos, pos + 8) == fuji_size_record(tag, h, w),
    ensures
        be16(b, pos) == tag as int,
        be16(b, pos + 2) == 4,
        be16(b, pos + 4) == h as int,
        be16(b, pos + 6) == w as int,
{
    let r = fuji_size_record(tag, h, w);
    assert(b[pos] == r[0] && b[pos + 1] == r[1] && b[pos + 2] == r[2] && b[pos + 3] == r[3]);
    assert(b[pos + 4] == r[4] && b[pos + 5] == r[5] && b[pos + 6] == r[6] && b[pos + 7] == r[7]);
}

/// What two size records of a container give, in terms of their tags.
proof fn lemma_fuji_two_records(t1: u16, h1: u16, w1: u16, t2: u16, h2: u16, w2: u16, rest: Seq<u8>)
    requires
        h1 > 0 && w1 > 0 && h2 > 0 && w2 > 0,
    ensures
        ({
            let b = fuji_two_records(fuji_size_record(t1, h1, w1), fuji_size_record(t2, h2, w2), rest);
            let e = FujiSizes { cropped: None, image: None, full: None };
            let one = if t1 == 0x0111 {
                FujiSizes { cropped: Some((w1 as u32, h1 as u32)), ..e }
            } else if t1 == 0x0121 {
                FujiSizes { image: Some((w1 as u32, h1 as u32)), ..e }
            } else if t1 == 0x0100 {
                FujiSizes { full: Some((w1 as u32, h1 as u32)), ..e }
            } else {
                e
            };
            let two = if t2 == 0x0111 {
                FujiSizes { cropped: Some((w2 as u32, h2 as u32)), ..one }
            } else if t2 == 0x0121 {
                FujiSizes { image: Some((w2 as u32, h2 as u32)), ..one }
            } else if t2 == 0x0100 {
                FujiSizes { full: Some((w2 as u32, h2 as u32)), ..one }
            } else {
                one
            };
            &&& b.len() >= 4
            &&& be32(b, 0) == 2
            &&& fuji_records(b, 4, 2, e) == two
        }),
{
    let b = fuji_two_records(fuji_size_record(t1, h1, w1), fuji_size_record(t2, h2, w2), rest);
    let e = FujiSizes { cropped: None, image: None, full: None };
    assert(b.subrange(4, 12) =~= fuji_size_record(t1, h1, w1));
    assert(b.subrange(12, 20) =~= fuji_size_record(t2, h2, w2));
    lemma_fuji_record_fields(b, 4, t1, h1, w1);
    lemma_fuji_record_fields(b, 12, t2, h2, w2);
    assert(b[0] == 0 && b[1] == 0 && b[2] == 0 && b[3] == 2);
    reveal_with_fuel(fuji_records, 3);
}

/// The sensor size of a RAF container is its cropped size (tag 0x0111)
/// whenever it records one, whatever image (0x0121) or full (0x0100) size
/// it records too, in either order; without a cropped size the image size
/// is taken before the full size.
pub proof fn lemma_fuji_size_priority(h1: u16, w1: u16, h2: u16, w2: u16, other: u16, rest: Seq<u8>)
    requires
        h1 > 0 && w1 > 0 && h2 > 0 && w2 > 0,
        other == 0x0121 || other == 0x0100,
    ensures
        spec_fuji_dimensions(
            fuji_two_records(fuji_size_record(0x0111, h1, w1), fuji_size_record(other, h2, w2), rest),
        ) == Some((w1 as u32, h1 as u32)),
        spec_fuji_dimensions(
            fuji_two_records(fuji_size_record(other, h2, w2), fuji_size_record(0x0111, h1, w1), rest),
        ) == Some((w1 as u32, h1 as u32)),
        spec_fuji_dimensions(
            fuji_two_records(fuji_size_record(0x0121, h1, w1), fuji_size_record(0x0100, h2, w2), rest),
        ) == Some((w1 as u32, h1 as u32)),
        spec_fuji_dimensions(
            fuji_two_records(fuji_size_record(0x0100, h2, w2), fuji_size_record(0x0121, h1, w1), rest),
        ) == Some((w1 as u32, h1 as u32)),
{
    lemma_fuji_two_records(0x0111, h1, w1, other, h2, w2, rest);
    lemma_fuji_two_records(other, h2, w2, 0x0111, h1, w1, rest);
    lemma_fuji_two_records(0x0121, h1, w1, 0x0100, h2, w2, rest);
    lemma_fuji_two_records(0x0100, h2, w2, 0x0121, h1, w1, rest);
}

fn fuji_scan(b: &[u8], count: u32) -> (r: FujiSizes)
    requires
        4 <= b.len(),
    ensures
        r == fuji_records(b@, 4, count as nat, FujiSizes { cropped: None, image: None, full: None }),
{
    let ghost target = fuji_records(
        b@,
        4,
        count as nat,
        FujiSizes { cropped: None, image: None, full: None },
    );
    let mut acc = FujiSizes { cropped: None, image: None, full: None };
    let mut pos: usize = 4;
    let mut left: u32 = count;
    while left > 0
        invariant
            pos <= b.len(),
            fuji_records(b@, pos as int, left as nat, acc) == target,
            target == fuji_records(
                b@,
                4,
                count as nat,
                FujiSizes { cropped: None, image: None, full: None },
            ),
        decreases left,
    {
        if b.len() - pos < 4 {
            return acc;
        }
        let tag = read_be16(b, pos);
        let len = read_be16(b, pos + 2) as usize;
        let start = pos + 4;
        if b.len() - start < len {
            return acc;
        }
        let end = start + len;
        if len >= 4 {
            let h = read_be16(b, start) as u32;
            let w = read_be16(b, start + 2) as u32;
            if w > 0 && h > 0 {
                if tag == 0x0111 {
                    acc = FujiSizes { cropped: Some((w, h)), ..acc };
                } else if tag == 0x0121 {
                    acc = FujiSizes { image: Some((w, h)), ..acc };
                } else if tag == 0x0100 {
                    acc = FujiSizes { full: Some((w, h)), ..acc };
                }
            }
        }
        pos = end;
        left = left - 1;
    }
    acc
}

/// The sensor dimensions `(width, height)` recorded in a Fujifilm RAF
/// metadata container (see `spec_fuji_dimensions`).
pub fn get_fuji_raf_dimensions(meta_bytes: &[u8]) -> (r: Option<(u32, u32)>)
    ensures
        r == spec_fuji_dimensions(meta_bytes@),
{
    if meta_bytes.len() < 4 {
        return None;
    }
    let count = read_be32(meta_bytes, 0);
    let s = fuji_scan(meta_bytes, count);
    if s.cropped.is_some() {
        s.cropped
    } else if s.image.is_some() {
        s.image
    } else {
        s.full
    }
}

/// The JPEG a RAF file embeds: its offset and length are 32-bit big-endian
/// values at bytes 84 and 88.
pub open spec fn fuji_embedded(b: Seq<u8>) -> Option<Seq<u8>> {
    if b.len() < 92 {
        None
    } else {
        slice_at(b, be32(b, 84), be32(b, 88))
    }
}

fn fuji_embedded_jpeg(b: &[u8]) -> (r: Option<Vec<u8>>)
    ensures
        match r {
            Some(v) => fuji_embedded(b@) == Some(v@),
            None => fuji_embedded(b@) is None,
        },
{
    if b.len() < 92 {
        return None;
    }
    let offset = read_be32(b, 84) as usize;
    let length = read_be32(b, 88) as usize;
    take_slice(b, offset, length)
}

/// Where the metadata container of a RAF file lies: when the buffer starts
/// with the RAF signature and holds its offset and length (32-bit
/// big-endian values at bytes 92 and 96).
pub open spec fn spec_fuji_meta_range(b: Seq<u8>) -> Option<(u64, u64)> {
    if starts_with_bytes(b, fuji_magic()) && b.len() >= 100 {
        Some((be32(b, 92) as u64, be32(b, 96) as u64))
    } else {
        None
    }
}

/// Offset and length of the metadata container of a RAF file, read from
/// the start of the file.
pub fn fuji_meta_range(header: &[u8]) -> (r: Option<(u64, u64)>)
    ensures
        r == spec_fuji_meta_range(header@),
{
    if starts_with_fuji(header) && header.len() >= 100 {
        Some((read_be32(header, 92) as u64, read_be32(header, 96) as u64))
    } else {
        None
    }
}

// ---------------------------------------------------------------------------
// Exif
// ---------------------------------------------------------------------------

/// A parsed Exif block.
#[verifier::external_type_specification]
#[verifier::external_body]
pub struct ExExif(exif::Exif);

/// What the logic reads of an Exif field's value.
#[derive(Clone, Debug)]
pub enum ExifValue {
    /// 16-bit unsigned integers.
    Short(Vec<u16>),
    /// 32-bit unsigned integers.
    Long(Vec<u32>),
    /// Any other type.
    Other,
}

/// The Exif tags the logic reads.
#[derive(Clone, Copy, Debug, PartialEq, Eq, Structural)]
pub enum ExifTag {
    /// Offset of an embedded JPEG, from the start of the TIFF block.
    JpegOffset,
    /// Length of an embedded JPEG.
    JpegLength,
    /// Orientation of the image.
    Orientation,
    /// Width of the image.
    ImageWidth,
    /// Height of the image.
    ImageLength,
    /// Width of the compressed image.
    PixelXDimension,
    /// Height of the compressed image.
    PixelYDimension,
}

/// The IFD of the main image.
pub const IFD_PRIMARY: u16 = 0;

/// The IFD of the thumbnail.
pub const IFD_THUMBNAIL: u16 = 1;

/// The fields an Exif block holds: each (IFD number, tag) present and its value.
pub uninterp spec fn exif_entries(e: exif::Exif) -> Map<(u16, ExifTag), ExifValue>;

/// The fields `exif::Reader::read_from_container` finds in a buffer, or
/// `None` where it fails.
pub uninterp spec fn exif_in_bytes(bytes: Seq<u8>) -> Option<Map<(u16, ExifTag), ExifValue>>;

/// `exif::Reader::read_from_container` over an in-memory buffer. It is
/// believed to depend on the buffer alone, and to yield the fields named by
/// `exif_in_bytes`.
#[verifier::external_body]
fn read_exif(bytes: &[u8]) -> (r: Option<exif::Exif>)
    ensures
        match r {
            Some(e) => exif_in_bytes(bytes@) == Some(exif_entries(e)),
            None => exif_in_bytes(bytes@) is None,
        },
{
    exif::Reader::new().read_from_container(&mut std::io::Cursor::new(bytes)).ok()
}

/// `exif::Exif::get_field` for one tag in one IFD, with the value's type
/// told apart as far as the logic needs. It is believed to look the pair up
/// in the block's fields.
#[verifier::external_body]
fn exif_get(e: &exif::Exif, ifd: u16, tag: ExifTag) -> (r: Option<ExifValue>)
    ensures
        r == field_of(exif_entries(*e), ifd, tag),
{
    let t = match tag {
        ExifTag::JpegOffset => exif::Tag::JPEGInterchangeFormat,
        ExifTag::JpegLength => exif::Tag::JPEGInterchangeFormatLength,
        ExifTag::Orientation => exif::Tag::Orientation,
        ExifTag::ImageWidth => exif::Tag::ImageWidth,
        ExifTag::ImageLength => exif::Tag::ImageLength,
        ExifTag::PixelXDimension => exif::Tag::PixelXDimension,
        ExifTag::PixelYDimension => exif::Tag::PixelYDimension,
    };
    e.get_field(t, exif::In(ifd)).map(|f| match &f.value {
        exif::Value::Short(v) => ExifValue::Short(v.clone()),
        exif::Value::Long(v) => ExifValue::Long(v.clone()),
        _ => ExifValue::Other,
    })
}

/// The value of a field, if the block holds it.
pub open spec fn field_of(m: Map<(u16, ExifTag), ExifValue>, ifd: u16, tag: ExifTag) -> Option<
    ExifValue,
> {
    if m.dom().contains((ifd, tag)) {
        Some(m[(ifd, tag)])
    } else {
        None
    }
}

/// The first integer of a 16- or 32-bit value.
pub open spec fn value_as_u32(v: ExifValue) -> Option<u32> {
    match v {
        ExifValue::Long(s) => if s@.len() > 0 {
            Some(s@[0])
        } else {
            None
        },
        ExifValue::Short(s) => if s@.len() > 0 {
            Some(s@[0] as u32)
        } else {
            None
        },
        ExifValue::Other => None,
    }
}

fn first_u32(v: &ExifValue) -> (r: Option<u32>)
    ensures
        r == value_as_u32(*v),
{
    match v {
        ExifValue::Long(s) => if s.len() > 0 {
            Some(s[0])
        } else {
            None
        },
        ExifValue::Short(s) => if s.len() > 0 {
            Some(s[0] as u32)
        } else {
            None
        },
        ExifValue::Other => None,
    }
}

/// Offset and length of the JPEG an IFD points to, when both fields are
/// present with integer values.
pub open spec fn jpeg_location(m: Map<(u16, ExifTag), ExifValue>, ifd: u16) -> Option<(u32, u32)> {
    match field_of(m, ifd, ExifTag::JpegOffset) {
        Some(o) => match field_of(m, ifd, ExifTag::JpegLength) {
            Some(l) => match value_as_u32(o) {
                Some(a) => match value_as_u32(l) {
                    Some(b) => Some((a, b)),
                    None => None,
                },
                None => None,
            },
            None => None,
        },
        None => None,
    }
}

fn jpeg_location_of(e: &exif::Exif, ifd: u16) -> (r: Option<(u32, u32)>)
    ensures
        r == jpeg_location(exif_entries(*e), ifd),
{
    let o = exif_get(e, ifd, ExifTag::JpegOffset);
    let l = exif_get(e, ifd, ExifTag::JpegLength);
    match o {
        Some(ov) => match l {
            Some(lv) => match first_u32(&ov) {
                Some(a) => match first_u32(&lv) {
                    Some(b) => Some((a, b)),
                    None => None,
                },
                None => None,
            },
            None => None,
        },
        None => None,
    }
}

/// The embedded JPEGs to try for a small thumbnail: the main image's and
/// the thumbnail's, shortest first (the main image's first on a tie).
pub open spec fn thumbnail_candidates(m: Map<(u16, ExifTag), ExifValue>) -> Seq<(u32, u32)> {
    match jpeg_location(m, IFD_PRIMARY) {
        Some(a) => match jpeg_location(m, IFD_THUMBNAIL) {
            Some(b) => if b.1 < a.1 {
                seq![b, a]
            } else {
                seq![a, b]
            },
            None => seq![a],
        },
        None => match jpeg_location(m, IFD_THUMBNAIL) {
            Some(b) => seq![b],
            None => Seq::empty(),
        },
    }
}

/// The embedded JPEG to use as the large preview: the longer of the two,
/// the main image's on a tie; the thumbnail's alone only when its length is
/// positive.
pub open spec fn preview_location(m: Map<(u16, ExifTag), ExifValue>) -> Option<(u32, u32)> {
    match jpeg_location(m, IFD_PRIMARY) {
        Some(a) => match jpeg_location(m, IFD_THUMBNAIL) {
            Some(b) => if b.1 > a.1 {
                Some(b)
            } else {
                Some(a)
            },
            None => Some(a),
        },
        None => match jpeg_location(m, IFD_THUMBNAIL) {
            Some(b) => if b.1 > 0 {
                Some(b)
            } else {
                None
            },
            None => None,
        },
    }
}

fn preview_location_of(e: &exif::Exif) -> (r: Option<(u32, u32)>)
    ensures
        r == preview_location(exif_entries(*e)),
{
    let p = jpeg_location_of(e, IFD_PRIMARY);
    let t = jpeg_location_of(e, IFD_THUMBNAIL);
    match p {
        Some(a) => match t {
            Some(b) => if b.1 > a.1 {
                Some(b)
            } else {
                Some(a)
            },
            None => Some(a),
        },
        None => match t {
            Some(b) => if b.1 > 0 {
                Some(b)
            } else {
                None
            },
            None => None,
        },
    }
}

/// Whether the buffer opens with a TIFF header (`II*\0` or `MM\0*`).
pub open spec fn is_tiff_header(b: Seq<u8>) -> bool {
    b.len() >= 4 && ((b[0] == 0x49 && b[1] == 0x49 && b[2] == 0x2A && b[3] == 0x00) || (b[0]
        == 0x4D && b[1] == 0x4D && b[2] == 0x00 && b[3] == 0x2A))
}

/// Whether the buffer opens with a TIFF header.
pub fn is_tiff(b: &[u8]) -> (r: bool)
    ensures
        r == is_tiff_header(b@),
{
    b.len() >= 4 && ((b[0] == 0x49 && b[1] == 0x49 && b[2] == 0x2A && b[3] == 0x00) || (b[0]
        == 0x4D && b[1] == 0x4D && b[2] == 0x00 && b[3] == 0x2A))
}

/// Whether the Exif marker begins at `i`.
pub open spec fn marker_at(b: Seq<u8>, i: int) -> bool {
    0 <= i && i + 6 <= b.len() && b.subrange(i, i + 6) == exif_marker()
}

/// The first position from `i` on where the Exif marker begins.
pub open spec fn marker_from(b: Seq<u8>, i: int) -> Option<int>
    decreases b.len() - i,
{
    if i < 0 || i + 6 > b.len() {
        None
    } else if marker_at(b, i) {
        Some(i)
    } else {
        marker_from(b, i + 1)
    }
}

/// Where the TIFF block starts, from which Exif offsets count: at 0 in a
/// TIFF file, else just after the first Exif marker.
pub open spec fn tiff_start(b: Seq<u8>) -> Option<int> {
    if is_tiff_header(b) {
        Some(0)
    } else {
        match marker_from(b, 0) {
            Some(i) => Some(i + 6),
            None => None,
        }
    }
}

fn is_marker_at(b: &[u8], i: usize) -> (r: bool)
    requires
        i + 6 <= b.len(),
    ensures
        r == marker_at(b@, i as int),
{
    let r = b[i] == 69 && b[i + 1] == 120 && b[i + 2] == 105 && b[i + 3] == 102 && b[i + 4] == 0
        && b[i + 5] == 0;
    proof {
        let s = b@.subrange(i as int, i + 6);
        if r {
            assert(s =~= exif_marker());
        } else if s == exif_marker() {
            assert(s[0] == 69 && s[1] == 120 && s[2] == 105 && s[3] == 102);
            assert(s[4] == 0 && s[5] == 0);
        }
    }
    r
}

fn find_tiff_start(b: &[u8]) -> (r: Option<usize>)
    ensures
        match r {
            Some(s) => tiff_start(b@) == Some(s as int),
            None => tiff_start(b@) is None,
        },
{
    if is_tiff(b) {
        return Some(0);
    }
    if b.len() < 6 {
        return None;
    }
    let last = b.len() - 6;
    let mut i: usize = 0;
    while i <= last
        invariant
            last + 6 == b.len(),
            i <= last + 1,
            !is_tiff_header(b@),
            marker_from(b@, 0) == marker_from(b@, i as int),
        decreases last + 1 - i,
    {
        if is_marker_at(b, i) {
            assert(marker_from(b@, i as int) == Some(i as int));
            return Some(i + 6);
        }
        i = i + 1;
    }
    assert(marker_from(b@, i as int) is None);
    None
}

/// The smaller embedded JPEG of a RAW, RAF or Exif-bearing file: for RAF the
/// one its header points to; otherwise the first of `thumbnail_candidates`
/// that lies inside the buffer, counted from the TIFF block.
pub open spec fn spec_jpeg_thumbnail(b: Seq<u8>) -> Option<Seq<u8>> {
    if starts_with_bytes(b, fuji_magic()) {
        fuji_embedded(b)
    } else {
        match exif_in_bytes(b) {
            None => None,
            Some(m) => match tiff_start(b) {
                None => None,
                Some(s) => first_fitting(b, s, thumbnail_candidates(m)),
            },
        }
    }
}

/// The first candidate `(offset, length)` whose bytes, from `base + offset`,
/// lie inside the buffer.
pub open spec fn first_fitting(b: Seq<u8>, base: int, c: Seq<(u32, u32)>) -> Option<Seq<u8>>
    decreases c.len(),
{
    if c.len() == 0 {
        None
    } else {
        match slice_at(b, base + c[0].0, c[0].1 as int) {
            Some(s) => Some(s),
            None => first_fitting(b, base, c.drop_first()),
        }
    }
}

/// The larger embedded JPEG of a RAW, RAF or Exif-bearing file: for RAF the
/// one its header points to; otherwise the one `preview_location` picks,
/// counted from the TIFF block, when it lies inside the buffer.
pub open spec fn spec_jpeg_preview(b: Seq<u8>) -> Option<Seq<u8>> {
    if starts_with_bytes(b, fuji_magic()) {
        fuji_embedded(b)
    } else {
        match exif_in_bytes(b) {
            None => None,
            Some(m) => match preview_location(m) {
                None => None,
                Some(loc) => match tiff_start(b) {
                    None => None,
                    Some(s) => slice_at(b, s + loc.0, loc.1 as int),
                },
            },
        }
    }
}

fn take_at(b: &[u8], base: usize, loc: (u32, u32)) -> (r: Option<Vec<u8>>)
    requires
        base <= b.len(),
    ensures
        match r {
            Some(v) => slice_at(b@, base + loc.0, loc.1 as int) == Some(v@),
            None => slice_at(b@, base + loc.0, loc.1 as int) is None,
        },
{
    let off = loc.0 as usize;
    if off > b.len() - base {
        return None;
    }
    take_slice(b, base + off, loc.1 as usize)
}

/// The smaller embedded JPEG of a file's bytes (see `spec_jpeg_thumbnail`).
pub fn extract_jpeg_thumbnail(bytes: &[u8]) -> (r: Option<Vec<u8>>)
    ensures
        match r {
            Some(v) => spec_jpeg_thumbnail(bytes@) == Some(v@),
            None => spec_jpeg_thumbnail(bytes@) is None,
        },
{
    if starts_with_fuji(bytes) {
        return fuji_embedded_jpeg(bytes);
    }
    let e = match read_exif(bytes) {
        Some(e) => e,
        None => return None,
    };
    let ghost m = exif_entries(e);
    let p = jpeg_location_of(&e, IFD_PRIMARY);
    let t = jpeg_location_of(&e, IFD_THUMBNAIL);
    let base = match find_tiff_start(bytes) {
        Some(s) => s,
        None => return None,
    };
    proof {
        if tiff_start(bytes@) == Some(0int) {
        } else {
            let i = marker_from(bytes@, 0)->0;
            lemma_marker_from_bound(bytes@, 0);
        }
    }
    let ghost c = thumbnail_candidates(m);
    proof {
        reveal_with_fuel(first_fitting, 3);
    }
    let (first, second) = match p {
        Some(a) => match t {
            Some(b) => if b.1 < a.1 {
                (Some(b), Some(a))
            } else {
                (Some(a), Some(b))
            },
            None => (Some(a), None),
        },
        None => (t, None),
    };
    match first {
        Some(loc) => {
            assert(c[0] == loc);
            match take_at(bytes, base, loc) {
                Some(v) => return Some(v),
                None => {},
            }
            match second {
                Some(loc2) => {
                    assert(c.drop_first()[0] == loc2);
                    assert(c.drop_first().drop_first().len() == 0);
                    take_at(bytes, base, loc2)
                },
                None => {
                    assert(c.drop_first().len() == 0);
                    None
                },
            }
        },
        None => {
            assert(c.len() == 0);
            None
        },
    }
}

proof fn lemma_marker_from_bound(b: Seq<u8>, i: int)
    ensures
        match marker_from(b, i) {
            Some(k) => i <= k && k + 6 <= b.len(),
            None => true,
        },
    decreases b.len() - i,
{
    if i >= 0 && i + 6 <= b.len() && !marker_at(b, i) {
        lemma_marker_from_bound(b, i + 1);
    }
}

/// The larger embedded JPEG of a file's bytes (see `spec_jpeg_preview`).
pub fn extract_jpeg_preview(bytes: &[u8]) -> (r: Option<Vec<u8>>)
    ensures
        match r {
            Some(v) => spec_jpeg_preview(bytes@) == Some(v@),
            None => spec_jpeg_preview(bytes@) is None,
        },
{
    if starts_with_fuji(bytes) {
        return fuji_embedded_jpeg(bytes);
    }
    let e = match read_exif(bytes) {
        Some(e) => e,
        None => return None,
    };
    let loc = match preview_location_of(&e) {
        Some(l) => l,
        None => return None,
    };
    let base = match find_tiff_start(bytes) {
        Some(s) => s,
        None => return None,
    };
    proof {
        lemma_marker_from_bound(bytes@, 0);
    }
    take_at(bytes, base, loc)
}

/// Whenever a file yields a preview JPEG it also yields a thumbnail, and the
/// thumbnail is never longer than the preview.
pub proof fn lemma_thumbnail_not_longer_than_preview(b: Seq<u8>)
    requires
        spec_jpeg_preview(b) is Some,
    ensures
        spec_jpeg_thumbnail(b) is Some,
        spec_jpeg_thumbnail(b)->0.len() <= spec_jpeg_preview(b)->0.len(),
{
    reveal_with_fuel(first_fitting, 3);
    if !starts_with_bytes(b, fuji_magic()) {
        let m = exif_in_bytes(b)->0;
        let base = tiff_start(b)->0;
        let loc = preview_location(m)->0;
        let p = jpeg_location(m, IFD_PRIMARY);
        let t = jpeg_location(m, IFD_THUMBNAIL);
        let c = thumbnail_candidates(m);
        assert(slice_at(b, base + loc.0, loc.1 as int) is Some);
        if p is Some && t is Some {
            let a = p->0;
            let bb = t->0;
            if bb.1 < a.1 {
                assert(c == seq![bb, a]);
                assert(c.drop_first() =~= seq![a]);
            } else {
                assert(c == seq![a, bb]);
                assert(c.drop_first() =~= seq![bb]);
            }
        } else if p is Some {
            assert(c == seq![p->0]);
        } else {
            assert(c == seq![t->0]);
        }
    }
}

/// Where to read the preview JPEG of a RAW file, given its first bytes: for
/// RAF the offset and length its header records; otherwise the location
/// `preview_location` picks, counted from the TIFF block.
pub open spec fn spec_raw_preview_range(h: Seq<u8>) -> Option<(u64, u64)> {
    if starts_with_bytes(h, fuji_magic()) {
        if h.len() < 92 {
            None
        } else {
            Some((be32(h, 84) as u64, be32(h, 88) as u64))
        }
    } else {
        match exif_in_bytes(h) {
            None => None,
            Some(m) => match preview_location(m) {
                None => None,
                Some(loc) => match tiff_start(h) {
                    None => None,
                    Some(s) => if s + loc.0 <= u64::MAX {
                        Some(((s + loc.0) as u64, loc.1 as u64))
                    } else {
                        None
                    },
                },
            },
        }
    }
}

/// Offset and length of the preview JPEG of a RAW file, found from its
/// first bytes (see `spec_raw_preview_range`).
pub fn raw_preview_range(header: &[u8]) -> (r: Option<(u64, u64)>)
    ensures
        r == spec_raw_preview_range(header@),
{
    if starts_with_fuji(header) {
        if header.len() < 92 {
            return None;
        }
        return Some((read_be32(header, 84) as u64, read_be32(header, 88) as u64));
    }
    let e = match read_exif(header) {
        Some(e) => e,
        None => return None,
    };
    let loc = match preview_location_of(&e) {
        Some(l) => l,
        None => return None,
    };
    let base = match find_tiff_start(header) {
        Some(s) => s,
        None => return None,
    };
    proof {
        lemma_marker_from_bound(header@, 0);
    }
    match (base as u64).checked_add(loc.0 as u64) {
        Some(start) => Some((start, loc.1 as u64)),
        None => None,
    }
}

// ---------------------------------------------------------------------------
// Orientation and dimensions
// ---------------------------------------------------------------------------

/// The eight Exif orientations.
#[derive(Clone, Copy, Debug, PartialEq, Eq, Structural)]
pub enum Orientation {
    NoTransforms,
    Rotate90,
    Rotate180,
    Rotate270,
    FlipHorizontal,
    FlipVertical,
    Rotate90FlipH,
    Rotate270FlipH,
}

/// The orientation an Exif orientation code stands for; codes other than
/// 2 to 8 mean no transform.
pub open spec fn spec_orientation_from_code(v: int) -> Orientation {
    if v == 2 {
        Orientation::FlipHorizontal
    } else if v == 3 {
        Orientation::Rotate180
    } else if v == 4 {
        Orientation::FlipVertical
    } else if v == 5 {
        Orientation::Rotate90FlipH
    } else if v == 6 {
        Orientation::Rotate90
    } else if v == 7 {
        Orientation::Rotate270FlipH
    } else if v == 8 {
        Orientation::Rotate270
    } else {
        Orientation::NoTransforms
    }
}

/// The orientation an Exif orientation code stands for.
pub fn orientation_from_code(v: u16) -> (r: Orientation)
    ensures
        r == spec_orientation_from_code(v as int),
{
    match v {
        2 => Orientation::FlipHorizontal,
        3 => Orientation::Rotate180,
        4 => Orientation::FlipVertical,
        5 => Orientation::Rotate90FlipH,
        6 => Orientation::Rotate90,
        7 => Orientation::Rotate270FlipH,
        8 => Orientation::Rotate270,
        _ => Orientation::NoTransforms,
    }
}

/// Whether an orientation turns the image a quarter, swapping its axes.
pub open spec fn spec_swaps_axes(o: Orientation) -> bool {
    o == Orientation::Rotate90 || o == Orientation::Rotate270 || o == Orientation::Rotate90FlipH
        || o == Orientation::Rotate270FlipH
}

/// Whether an orientation swaps the image's axes.
pub fn swaps_axes(o: Orientation) -> (r: bool)
    ensures
        r == spec_swaps_axes(o),
{
    match o {
        Orientation::Rotate90 | Orientation::Rotate270 | Orientation::Rotate90FlipH
        | Orientation::Rotate270FlipH => true,
        _ => false,
    }
}

/// Dimensions `(width, height)` as shown under an orientation.
pub fn oriented_dims(w: u32, h: u32, o: Orientation) -> (r: (u32, u32))
    ensures
        r == if spec_swaps_axes(o) {
            (h, w)
        } else {
            (w, h)
        },
{
    if swaps_axes(o) {
        (h, w)
    } else {
        (w, h)
    }
}

/// The orientation an Exif block records for the main image: its first
/// 16-bit value, no transform when absent or of another type.
pub open spec fn exif_orientation_of(m: Map<(u16, ExifTag), ExifValue>) -> Orientation {
    match field_of(m, IFD_PRIMARY, ExifTag::Orientation) {
        Some(ExifValue::Short(s)) => if s@.len() > 0 {
            spec_orientation_from_code(s@[0] as int)
        } else {
            Orientation::NoTransforms
        },
        _ => Orientation::NoTransforms,
    }
}

fn orientation_in(e: &exif::Exif) -> (r: Orientation)
    ensures
        r == exif_orientation_of(exif_entries(*e)),
{
    match exif_get(e, IFD_PRIMARY, ExifTag::Orientation) {
        Some(ExifValue::Short(s)) => if s.len() > 0 {
            orientation_from_code(s[0])
        } else {
            Orientation::NoTransforms
        },
        _ => Orientation::NoTransforms,
    }
}

/// The orientation recorded in a file's Exif block; no transform when it
/// has none.
pub open spec fn spec_exif_orientation(b: Seq<u8>) -> Orientation {
    match exif_in_bytes(b) {
        Some(m) => exif_orientation_of(m),
        None => Orientation::NoTransforms,
    }
}

/// The orientation recorded in a file's Exif block.
pub fn get_exif_orientation(bytes: &[u8]) -> (r: Orientation)
    ensures
        r == spec_exif_orientation(bytes@),
{
    match read_exif(bytes) {
        Some(e) => orientation_in(&e),
        None => Orientation::NoTransforms,
    }
}

/// One dimension of the main image: the first field present of the two
/// tags, when its value is an integer.
pub open spec fn exif_dimension(m: Map<(u16, ExifTag), ExifValue>, first: ExifTag, second: ExifTag) -> Option<u32> {
    match field_of(m, IFD_PRIMARY, first) {
        Some(v) => value_as_u32(v),
        None => match field_of(m, IFD_PRIMARY, second) {
            Some(v) => value_as_u32(v),
            None => None,
        },
    }
}

/// The dimensions `(width, height)` an Exif block records for the main image.
pub open spec fn spec_exif_dimensions(m: Map<(u16, ExifTag), ExifValue>) -> Option<(u32, u32)> {
    match exif_dimension(m, ExifTag::ImageWidth, ExifTag::PixelXDimension) {
        Some(w) => match exif_dimension(m, ExifTag::ImageLength, ExifTag::PixelYDimension) {
            Some(h) => Some((w, h)),
            None => None,
        },
        None => None,
    }
}

fn dimension_in(e: &exif::Exif, first: ExifTag, second: ExifTag) -> (r: Option<u32>)
    ensures
        r == exif_dimension(exif_entries(*e), first, second),
{
    match exif_get(e, IFD_PRIMARY, first) {
        Some(v) => first_u32(&v),
        None => match exif_get(e, IFD_PRIMARY, second) {
            Some(v) => first_u32(&v),
            None => None,
        },
    }
}

/// The dimensions an Exif block records for the main image.
pub fn get_dimensions_from_exif(e: &exif::Exif) -> (r: Option<(u32, u32)>)
    ensures
        r == spec_exif_dimensions(exif_entries(*e)),
{
    match dimension_in(e, ExifTag::ImageWidth, ExifTag::PixelXDimension) {
        Some(w) => match dimension_in(e, ExifTag::ImageLength, ExifTag::PixelYDimension) {
            Some(h) => Some((w, h)),
            None => None,
        },
        None => None,
    }
}

/// The dimensions a file's Exif block records for the main image, as shown
/// under the orientation it records.
pub open spec fn spec_exif_oriented_dimensions(b: Seq<u8>) -> Option<(u32, u32)> {
    match exif_in_bytes(b) {
        None => None,
        Some(m) => match spec_exif_dimensions(m) {
            None => None,
            Some(d) => Some(
                if spec_swaps_axes(exif_orientation_of(m)) {
                    (d.1, d.0)
                } else {
                    d
                },
            ),
        },
    }
}

/// The dimensions recorded in a file's Exif block, oriented.
pub fn exif_oriented_dimensions(bytes: &[u8]) -> (r: Option<(u32, u32)>)
    ensures
        r == spec_exif_oriented_dimensions(bytes@),
{
    let e = match read_exif(bytes) {
        Some(e) => e,
        None => return None,
    };
    match get_dimensions_from_exif(&e) {
        Some((w, h)) => {
            let o = orientation_in(&e);
            Some(oriented_dims(w, h, o))
        },
        None => None,
    }
}

/// What a file's Exif block records of its main image: the dimensions, when
/// present, and the orientation; `None` when the block does not parse.
pub open spec fn spec_exif_summary(b: Seq<u8>) -> Option<(Option<(u32, u32)>, Orientation)> {
    match exif_in_bytes(b) {
        None => None,
        Some(m) => Some((spec_exif_dimensions(m), exif_orientation_of(m))),
    }
}

/// Reads the dimensions and orientation a file's Exif block records (see
/// `spec_exif_summary`).
pub fn exif_summary(bytes: &[u8]) -> (r: Option<(Option<(u32, u32)>, Orientation)>)
    ensures
        r == spec_exif_summary(bytes@),
{
    match read_exif(bytes) {
        Some(e) => Some((get_dimensions_from_exif(&e), orientation_in(&e))),
        None => None,
    }
}

/// The largest segment a ranged read may ask for.
pub const MAX_SEGMENT_LEN: u64 = 67108864;

/// The error a ranged read of `length` bytes gives before reading anything,
/// if it asks for more than the largest segment.
pub fn segment_length_error(length: u64) -> (r: Option<String>)
    ensures
        length > MAX_SEGMENT_LEN ==> r is Some && r->0@ == "Requested read segment length "@
            + decimal_digits(length as nat) + " is too large (max 64MB)"@,
        length <= MAX_SEGMENT_LEN ==> r is None,
{
    if length > MAX_SEGMENT_LEN {
        let mut s = String::from_str("Requested read segment length ");
        let d = decimal_string(length);
        let dc = chars_of(d.as_str());
        append_chars(&mut s, dc.as_slice());
        let tail = chars_of(" is too large (max 64MB)");
        append_chars(&mut s, tail.as_slice());
        Some(s)
    } else {
        None
    }
}

} // verus!
