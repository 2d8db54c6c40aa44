//! Decoding image bytes into RGBA pixels: which decoder runs, the embedded
//! previews of RAW and TIFF containers, and the Exif orientation applied to
//! the pixels.

use vstd::prelude::*;
use crate::raw::{
    Orientation, spec_exif_orientation, get_exif_orientation, spec_orientation_from_code,
    orientation_from_code, spec_swaps_axes, swaps_axes, spec_jpeg_preview, extract_jpeg_preview,
    spec_jpeg_thumbnail, extract_jpeg_thumbnail, spec_exif_summary, exif_summary, is_tiff_header,
    is_tiff,
};
use crate::source::{guessed_format, guess_format, HeaderFormat, spec_wants_embedded_preview, wants_embedded_preview};
use crate::text::{chars_of, append_chars};

verus! {

/// An image as rows of RGBA pixels, four bytes each, top row first.
pub struct Rgba {
    pub width: u32,
    pub height: u32,
    pub pixels: Vec<u8>,
}

impl View for Rgba {
    type V = (u32, u32, Seq<u8>);

    open spec fn view(&self) -> (u32, u32, Seq<u8>) {
        (self.width, self.height, self.pixels@)
    }
}

/// The buffer holds at least every pixel of the image.
pub open spec fn holds_pixels(v: (u32, u32, Seq<u8>)) -> bool {
    v.2.len() >= v.0 * v.1 * 4
}

// ---------------------------------------------------------------------------
// Orientation
// ---------------------------------------------------------------------------

/// The size of an image of `w` by `h` pixels once oriented.
pub open spec fn oriented_size(o: Orientation, w: u32, h: u32) -> (u32, u32) {
    if spec_swaps_axes(o) {
        (h, w)
    } else {
        (w, h)
    }
}

/// The pixel of the source image shown at `(x, y)` of the oriented image.
pub open spec fn source_xy(o: Orientation, w: int, h: int, x: int, y: int) -> (int, int) {
    match o {
        Orientation::NoTransforms => (x, y),
        Orientation::Rotate90 => (y, h - 1 - x),
        Orientation::Rotate180 => (w - 1 - x, h - 1 - y),
        Orientation::Rotate270 => (w - 1 - y, x),
        Orientation::FlipHorizontal => (w - 1 - x, y),
        Orientation::FlipVertical => (x, h - 1 - y),
        Orientation::Rotate90FlipH => (y, x),
        Orientation::Rotate270FlipH => (w - 1 - y, h - 1 - x),
    }
}

/// The byte of the source image that byte `i` of the oriented image (of
/// width `ow`) copies.
pub open spec fn source_byte(o: Orientation, w: int, h: int, ow: int, i: int) -> int {
    let p = i / 4;
    let s = source_xy(o, w, h, p % ow, p / ow);
    (s.1 * w + s.0) * 4 + i % 4
}

/// An image turned and flipped as an orientation says: every pixel of the
/// result is the source pixel that `source_xy` names.
pub open spec fn spec_orient(v: (u32, u32, Seq<u8>), o: Orientation) -> (u32, u32, Seq<u8>) {
    let ow = oriented_size(o, v.0, v.1).0;
    let oh = oriented_size(o, v.0, v.1).1;
    (ow, oh, Seq::new((ow * oh * 4) as nat, |i: int| v.2[source_byte(o, v.0 as int, v.1 as int, ow as int, i)]))
}

fn source_xy_exec(o: Orientation, w: u32, h: u32, x: u32, y: u32) -> (r: (u32, u32))
    requires
        x < oriented_size(o, w, h).0,
        y < oriented_size(o, w, h).1,
    ensures
        (r.0 as int, r.1 as int) == source_xy(o, w as int, h as int, x as int, y as int),
        r.0 < w,
        r.1 < h,
{
    match o {
        Orientation::NoTransforms => (x, y),
        Orientation::Rotate90 => (y, h - 1 - x),
        Orientation::Rotate180 => (w - 1 - x, h - 1 - y),
        Orientation::Rotate270 => (w - 1 - y, x),
        Orientation::FlipHorizontal => (w - 1 - x, y),
        Orientation::FlipVertical => (x, h - 1 - y),
        Orientation::Rotate90FlipH => (y, x),
        Orientation::Rotate270FlipH => (w - 1 - y, h - 1 - x),
    }
}

proof fn lemma_pixel_in_range(p: int, ow: int, oh: int)
    requires
        0 <= p < ow * oh,
        ow > 0,
    ensures
        0 <= p % ow < ow,
        0 <= p / ow < oh,
{
    assert(0 <= p / ow < oh) by (nonlinear_arith)
        requires
            0 <= p < ow * oh,
            ow > 0,
    ;
}

proof fn lemma_byte_in_range(x: int, y: int, w: int, h: int, c: int)
    requires
        0 <= x < w,
        0 <= y < h,
        0 <= c < 4,
    ensures
        0 <= y * w,
        y * w + x < w * h,
        (y * w + x) * 4 + c < w * h * 4,
{
    assert(0 <= y * w && y * w + x < w * h) by (nonlinear_arith)
        requires
            0 <= x < w,
            0 <= y < h,
    ;
}

/// Turns and flips an image as an orientation says (see `spec_orient`).
pub fn orient(p: Rgba, o: Orientation) -> (r: Rgba)
    requires
        holds_pixels(p@),
    ensures
        r@ == spec_orient(p@, o),
        r.pixels@.len() == r.width * r.height * 4,
{
    let w = p.width;
    let h = p.height;
    let (ow, oh) = if swaps_axes(o) {
        (h, w)
    } else {
        (w, h)
    };
    let len = p.pixels.len();
    proof {
        assert(ow * oh == w * h) by (nonlinear_arith)
            requires
                (ow == w && oh == h) || (ow == h && oh == w),
        ;
        assert(0 <= ow * oh <= ow * oh * 4 <= len) by (nonlinear_arith)
            requires
                ow * oh * 4 <= len,
                0 <= ow,
                0 <= oh,
        ;
    }
    let n: usize = (ow as usize) * (oh as usize) * 4;
    let mut out: Vec<u8> = Vec::new();
    let mut i: usize = 0;
    while i < n
        invariant
            n == ow * oh * 4,
            (ow, oh) == oriented_size(o, w, h),
            w == p.width,
            h == p.height,
            p.pixels@.len() >= w * h * 4,
            ow * oh == w * h,
            i <= n,
            out@.len() == i,
            forall|k: int|
                0 <= k < i ==> #[trigger] out@[k] == p.pixels@[source_byte(o, w as int, h as int, ow as int, k)],
        decreases n - i,
    {
        let q = i / 4;
        let c = i % 4;
        proof {
            assert(ow > 0) by (nonlinear_arith)
                requires
                    i < n,
                    n == ow * oh * 4,
            ;
            lemma_pixel_in_range(q as int, ow as int, oh as int);
        }
        let x = (q % (ow as usize)) as u32;
        let y = (q / (ow as usize)) as u32;
        let (sx, sy) = source_xy_exec(o, w, h, x, y);
        proof {
            lemma_byte_in_range(sx as int, sy as int, w as int, h as int, c as int);
        }
        let idx = ((sy as usize) * (w as usize) + sx as usize) * 4 + c;
        out.push(p.pixels[idx]);
        i = i + 1;
    }
    let r = Rgba { width: ow, height: oh, pixels: out };
    assert(r.pixels@ =~= spec_orient(p@, o).2);
    r
}

// ---------------------------------------------------------------------------
// Decoders
// ---------------------------------------------------------------------------

/// The width, height and RGBA pixels zune-jpeg decodes from a JPEG buffer
/// when asked for RGBA output; `None` where decoding fails.
pub uninterp spec fn jpeg_rgba(bytes: Seq<u8>) -> Option<(u32, u32, Seq<u8>)>;

/// `zune_jpeg::JpegDecoder::decode` with RGBA output, its pixels taken into
/// an `image::RgbaImage` of the size the decoder reports (whose buffer holds
/// every pixel). It is believed to depend on the bytes alone.
#[verifier::external_body]
fn decode_jpeg_rgba(bytes: &[u8]) -> (r: Option<Rgba>)
    ensures
        match r {
            Some(p) => jpeg_rgba(bytes@) == Some(p@) && holds_pixels(p@),
            None => jpeg_rgba(bytes@) is None,
        },
{
    let options = zune_jpeg::zune_core::options::DecoderOptions::default()
        .jpeg_set_out_colorspace(zune_jpeg::zune_core::colorspace::ColorSpace::RGBA);
    let mut decoder = zune_jpeg::JpegDecoder::new_with_options(bytes, options);
    let pixels = decoder.decode().ok()?;
    let info = decoder.info()?;
    let img = image::RgbaImage::from_raw(info.width as u32, info.height as u32, pixels)?;
    Some(Rgba { width: img.width(), height: img.height(), pixels: img.into_raw() })
}

/// The step at which the `image` crate's decoder stopped.
#[derive(Debug, Clone, Copy, PartialEq, Eq, Structural)]
pub enum DecodeStage {
    /// Guessing the format from the content.
    Format,
    /// Reading the header.
    Header,
    /// Decoding the pixels.
    Pixels,
}

/// What the `image` crate decodes from a buffer, its format guessed from the
/// content: width, height, RGBA pixels and the Exif orientation code its
/// decoder reports (`None` where it reports none); or the step that failed
/// and the error's text.
pub uninterp spec fn image_rgba(bytes: Seq<u8>) -> Result<(u32, u32, Seq<u8>, Option<u8>), (DecodeStage, Seq<char>)>;

/// `image::ImageReader::with_guessed_format`, `into_decoder`, the decoder's
/// `orientation`, then `DynamicImage::from_decoder` and `into_rgba8` (whose
/// buffer holds every pixel). It is believed to depend on the bytes alone.
#[verifier::external_body]
fn decode_any_rgba(bytes: &[u8]) -> (r: Result<(Rgba, Option<u8>), (DecodeStage, String)>)
    ensures
        match r {
            Ok(d) => image_rgba(bytes@) == Ok::<_, (DecodeStage, Seq<char>)>((d.0.width, d.0.height, d.0.pixels@, d.1)) && holds_pixels(d.0@),
            Err(e) => image_rgba(bytes@) == Err::<(u32, u32, Seq<u8>, Option<u8>), _>((e.0, e.1@)),
        },
{
    let reader = match image::ImageReader::new(std::io::Cursor::new(bytes)).with_guessed_format() {
        Ok(r) => r,
        Err(e) => return Err((DecodeStage::Format, e.to_string())),
    };
    let mut decoder = match reader.into_decoder() {
        Ok(d) => d,
        Err(e) => return Err((DecodeStage::Header, e.to_string())),
    };
    let code = image::ImageDecoder::orientation(&mut decoder).ok().map(image::metadata::Orientation::to_exif);
    match image::DynamicImage::from_decoder(decoder) {
        Ok(img) => Ok((Rgba { width: img.width(), height: img.height(), pixels: img.into_rgba8().into_raw() }, code)),
        Err(e) => Err((DecodeStage::Pixels, e.to_string())),
    }
}

/// The width, height and Exif orientation code that the `image` crate's
/// decoder reports for a buffer without decoding its pixels; `None` where
/// the format is not recognised or the header does not read.
pub uninterp spec fn image_header(bytes: Seq<u8>) -> Option<(u32, u32, Option<u8>)>;

/// `image::ImageReader::with_guessed_format`, `into_decoder`, then the
/// decoder's `orientation` and `dimensions`. It is believed to depend on the
/// bytes alone.
#[verifier::external_body]
fn read_image_header(bytes: &[u8]) -> (r: Option<(u32, u32, Option<u8>)>)
    ensures
        r == image_header(bytes@),
{
    let reader = image::ImageReader::new(std::io::Cursor::new(bytes)).with_guessed_format().ok()?;
    let mut decoder = reader.into_decoder().ok()?;
    let code = image::ImageDecoder::orientation(&mut decoder).ok().map(image::metadata::Orientation::to_exif);
    let (w, h) = image::ImageDecoder::dimensions(&decoder);
    Some((w, h, code))
}

/// The orientation an Exif code reported by a decoder stands for; none when
/// it reports none.
pub open spec fn code_orientation(code: Option<u8>) -> Orientation {
    match code {
        Some(c) => spec_orientation_from_code(c as int),
        None => Orientation::NoTransforms,
    }
}

fn orientation_of_code(code: Option<u8>) -> (r: Orientation)
    ensures
        r == code_orientation(code),
{
    match code {
        Some(c) => orientation_from_code(c as u16),
        None => Orientation::NoTransforms,
    }
}

// ---------------------------------------------------------------------------
// Decoding an image file
// ---------------------------------------------------------------------------

/// The message of a decoding failure, naming the file.
pub open spec fn decode_error_text(stage: DecodeStage, name: Seq<char>, e: Seq<char>) -> Seq<char> {
    match stage {
        DecodeStage::Format => "Failed to parse image from memory:\n"@ + name + "\nError: "@ + e,
        DecodeStage::Header => "Failed to read metadata:\n"@ + name + "\n\nError: "@ + e,
        DecodeStage::Pixels => "Failed to decode image:\n"@ + name + "\n\nError: "@ + e,
    }
}

fn error_text(stage: DecodeStage, name: &str, e: &str) -> (r: String)
    ensures
        r@ == decode_error_text(stage, name@, e@),
{
    let mut s = match stage {
        DecodeStage::Format => String::from_str("Failed to parse image from memory:\n"),
        DecodeStage::Header => String::from_str("Failed to read metadata:\n"),
        DecodeStage::Pixels => String::from_str("Failed to decode image:\n"),
    };
    let n = chars_of(name);
    append_chars(&mut s, n.as_slice());
    let mid = match stage {
        DecodeStage::Format => chars_of("\nError: "),
        _ => chars_of("\n\nError: "),
    };
    append_chars(&mut s, mid.as_slice());
    let ec = chars_of(e);
    append_chars(&mut s, ec.as_slice());
    s
}

/// The pixels a buffer decodes to. A JPEG goes through zune-jpeg, turned by
/// its own Exif orientation, or (for a RAW file whose preview records none)
/// by that of the container's first bytes `head`; anything else, and a JPEG
/// zune-jpeg cannot decode, goes through the `image` crate, turned by the
/// orientation its decoder reports.
pub open spec fn spec_decode_pixels(bytes: Seq<u8>, is_raw: bool, head: Seq<u8>, name: Seq<char>) -> Result<
    (u32, u32, Seq<u8>),
    Seq<char>,
> {
    if guessed_format(bytes) == Some(HeaderFormat::Jpeg) && jpeg_rgba(bytes) is Some {
        let own = spec_exif_orientation(bytes);
        let o = if own == Orientation::NoTransforms && is_raw {
            spec_exif_orientation(head)
        } else {
            own
        };
        Ok(spec_orient(jpeg_rgba(bytes)->0, o))
    } else {
        match image_rgba(bytes) {
            Ok(d) => Ok(spec_orient((d.0, d.1, d.2), code_orientation(d.3))),
            Err(e) => Err(decode_error_text(e.0, name, e.1)),
        }
    }
}

/// Decodes a buffer into oriented pixels (see `spec_decode_pixels`).
pub fn decode_pixels(bytes: &[u8], is_raw: bool, head: &[u8], name: &str) -> (r: Result<Rgba, String>)
    ensures
        match r {
            Ok(p) => spec_decode_pixels(bytes@, is_raw, head@, name@) == Ok::<_, Seq<char>>(p@) && p.pixels@.len()
                == p.width * p.height * 4,
            Err(e) => spec_decode_pixels(bytes@, is_raw, head@, name@) == Err::<(u32, u32, Seq<u8>), _>(e@),
        },
{
    if matches!(guess_format(bytes), Some(HeaderFormat::Jpeg)) {
        if let Some(p) = decode_jpeg_rgba(bytes) {
            let mut o = get_exif_orientation(bytes);
            if matches!(o, Orientation::NoTransforms) && is_raw {
                o = get_exif_orientation(head);
            }
            return Ok(orient(p, o));
        }
    }
    match decode_any_rgba(bytes) {
        Ok((p, code)) => {
            let o = orientation_of_code(code);
            Ok(orient(p, o))
        },
        Err((stage, e)) => Err(error_text(stage, name, e.as_str())),
    }
}

/// A decoded image: its pixels, whether they came from the container's
/// embedded preview, and the size shown for the file.
pub struct Decoded {
    pub image: Rgba,
    pub from_preview: bool,
    pub raw_size: (u32, u32),
}

/// The result of decoding a file's bytes. RAW and TIFF containers (that are
/// not JPEG) are decoded through their embedded preview JPEG when they hold
/// one that decodes; otherwise, and for everything else, the bytes are
/// decoded directly. The size shown is `raw_dims`, the sensor size the
/// container records, when known, else that of the decoded pixels.
pub open spec fn spec_decode_image_bytes(
    bytes: Seq<u8>,
    is_raw: bool,
    head: Seq<u8>,
    name: Seq<char>,
    raw_dims: Option<(u32, u32)>,
) -> Result<((u32, u32, Seq<u8>), bool, (u32, u32)), Seq<char>> {
    let preview: Option<(u32, u32, Seq<u8>)> = if spec_wants_embedded_preview(bytes, is_raw) {
        match spec_jpeg_preview(bytes) {
            Some(j) => match spec_decode_pixels(j, is_raw, head, name) {
                Ok(v) => Some(v),
                Err(_) => None,
            },
            None => None,
        }
    } else {
        None
    };
    let decoded: Result<((u32, u32, Seq<u8>), bool), Seq<char>> = match preview {
        Some(v) => Ok((v, true)),
        None => match spec_decode_pixels(bytes, is_raw, head, name) {
            Ok(v) => Ok((v, false)),
            Err(e) => Err(e),
        },
    };
    match decoded {
        Ok(d) => Ok(
            (
                d.0,
                d.1,
                match raw_dims {
                    Some(s) => s,
                    None => (d.0.0, d.0.1),
                },
            ),
        ),
        Err(e) => Err(e),
    }
}

/// Decodes a file's bytes (see `spec_decode_image_bytes`). `head` is the
/// container's first bytes, `name` the file's name for error messages.
pub fn decode_image_bytes(
    bytes: &[u8],
    is_raw: bool,
    head: &[u8],
    name: &str,
    raw_dims: Option<(u32, u32)>,
) -> (r: Result<Decoded, String>)
    ensures
        match r {
            Ok(d) => spec_decode_image_bytes(bytes@, is_raw, head@, name@, raw_dims) == Ok::<_, Seq<char>>(
                (d.image@, d.from_preview, d.raw_size),
            ),
            Err(e) => spec_decode_image_bytes(bytes@, is_raw, head@, name@, raw_dims) == Err::<((u32, u32, Seq<u8>), bool, (u32, u32)), _>(e@),
        },
{
    let mut preview: Option<Rgba> = None;
    if wants_embedded_preview(bytes, is_raw) {
        if let Some(j) = extract_jpeg_preview(bytes) {
            if let Ok(p) = decode_pixels(j.as_slice(), is_raw, head, name) {
                preview = Some(p);
            }
        }
    }
    let (image, from_preview) = match preview {
        Some(p) => (p, true),
        None => match decode_pixels(bytes, is_raw, head, name) {
            Ok(p) => (p, false),
            Err(e) => return Err(e),
        },
    };
    let raw_size = match raw_dims {
        Some(s) => s,
        None => (image.width, image.height),
    };
    Ok(Decoded { image, from_preview, raw_size })
}

/// The quick placeholder for a file from its first bytes: the embedded Exif
/// thumbnail, turned by the file's orientation, and the size of the full
/// image as shown. For a TIFF container the orientation and the size come
/// from its Exif block (the size falling back to the turned thumbnail's);
/// for anything else from the `image` crate's decoder. The size is swapped
/// when the orientation turns the image a quarter.
pub open spec fn spec_thumbnail(head: Seq<u8>) -> Option<((u32, u32, Seq<u8>), u32, u32)> {
    let info: Option<(Orientation, Option<(u32, u32)>)> = if is_tiff_header(head) {
        match spec_exif_summary(head) {
            Some(s) => Some((s.1, s.0)),
            None => None,
        }
    } else {
        match image_header(head) {
            Some(d) => Some((code_orientation(d.2), Some((d.0, d.1)))),
            None => None,
        }
    };
    match info {
        None => None,
        Some(i) => match spec_jpeg_thumbnail(head) {
            None => None,
            Some(j) => match image_rgba(j) {
                Err(_) => None,
                Ok(d) => {
                    let t = spec_orient((d.0, d.1, d.2), i.0);
                    let size = match i.1 {
                        Some(s) => s,
                        None => (t.0, t.1),
                    };
                    Some(
                        (
                            t,
                            if spec_swaps_axes(i.0) { size.1 } else { size.0 },
                            if spec_swaps_axes(i.0) { size.0 } else { size.1 },
                        ),
                    )
                },
            },
        },
    }
}

/// The thumbnail and full size shown for a file's first bytes (see
/// `spec_thumbnail`).
pub fn thumbnail_and_dimensions(head: &[u8]) -> (r: Option<(Rgba, u32, u32)>)
    ensures
        match r {
            Some(t) => spec_thumbnail(head@) == Some((t.0@, t.1, t.2)) && t.0.pixels@.len()
                == t.0.width * t.0.height * 4,
            None => spec_thumbnail(head@) is None,
        },
{
    let (o, size) = if is_tiff(head) {
        match exif_summary(head) {
            Some((dims, o)) => (o, dims),
            None => return None,
        }
    } else {
        match read_image_header(head) {
            Some((w, h, code)) => (orientation_of_code(code), Some((w, h))),
            None => return None,
        }
    };
    let j = match extract_jpeg_thumbnail(head) {
        Some(j) => j,
        None => return None,
    };
    let p = match decode_any_rgba(j.as_slice()) {
        Ok((p, _)) => p,
        Err(_) => return None,
    };
    let t = orient(p, o);
    let (w, h) = match size {
        Some(s) => s,
        None => (t.width, t.height),
    };
    if swaps_axes(o) {
        Some((t, h, w))
    } else {
        Some((t, w, h))
    }
}

} // verus!
