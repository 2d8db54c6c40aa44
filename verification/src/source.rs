//! Image sources (files on disk and pages inside comic book archives) and
//! the file-name rules that decide which paths are shown.

use vstd::prelude::*;
use vstd::string::*;
use crate::text::{ascii_lowercase, ascii_lower_char, chars_of, string_from_chars, append_chars};
use crate::path::{spec_file_name, spec_extension, file_name, extension, has_root};
use crate::raw::is_tiff_header;
use crate::sort::{Keyed, sort_stable, values_of, SortEntry, entries_view, sort_entries};

verus! {

/// Where an image comes from.
#[derive(Clone, Debug)]
pub enum ImageSource {
    /// A file on disk.
    Local(String),
    /// A page inside a comic book (zip) archive.
    Cbz {
        /// Path of the archive.
        zip_path: String,
        /// Name of the page entry inside the archive.
        file_in_zip: String,
    },
}

/// The path on disk a source is read from: the file itself or its archive.
pub open spec fn source_path(s: ImageSource) -> Seq<char> {
    match s {
        ImageSource::Local(p) => p@,
        ImageSource::Cbz { zip_path, .. } => zip_path@,
    }
}

/// The file name of a path, or `Unknown` when it has none.
pub open spec fn name_or_unknown(p: Seq<char>) -> Seq<char> {
    match spec_file_name(p) {
        Some(n) => n,
        None => "Unknown"@,
    }
}

/// The name shown for a source: its file name, or for an archive page the
/// archive's file name, `: ` and the page name.
pub open spec fn spec_display_name(s: ImageSource) -> Seq<char> {
    match s {
        ImageSource::Local(p) => name_or_unknown(p@),
        ImageSource::Cbz { zip_path, file_in_zip } => name_or_unknown(zip_path@) + ": "@
            + file_in_zip@,
    }
}

/// `str::eq_ignore_ascii_case`: equal once ASCII letters are lowered.
pub open spec fn ext_eq(ext: Seq<char>, lit: Seq<char>) -> bool {
    ascii_lowercase(ext) == ascii_lowercase(lit)
}

/// Extensions of camera RAW containers.
pub open spec fn is_raw_ext(e: Seq<char>) -> bool {
    ext_eq(e, "dng"@) || ext_eq(e, "cr2"@) || ext_eq(e, "nef"@) || ext_eq(e, "arw"@) || ext_eq(
        e,
        "orf"@,
    ) || ext_eq(e, "rw2"@) || ext_eq(e, "pef"@) || ext_eq(e, "raf"@)
}

/// Extensions of the image formats that archive pages may have.
pub open spec fn is_page_ext(e: Seq<char>) -> bool {
    ext_eq(e, "png"@) || ext_eq(e, "jpg"@) || ext_eq(e, "jpeg"@) || ext_eq(e, "gif"@) || ext_eq(
        e,
        "webp"@,
    ) || ext_eq(e, "bmp"@) || ext_eq(e, "tiff"@) || ext_eq(e, "ico"@)
}

/// Extensions of image files on disk: page formats and RAW containers.
pub open spec fn is_image_ext(e: Seq<char>) -> bool {
    is_page_ext(e) || is_raw_ext(e)
}

/// Extensions of comic book archives.
pub open spec fn is_archive_ext(e: Seq<char>) -> bool {
    ext_eq(e, "cbz"@) || ext_eq(e, "zip"@)
}

/// Whether the path's extension is a RAW container's.
pub open spec fn path_is_raw(p: Seq<char>) -> bool {
    match spec_extension(p) {
        Some(e) => is_raw_ext(e),
        None => false,
    }
}

/// Whether the path's extension is an image file's.
pub open spec fn path_is_image(p: Seq<char>) -> bool {
    match spec_extension(p) {
        Some(e) => is_image_ext(e),
        None => false,
    }
}

/// Whether the path's extension is an archive's.
pub open spec fn path_is_archive(p: Seq<char>) -> bool {
    match spec_extension(p) {
        Some(e) => is_archive_ext(e),
        None => false,
    }
}

/// Whether the path's extension is an archive page's.
pub open spec fn path_is_page(p: Seq<char>) -> bool {
    match spec_extension(p) {
        Some(e) => is_page_ext(e),
        None => false,
    }
}

/// The image formats that archive pages and image files may have, by
/// extension in lower case.
pub open spec fn supported_page_extensions() -> Set<Seq<char>> {
    set!["png"@, "jpg"@, "jpeg"@, "gif"@, "webp"@, "bmp"@, "tiff"@, "ico"@]
}

/// The camera RAW containers, by extension in lower case.
pub open spec fn supported_raw_extensions() -> Set<Seq<char>> {
    set!["dng"@, "cr2"@, "nef"@, "arw"@, "orf"@, "rw2"@, "pef"@, "raf"@]
}

/// The comic book archives, by extension in lower case.
pub open spec fn supported_archive_extensions() -> Set<Seq<char>> {
    set!["cbz"@, "zip"@]
}

/// Whether a path's extension, with ASCII letters lowered, lies in a set.
pub open spec fn extension_in(p: Seq<char>, exts: Set<Seq<char>>) -> bool {
    match spec_extension(p) {
        Some(e) => exts.contains(ascii_lowercase(e)),
        None => false,
    }
}

/// A path is taken for an archive page exactly when its extension is one
/// of the supported image formats', ASCII case ignored; for an image file
/// when it is that or a RAW container's; for a RAW file when it is a RAW
/// container's; for an archive when it is `cbz` or `zip`.
pub proof fn lemma_recognised_extensions(p: Seq<char>)
    ensures
        path_is_page(p) <==> extension_in(p, supported_page_extensions()),
        path_is_raw(p) <==> extension_in(p, supported_raw_extensions()),
        path_is_image(p) <==> extension_in(p, supported_page_extensions().union(supported_raw_extensions())),
        path_is_archive(p) <==> extension_in(p, supported_archive_extensions()),
{
    reveal_strlit("png");
    assert(ascii_lowercase("png"@) =~= "png"@);
    reveal_strlit("jpg");
    assert(ascii_lowercase("jpg"@) =~= "jpg"@);
    reveal_strlit("jpeg");
    assert(ascii_lowercase("jpeg"@) =~= "jpeg"@);
    reveal_strlit("gif");
    assert(ascii_lowercase("gif"@) =~= "gif"@);
    reveal_strlit("webp");
    assert(ascii_lowercase("webp"@) =~= "webp"@);
    reveal_strlit("bmp");
    assert(ascii_lowercase("bmp"@) =~= "bmp"@);
    reveal_strlit("tiff");
    assert(ascii_lowercase("tiff"@) =~= "tiff"@);
    reveal_strlit("ico");
    assert(ascii_lowercase("ico"@) =~= "ico"@);
    reveal_strlit("dng");
    assert(ascii_lowercase("dng"@) =~= "dng"@);
    reveal_strlit("cr2");
    assert(ascii_lowercase("cr2"@) =~= "cr2"@);
    reveal_strlit("nef");
    assert(ascii_lowercase("nef"@) =~= "nef"@);
    reveal_strlit("arw");
    assert(ascii_lowercase("arw"@) =~= "arw"@);
    reveal_strlit("orf");
    assert(ascii_lowercase("orf"@) =~= "orf"@);
    reveal_strlit("rw2");
    assert(ascii_lowercase("rw2"@) =~= "rw2"@);
    reveal_strlit("pef");
    assert(ascii_lowercase("pef"@) =~= "pef"@);
    reveal_strlit("raf");
    assert(ascii_lowercase("raf"@) =~= "raf"@);
    reveal_strlit("cbz");
    assert(ascii_lowercase("cbz"@) =~= "cbz"@);
    reveal_strlit("zip");
    assert(ascii_lowercase("zip"@) =~= "zip"@);
}

/// `char::to_ascii_lowercase`.
pub fn lower_ascii(c: char) -> (r: char)
    ensures
        r == ascii_lower_char(c),
{
    if 'A' <= c && c <= 'Z' {
        let b: u8 = c as u8;
        (b + 32) as char
    } else {
        c
    }
}

/// `eq_ignore_ascii_case` on a character slice and a string.
pub fn eq_ignore_ascii_case(a: &[char], b: &str) -> (r: bool)
    ensures
        r == ext_eq(a@, b@),
{
    let bv = chars_of(b);
    if a.len() != bv.len() {
        assert(ascii_lowercase(a@).len() != ascii_lowercase(b@).len());
        return false;
    }
    let mut i: usize = 0;
    while i < a.len()
        invariant
            i <= a.len(),
            a.len() == bv.len(),
            bv@ == b@,
            forall|j: int| 0 <= j < i ==> ascii_lower_char(a@[j]) == ascii_lower_char(b@[j]),
        decreases a.len() - i,
    {
        if lower_ascii(a[i]) != lower_ascii(bv[i]) {
            assert(ascii_lowercase(a@)[i as int] != ascii_lowercase(b@)[i as int]);
            return false;
        }
        i = i + 1;
    }
    assert(ascii_lowercase(a@) =~= ascii_lowercase(b@));
    true
}

/// Whether an extension is a RAW container's.
pub fn raw_ext(e: &[char]) -> (r: bool)
    ensures
        r == is_raw_ext(e@),
{
    eq_ignore_ascii_case(e, "dng") || eq_ignore_ascii_case(e, "cr2") || eq_ignore_ascii_case(
        e,
        "nef",
    ) || eq_ignore_ascii_case(e, "arw") || eq_ignore_ascii_case(e, "orf") || eq_ignore_ascii_case(
        e,
        "rw2",
    ) || eq_ignore_ascii_case(e, "pef") || eq_ignore_ascii_case(e, "raf")
}

/// Whether an extension is an archive page format's.
pub fn page_ext(e: &[char]) -> (r: bool)
    ensures
        r == is_page_ext(e@),
{
    eq_ignore_ascii_case(e, "png") || eq_ignore_ascii_case(e, "jpg") || eq_ignore_ascii_case(
        e,
        "jpeg",
    ) || eq_ignore_ascii_case(e, "gif") || eq_ignore_ascii_case(e, "webp")
        || eq_ignore_ascii_case(e, "bmp") || eq_ignore_ascii_case(e, "tiff")
        || eq_ignore_ascii_case(e, "ico")
}

/// Whether an extension is an archive's.
pub fn archive_ext(e: &[char]) -> (r: bool)
    ensures
        r == is_archive_ext(e@),
{
    eq_ignore_ascii_case(e, "cbz") || eq_ignore_ascii_case(e, "zip")
}

/// Whether a path has a RAW container's extension.
pub fn has_raw_extension(p: &str) -> (r: bool)
    ensures
        r == path_is_raw(p@),
{
    let pc = chars_of(p);
    match extension(pc.as_slice()) {
        Some(e) => raw_ext(e.as_slice()),
        None => false,
    }
}

/// Whether a path has an image file's extension.
pub fn has_image_extension(p: &str) -> (r: bool)
    ensures
        r == path_is_image(p@),
{
    let pc = chars_of(p);
    match extension(pc.as_slice()) {
        Some(e) => page_ext(e.as_slice()) || raw_ext(e.as_slice()),
        None => false,
    }
}

/// Whether a path has an archive's extension.
pub fn has_archive_extension(p: &str) -> (r: bool)
    ensures
        r == path_is_archive(p@),
{
    let pc = chars_of(p);
    match extension(pc.as_slice()) {
        Some(e) => archive_ext(e.as_slice()),
        None => false,
    }
}

/// Whether a path has an archive page format's extension.
pub fn has_page_extension(p: &str) -> (r: bool)
    ensures
        r == path_is_page(p@),
{
    let pc = chars_of(p);
    match extension(pc.as_slice()) {
        Some(e) => page_ext(e.as_slice()),
        None => false,
    }
}

/// The file name of a path, or `Unknown`.
fn file_name_or_unknown(p: &str) -> (r: String)
    ensures
        r@ == name_or_unknown(p@),
{
    let pc = chars_of(p);
    match file_name(pc.as_slice()) {
        Some(n) => string_from_chars(n.as_slice()),
        None => {
            proof {
                reveal_strlit("Unknown");
            }
            String::from_str("Unknown")
        },
    }
}

impl ImageSource {
    /// The name shown for this source in the status bar and palettes.
    pub fn display_name(&self) -> (r: String)
        ensures
            r@ == spec_display_name(*self),
    {
        match self {
            ImageSource::Local(p) => file_name_or_unknown(p.as_str()),
            ImageSource::Cbz { zip_path, file_in_zip } => {
                let mut out = file_name_or_unknown(zip_path.as_str());
                let sep = chars_of(": ");
                append_chars(&mut out, sep.as_slice());
                let f = chars_of(file_in_zip.as_str());
                append_chars(&mut out, f.as_slice());
                out
            },
        }
    }

    /// Whether this source is read from a camera RAW container.
    pub fn is_raw(&self) -> (r: bool)
        ensures
            r == path_is_raw(source_path(*self)),
    {
        match self {
            ImageSource::Local(p) => has_raw_extension(p.as_str()),
            ImageSource::Cbz { zip_path, .. } => has_raw_extension(zip_path.as_str()),
        }
    }
}


/// The path a source's identifier names: the path itself when absolute,
/// else the path joined onto the working directory (when known).
pub open spec fn absolute_text(p: Seq<char>, cwd: Option<Seq<char>>) -> Seq<char> {
    if has_root(p) {
        p
    } else {
        match cwd {
            Some(c) => if c.len() > 0 && c.last() != '/' {
                c + "/"@ + p
            } else {
                c + p
            },
            None => p,
        }
    }
}

/// A source's identifier: its absolute path, and for an archive page the
/// archive's absolute path, `::` and the page name.
pub open spec fn spec_identifier(s: ImageSource, cwd: Option<Seq<char>>) -> Seq<char> {
    match s {
        ImageSource::Local(p) => absolute_text(p@, cwd),
        ImageSource::Cbz { zip_path, file_in_zip } => absolute_text(zip_path@, cwd) + "::"@
            + file_in_zip@,
    }
}

pub(crate) fn absolute_path_text(p: &str, cwd: Option<&str>) -> (r: String)
    ensures
        r@ == absolute_text(p@, match cwd {
            Some(c) => Some(c@),
            None => None,
        }),
{
    let pc = chars_of(p);
    if pc.len() > 0 && pc[0] == '/' {
        return string_from_chars(pc.as_slice());
    }
    match cwd {
        Some(c) => {
            let cc = chars_of(c);
            let mut out = string_from_chars(cc.as_slice());
            if cc.len() > 0 && cc[cc.len() - 1] != '/' {
                let sep = chars_of("/");
                append_chars(&mut out, sep.as_slice());
            }
            append_chars(&mut out, pc.as_slice());
            out
        },
        None => string_from_chars(pc.as_slice()),
    }
}

impl ImageSource {
    /// The identifier of this source, given the working directory (`None`
    /// when it cannot be had): a key that stays the same across runs.
    pub fn identifier_with_cwd(&self, cwd: Option<&str>) -> (r: String)
        ensures
            r@ == spec_identifier(*self, match cwd {
                Some(c) => Some(c@),
                None => None,
            }),
    {
        match self {
            ImageSource::Local(p) => absolute_path_text(p.as_str(), cwd),
            ImageSource::Cbz { zip_path, file_in_zip } => {
                let mut out = absolute_path_text(zip_path.as_str(), cwd);
                let sep = chars_of("::");
                append_chars(&mut out, sep.as_slice());
                let f = chars_of(file_in_zip.as_str());
                append_chars(&mut out, f.as_slice());
                out
            },
        }
    }
}

// ---------------------------------------------------------------------------
// File types
// ---------------------------------------------------------------------------

/// What the first bytes of a file are taken for.
#[derive(Clone, Copy, Debug, PartialEq, Eq, Structural)]
pub enum GuessType {
    /// An image format.
    Image,
    /// A zip archive.
    Zip,
}

/// The image formats the logic tells apart among those recognised from a
/// file's first bytes.
#[derive(Clone, Copy, Debug, PartialEq, Eq, Structural)]
pub enum HeaderFormat {
    Jpeg,
    Tiff,
    /// Any other recognised format.
    Other,
}

/// The format `image::guess_format` recognises from a buffer's first bytes.
pub uninterp spec fn guessed_format(bytes: Seq<u8>) -> Option<HeaderFormat>;

/// `image::guess_format`, JPEG and TIFF told apart from the other formats.
/// It is believed to depend on the buffer alone; as its signature table
/// shows, a buffer opening with FF D8 FF is JPEG and one opening with a
/// TIFF header is TIFF.
#[verifier::external_body]
pub(crate) fn guess_format(bytes: &[u8]) -> (r: Option<HeaderFormat>)
    ensures
        r == guessed_format(bytes@),
        bytes@.len() >= 3 && bytes@[0] == 0xFF && bytes@[1] == 0xD8 && bytes@[2] == 0xFF ==> r
            == Some(HeaderFormat::Jpeg),
        is_tiff_header(bytes@) ==> r == Some(HeaderFormat::Tiff),
{
    match image::guess_format(bytes) {
        Ok(image::ImageFormat::Jpeg) => Some(HeaderFormat::Jpeg),
        Ok(image::ImageFormat::Tiff) => Some(HeaderFormat::Tiff),
        Ok(_) => Some(HeaderFormat::Other),
        Err(_) => None,
    }
}

/// The type a file's first bytes show: `PK` opens a zip archive, otherwise
/// an image when its format is recognised.
pub open spec fn spec_guess_header(h: Seq<u8>) -> Option<GuessType> {
    if h.len() >= 2 && h[0] == 0x50 && h[1] == 0x4B {
        Some(GuessType::Zip)
    } else if guessed_format(h) is Some {
        Some(GuessType::Image)
    } else {
        None
    }
}

/// The type a file's first bytes (up to 16 of them) show.
pub fn guess_header_type(header: &[u8]) -> (r: Option<GuessType>)
    ensures
        r == spec_guess_header(header@),
{
    if header.len() >= 2 && header[0] == 0x50 && header[1] == 0x4B {
        return Some(GuessType::Zip);
    }
    match guess_format(header) {
        Some(_) => Some(GuessType::Image),
        None => None,
    }
}

/// The bytes of an optional buffer.
pub open spec fn bytes_view(h: Option<&[u8]>) -> Option<Seq<u8>> {
    match h {
        Some(b) => Some(b@),
        None => None,
    }
}

/// Whether a path is an image to show: a regular file, recognised by its
/// first bytes when magic checking is on (unreadable ones are not), else
/// by its extension.
pub open spec fn spec_is_image_file(p: Seq<char>, is_file: bool, header: Option<Seq<u8>>, check_magic: bool) -> bool {
    if !is_file {
        false
    } else if check_magic {
        match header {
            Some(h) => spec_guess_header(h) == Some(GuessType::Image),
            None => false,
        }
    } else {
        path_is_image(p)
    }
}

/// Whether a path is a comic book or zip archive, by the same rules.
pub open spec fn spec_is_cbz_or_zip(p: Seq<char>, is_file: bool, header: Option<Seq<u8>>, check_magic: bool) -> bool {
    if !is_file {
        false
    } else if check_magic {
        match header {
            Some(h) => spec_guess_header(h) == Some(GuessType::Zip),
            None => false,
        }
    } else {
        path_is_archive(p)
    }
}

/// Whether a path is an image to show, given whether it is a regular file
/// and, for magic checking, its first bytes (`None` when unreadable).
pub fn is_image_file(path: &str, is_file: bool, header: Option<&[u8]>, check_magic: bool) -> (r: bool)
    ensures
        r == spec_is_image_file(path@, is_file, bytes_view(header), check_magic),
{
    if !is_file {
        return false;
    }
    if check_magic {
        match header {
            Some(h) => match guess_header_type(h) {
                Some(GuessType::Image) => true,
                _ => false,
            },
            None => false,
        }
    } else {
        has_image_extension(path)
    }
}

/// Whether a path is a comic book or zip archive, given whether it is a
/// regular file and, for magic checking, its first bytes.
pub fn is_cbz_or_zip(path: &str, is_file: bool, header: Option<&[u8]>, check_magic: bool) -> (r: bool)
    ensures
        r == spec_is_cbz_or_zip(path@, is_file, bytes_view(header), check_magic),
{
    if !is_file {
        return false;
    }
    if check_magic {
        match header {
            Some(h) => match guess_header_type(h) {
                Some(GuessType::Zip) => true,
                _ => false,
            },
            None => false,
        }
    } else {
        has_archive_extension(path)
    }
}

/// Whether a file's bytes should be decoded through their embedded JPEG
/// preview: not already JPEG, and TIFF or named as a RAW container.
pub open spec fn spec_wants_embedded_preview(bytes: Seq<u8>, is_raw: bool) -> bool {
    guessed_format(bytes) != Some(HeaderFormat::Jpeg) && (guessed_format(bytes) == Some(
        HeaderFormat::Tiff,
    ) || is_raw)
}

/// Whether a file's bytes should be decoded through their embedded preview.
pub fn wants_embedded_preview(bytes: &[u8], is_raw: bool) -> (r: bool)
    ensures
        r == spec_wants_embedded_preview(bytes@, is_raw),
{
    let f = guess_format(bytes);
    match f {
        Some(HeaderFormat::Jpeg) => false,
        Some(HeaderFormat::Tiff) => true,
        _ => is_raw,
    }
}

// ---------------------------------------------------------------------------
// Archive pages and directory listings
// ---------------------------------------------------------------------------

/// The entries of an archive, as names and whether each is a file.
pub open spec fn archive_entries_view(e: Seq<(String, bool)>) -> Seq<(Seq<char>, bool)> {
    e.map_values(|x: (String, bool)| (x.0@, x.1))
}

/// The pages of an archive, in archive order: file entries whose name has
/// a page format's extension, each keyed by its lower-case name.
pub open spec fn page_items(e: Seq<(Seq<char>, bool)>) -> Seq<Keyed>
    decreases e.len(),
{
    if e.len() == 0 {
        Seq::empty()
    } else {
        let rest = page_items(e.drop_last());
        let x = e.last();
        if x.1 && path_is_page(x.0) {
            rest.push((true, crate::text::unicode_lowercase(x.0), x.0))
        } else {
            rest
        }
    }
}

/// The pages of an archive, sorted stably by lower-case name.
pub open spec fn spec_cbz_pages(e: Seq<(Seq<char>, bool)>) -> Seq<Seq<char>> {
    values_of(sort_stable(page_items(e)))
}

/// The views of a vector of strings.
pub open spec fn strings_view(v: Seq<String>) -> Seq<Seq<char>> {
    v.map_values(|s: String| s@)
}

fn values_of_entries(v: Vec<SortEntry>) -> (r: Vec<String>)
    ensures
        strings_view(r@) == values_of(entries_view(v@)),
{
    let mut v = v;
    let ghost all = entries_view(v@);
    let mut out: Vec<String> = Vec::new();
    let n = v.len();
    let mut i: usize = 0;
    while i < n
        invariant
            i <= n,
            n == all.len(),
            v@.len() == n - i,
            entries_view(v@) == all.skip(i as int),
            strings_view(out@) == values_of(all.take(i as int)),
        decreases n - i,
    {
        let ghost vv = v@;
        let e = v.remove(0);
        assert(entries_view(v@) =~= entries_view(vv).drop_first());
        assert(all.skip(i as int)[0] == (e.present, e.key@, e.value@));
        assert(all[i as int] == all.skip(i as int)[0]);
        let ghost before = out@;
        out.push(e.value);
        assert(values_of(all.take(i + 1)) =~= values_of(all.take(i as int)).push(all[i as int].2));
        assert(strings_view(out@) =~= values_of(all.take(i + 1)));
        assert(all.skip(i as int).drop_first() =~= all.skip(i + 1));
        i = i + 1;
    }
    assert(all.take(n as int) =~= all);
    out
}

/// The pages of an archive given its entries (name, is a file): the file
/// entries with a page format's extension, sorted stably by lower-case name.
pub fn select_cbz_pages(entries: &Vec<(String, bool)>) -> (r: Vec<String>)
    ensures
        strings_view(r@) == spec_cbz_pages(archive_entries_view(entries@)),
{
    let ghost ev = archive_entries_view(entries@);
    let mut items: Vec<SortEntry> = Vec::new();
    let mut i: usize = 0;
    while i < entries.len()
        invariant
            i <= entries.len(),
            ev == archive_entries_view(entries@),
            entries_view(items@) == page_items(ev.take(i as int)),
        decreases entries.len() - i,
    {
        let name = &entries[i].0;
        let is_file = entries[i].1;
        assert(ev.take(i + 1).drop_last() =~= ev.take(i as int));
        assert(ev.take(i + 1).last() == (name@, is_file));
        if is_file && has_page_extension(name.as_str()) {
            let low = crate::text::to_lowercase(name.as_str());
            let key = chars_of(low.as_str());
            let ghost before = items@;
            items.push(SortEntry { present: true, key, value: name.clone() });
            assert(entries_view(items@) =~= entries_view(before).push(
                (true, crate::text::unicode_lowercase(name@), name@),
            ));
        }
        i = i + 1;
    }
    assert(ev.take(entries.len() as int) =~= ev);
    let sorted = sort_entries(items);
    values_of_entries(sorted)
}

/// Paths keyed by their file name, absent names first.
pub open spec fn name_items(p: Seq<Seq<char>>) -> Seq<Keyed> {
    p.map_values(
        |x: Seq<char>|
            (
                spec_file_name(x) is Some,
                match spec_file_name(x) {
                    Some(n) => n,
                    None => Seq::empty(),
                },
                x,
            ),
    )
}

/// Sorts paths stably by file name, paths without one first.
pub fn sort_by_file_name(paths: Vec<String>) -> (r: Vec<String>)
    ensures
        strings_view(r@) == values_of(sort_stable(name_items(strings_view(paths@)))),
{
    let ghost pv = strings_view(paths@);
    let mut items: Vec<SortEntry> = Vec::new();
    let mut rest = paths;
    let n = rest.len();
    let mut i: usize = 0;
    while i < n
        invariant
            i <= n,
            n == pv.len(),
            rest@.len() == n - i,
            strings_view(rest@) == pv.skip(i as int),
            entries_view(items@) == name_items(pv).take(i as int),
        decreases n - i,
    {
        let ghost rv = rest@;
        let p = rest.remove(0);
        assert(strings_view(rest@) =~= strings_view(rv).drop_first());
        assert(pv.skip(i as int)[0] == p@);
        let pc = chars_of(p.as_str());
        let (present, key) = match file_name(pc.as_slice()) {
            Some(n) => (true, n),
            None => (false, Vec::new()),
        };
        let ghost before = items@;
        assert(pv[i as int] == pv.skip(i as int)[0]);
        assert(name_items(pv)[i as int] == (present, key@, p@));
        let ghost item = name_items(pv)[i as int];
        let entry = SortEntry { present, key, value: p };
        assert((entry.present, entry.key@, entry.value@) == item);
        items.push(entry);
        assert(entries_view(items@) =~= entries_view(before).push(item));
        assert(name_items(pv).take(i + 1) =~= name_items(pv).take(i as int).push(item));
        assert(pv.skip(i as int).drop_first() =~= pv.skip(i + 1));
        i = i + 1;
    }
    assert(name_items(pv).take(n as int) =~= name_items(pv));
    let sorted = sort_entries(items);
    values_of_entries(sorted)
}

/// Where the queue was read from, so that it can be scanned again.
#[derive(Debug, Clone)]
pub struct ScanConfig {
    /// The file, directory or archive given at start.
    pub initial_scan_path: String,
    pub check_magic: bool,
    pub recursive: bool,
    /// The queue holds the pages of one archive.
    pub is_cbz: bool,
    /// The paths were piped on standard input and cannot be scanned again.
    pub is_piped: bool,
}

/// What the caller learned of one path given on the command line or piped
/// in: whether it is a regular file, its first bytes (when magic checking
/// and readable) and, for an archive, its page names (`None` when the
/// archive could not be listed).
pub struct PathProbe {
    pub path: String,
    pub is_file: bool,
    pub header: Option<Vec<u8>>,
    pub pages: Option<Vec<String>>,
}

/// The first bytes a probe holds.
pub open spec fn probe_header(p: PathProbe) -> Option<Seq<u8>> {
    match p.header {
        Some(h) => Some(h@),
        None => None,
    }
}

/// The sources one path yields: each listed page of an archive, the file
/// itself when it is an image, else none.
pub open spec fn probe_sources(p: PathProbe, check_magic: bool) -> Seq<ImageSource> {
    if spec_is_cbz_or_zip(p.path@, p.is_file, probe_header(p), check_magic) {
        match p.pages {
            Some(pages) => pages@.map_values(
                |pg: String| ImageSource::Cbz { zip_path: p.path, file_in_zip: pg },
            ),
            None => Seq::empty(),
        }
    } else if spec_is_image_file(p.path@, p.is_file, probe_header(p), check_magic) {
        seq![ImageSource::Local(p.path)]
    } else {
        Seq::empty()
    }
}

/// The sources a list of paths yields, in order.
pub open spec fn spec_collect_sources(ps: Seq<PathProbe>, check_magic: bool) -> Seq<ImageSource>
    decreases ps.len(),
{
    if ps.len() == 0 {
        Seq::empty()
    } else {
        spec_collect_sources(ps.drop_last(), check_magic) + probe_sources(ps.last(), check_magic)
    }
}

fn header_slice(h: &Option<Vec<u8>>) -> (r: Option<&[u8]>)
    ensures
        bytes_view(r) == match h {
            Some(b) => Some(b@),
            None => None,
        },
{
    match h {
        Some(b) => Some(b.as_slice()),
        None => None,
    }
}

/// The image sources a list of probed paths yields (see `probe_sources`).
pub fn collect_sources(probes: &Vec<PathProbe>, check_magic: bool) -> (r: Vec<ImageSource>)
    ensures
        r@ == spec_collect_sources(probes@, check_magic),
{
    let mut out: Vec<ImageSource> = Vec::new();
    let mut i: usize = 0;
    while i < probes.len()
        invariant
            i <= probes.len(),
            out@ == spec_collect_sources(probes@.take(i as int), check_magic),
        decreases probes.len() - i,
    {
        let p = &probes[i];
        assert(probes@.take(i + 1).drop_last() =~= probes@.take(i as int));
        assert(probes@.take(i + 1).last() == *p);
        let ghost before = out@;
        let h = header_slice(&p.header);
        if is_cbz_or_zip(p.path.as_str(), p.is_file, h, check_magic) {
            match &p.pages {
                Some(pages) => {
                    let mut j: usize = 0;
                    while j < pages.len()
                        invariant
                            j <= pages.len(),
                            out@ == before + pages@.take(j as int).map_values(
                                |pg: String| ImageSource::Cbz { zip_path: p.path, file_in_zip: pg },
                            ),
                        decreases pages.len() - j,
                    {
                        out.push(
                            ImageSource::Cbz {
                                zip_path: p.path.clone(),
                                file_in_zip: pages[j].clone(),
                            },
                        );
                        j = j + 1;
                        assert(out@ =~= before + pages@.take(j as int).map_values(
                            |pg: String| ImageSource::Cbz { zip_path: p.path, file_in_zip: pg },
                        ));
                    }
                    assert(pages@.take(pages.len() as int) =~= pages@);
                },
                None => {
                    assert(out@ =~= before + Seq::<ImageSource>::empty());
                },
            }
        } else if is_image_file(p.path.as_str(), p.is_file, h, check_magic) {
            out.push(ImageSource::Local(p.path.clone()));
            assert(out@ =~= before + seq![ImageSource::Local(p.path)]);
        } else {
            assert(out@ =~= before + Seq::<ImageSource>::empty());
        }
        i = i + 1;
    }
    assert(probes@.take(probes.len() as int) =~= probes@);
    out
}

// ---------------------------------------------------------------------------
// Piped input
// ---------------------------------------------------------------------------

/// A line with its trailing carriage returns removed.
pub open spec fn trim_cr(l: Seq<u8>) -> Seq<u8>
    decreases l.len(),
{
    if l.len() > 0 && l.last() == 13 {
        trim_cr(l.drop_last())
    } else {
        l
    }
}

/// The finished lines kept so far, given the line just ended: kept unless
/// nothing is left of it once its carriage returns are removed.
pub open spec fn end_line(done: Seq<Seq<u8>>, cur: Seq<u8>) -> Seq<Seq<u8>> {
    if trim_cr(cur).len() > 0 {
        done.push(trim_cr(cur))
    } else {
        done
    }
}

/// Reading piped input byte by byte: the lines finished so far and the
/// line being read.
pub open spec fn piped_state(s: Seq<u8>) -> (Seq<Seq<u8>>, Seq<u8>)
    decreases s.len(),
{
    if s.len() == 0 {
        (Seq::empty(), Seq::empty())
    } else {
        let (done, cur) = piped_state(s.drop_last());
        if s.last() == 10 {
            (end_line(done, cur), Seq::empty())
        } else {
            (done, cur.push(s.last()))
        }
    }
}

/// The paths piped on standard input: one per line, lines split at each
/// newline, trailing carriage returns removed and empty lines dropped.
pub open spec fn spec_piped_paths(s: Seq<u8>) -> Seq<Seq<u8>> {
    end_line(piped_state(s).0, piped_state(s).1)
}

/// The byte-sequence views of a list of byte vectors.
pub open spec fn bytes_lists_view(v: Seq<Vec<u8>>) -> Seq<Seq<u8>> {
    v.map_values(|x: Vec<u8>| x@)
}

fn finish_line(out: &mut Vec<Vec<u8>>, cur: Vec<u8>)
    ensures
        bytes_lists_view(final(out)@) == end_line(bytes_lists_view(old(out)@), cur@),
{
    let mut cur = cur;
    let ghost whole = cur@;
    while cur.len() > 0 && cur[cur.len() - 1] == 13
        invariant
            trim_cr(cur@) == trim_cr(whole),
        decreases cur.len(),
    {
        let ghost before = cur@;
        cur.pop();
        assert(cur@ =~= before.drop_last());
    }
    if cur.len() > 0 {
        let ghost before = out@;
        out.push(cur);
        assert(bytes_lists_view(out@) =~= bytes_lists_view(before).push(trim_cr(whole)));
    }
}

/// The paths piped on standard input (see `spec_piped_paths`), as bytes.
pub fn piped_paths(content: &[u8]) -> (r: Vec<Vec<u8>>)
    ensures
        bytes_lists_view(r@) == spec_piped_paths(content@),
{
    let mut out: Vec<Vec<u8>> = Vec::new();
    let mut cur: Vec<u8> = Vec::new();
    let mut i: usize = 0;
    while i < content.len()
        invariant
            i <= content.len(),
            (bytes_lists_view(out@), cur@) == piped_state(content@.take(i as int)),
        decreases content.len() - i,
    {
        let b = content[i];
        let ghost t = content@.take(i + 1);
        assert(t.drop_last() =~= content@.take(i as int));
        assert(t.last() == b);
        if b == 10 {
            finish_line(&mut out, cur);
            cur = Vec::new();
        } else {
            cur.push(b);
        }
        i = i + 1;
    }
    assert(content@.take(content.len() as int) =~= content@);
    finish_line(&mut out, cur);
    out
}

} // verus!
