//! The queue of images being viewed, with each image's path relative to the
//! deepest directory that holds all of them.

use vstd::prelude::*;
use vstd::string::*;
use crate::path::{
    path_comps, path_spans, parent_comps, comps_prefix, spec_strip_prefix, rest_text, texts_view,
    spans_view, path_components, path_spans_of, lemma_path_spans_bounds, comps_starts_with,
};
use crate::source::{ImageSource, source_path, name_or_unknown, spec_display_name};
use crate::text::{chars_of, chars_eq_str, sub_chars, string_from_chars, append_chars, to_lowercase, case_lower};

verus! {

/// Components of the directory a path is shown relative to: its parent, or
/// the path itself when it has no parent.
pub open spec fn dir_comps(p: Seq<char>) -> Seq<Seq<char>> {
    match parent_comps(path_comps(p)) {
        Some(c) => c,
        None => path_comps(p),
    }
}

/// Removes trailing components from `cp` until it is a prefix of `p`, or
/// until it has no parent left.
pub open spec fn shrink_to(cp: Seq<Seq<char>>, p: Seq<Seq<char>>) -> Seq<Seq<char>>
    decreases cp.len(),
{
    if comps_prefix(cp, p) {
        cp
    } else if cp.len() > 0 && cp.last() != "/"@ {
        shrink_to(cp.drop_last(), p)
    } else {
        cp
    }
}

/// The common directory of a list of sources: the first source's directory,
/// shrunk in turn against the directory of each later source.
pub open spec fn common_dir(srcs: Seq<ImageSource>) -> Seq<Seq<char>>
    decreases srcs.len(),
{
    if srcs.len() == 0 {
        Seq::empty()
    } else if srcs.len() == 1 {
        dir_comps(source_path(srcs[0]))
    } else {
        shrink_to(common_dir(srcs.drop_last()), dir_comps(source_path(srcs.last())))
    }
}

/// The path shown for a source: its path with the common directory removed
/// (the whole path when that fails); for an archive page, the archive's path
/// so shortened (its file name when that fails), `: ` and the page name.
pub open spec fn spec_relative_path(s: ImageSource, cp: Seq<Seq<char>>) -> Seq<char> {
    match s {
        ImageSource::Local(p) => match spec_strip_prefix(p@, cp) {
            Some(r) => r,
            None => p@,
        },
        ImageSource::Cbz { zip_path, file_in_zip } => (match spec_strip_prefix(zip_path@, cp) {
            Some(r) => r,
            None => name_or_unknown(zip_path@),
        }) + ": "@ + file_in_zip@,
    }
}

proof fn lemma_prefix_trans(a: Seq<Seq<char>>, b: Seq<Seq<char>>, c: Seq<Seq<char>>)
    requires
        comps_prefix(a, b),
        comps_prefix(b, c),
    ensures
        comps_prefix(a, c),
{
    assert(c.take(a.len() as int) =~= c.take(b.len() as int).take(a.len() as int));
}

proof fn lemma_shrink_is_prefix_of_start(cp: Seq<Seq<char>>, p: Seq<Seq<char>>)
    ensures
        comps_prefix(shrink_to(cp, p), cp),
    decreases cp.len(),
{
    if !comps_prefix(cp, p) && cp.len() > 0 && cp.last() != "/"@ {
        lemma_shrink_is_prefix_of_start(cp.drop_last(), p);
        assert(comps_prefix(cp.drop_last(), cp)) by {
            assert(cp.take(cp.len() - 1) =~= cp.drop_last());
        }
        lemma_prefix_trans(shrink_to(cp.drop_last(), p), cp.drop_last(), cp);
    } else {
        assert(cp.take(cp.len() as int) =~= cp);
    }
}

proof fn lemma_shrink_reaches(cp: Seq<Seq<char>>, p: Seq<Seq<char>>)
    ensures
        comps_prefix(shrink_to(cp, p), p) || parent_comps(shrink_to(cp, p)) is None,
    decreases cp.len(),
{
    if !comps_prefix(cp, p) && cp.len() > 0 && cp.last() != "/"@ {
        lemma_shrink_reaches(cp.drop_last(), p);
    }
}

/// The common directory of a list of sources is a component prefix of the
/// directory of each of them, unless it shrank to the root or to nothing
/// without becoming one (sources mixing absolute and relative paths).
pub proof fn lemma_common_dir_is_prefix(srcs: Seq<ImageSource>, i: int)
    requires
        0 <= i < srcs.len(),
    ensures
        comps_prefix(common_dir(srcs), dir_comps(source_path(srcs[i]))) || parent_comps(
            common_dir(srcs),
        ) is None,
    decreases srcs.len(),
{
    let d = dir_comps(source_path(srcs[i]));
    if srcs.len() == 1 {
        assert(d.take(d.len() as int) =~= d);
    } else {
        let prev = common_dir(srcs.drop_last());
        let last = dir_comps(source_path(srcs.last()));
        let cd = shrink_to(prev, last);
        assert(common_dir(srcs) == cd);
        if i == srcs.len() - 1 {
            lemma_shrink_reaches(prev, last);
        } else {
            lemma_common_dir_is_prefix(srcs.drop_last(), i);
            assert(srcs.drop_last()[i] == srcs[i]);
            if comps_prefix(prev, d) {
                lemma_shrink_is_prefix_of_start(prev, last);
                lemma_prefix_trans(cd, prev, d);
            } else {
                assert(cd == prev);
            }
        }
    }
}

/// The images being viewed and the selected one.
pub struct ImageQueue {
    /// The image sources, in viewing order.
    pub images: Vec<ImageSource>,
    /// Each image's path relative to the common directory.
    pub relative_paths: Vec<String>,
    /// The same paths in lower case, for case-insensitive search.
    pub relative_paths_lowercase: Vec<String>,
    /// Index of the selected image.
    pub current_index: usize,
}

impl ImageQueue {
    /// A queue holds at least one image, one path of each kind per image and
    /// selects one of its images.
    pub open spec fn wf(&self) -> bool {
        &&& self.images.len() > 0
        &&& self.relative_paths.len() == self.images.len()
        &&& self.relative_paths_lowercase.len() == self.images.len()
        &&& self.current_index < self.images.len()
    }

    /// What `new` builds from a list of sources and a requested index.
    pub open spec fn built_from(&self, images: Seq<ImageSource>, index: usize) -> bool {
        &&& self.wf()
        &&& self.images@ == images
        &&& forall|i: int|
            0 <= i < images.len() ==> (#[trigger] self.relative_paths@[i])@ == spec_relative_path(
                images[i],
                common_dir(images),
            )
        &&& forall|i: int|
            0 <= i < images.len() ==> (#[trigger] self.relative_paths_lowercase@[i])@
                == case_lower(self.relative_paths@[i]@)
        &&& self.current_index == if index < images.len() {
            index
        } else {
            (images.len() - 1) as usize
        }
    }
}

proof fn lemma_texts_drop_last(v: Seq<Vec<char>>)
    requires
        v.len() > 0,
    ensures
        texts_view(v.drop_last()) == texts_view(v).drop_last(),
        texts_view(v).last() == v.last()@,
{
    assert(texts_view(v.drop_last()) =~= texts_view(v).drop_last());
}

/// Components of the directory a source's path is shown relative to.
fn source_dir(s: &ImageSource) -> (r: Vec<Vec<char>>)
    ensures
        texts_view(r@) == dir_comps(source_path(*s)),
{
    let p = match s {
        ImageSource::Local(p) => p,
        ImageSource::Cbz { zip_path, .. } => zip_path,
    };
    let pc = chars_of(p.as_str());
    let mut comps = path_components(pc.as_slice());
    let n = comps.len();
    if n > 0 && !chars_eq_str(comps[n - 1].as_slice(), "/") {
        proof {
            lemma_texts_drop_last(comps@);
        }
        comps.pop();
    }
    comps
}

/// Shrinks `cp` against `p` (see `shrink_to`).
fn shrink_common(start: Vec<Vec<char>>, p: &Vec<Vec<char>>) -> (r: Vec<Vec<char>>)
    ensures
        texts_view(r@) == shrink_to(texts_view(start@), texts_view(p@)),
{
    let mut cp = start;
    let ghost target = shrink_to(texts_view(cp@), texts_view(p@));
    loop
        invariant
            target == shrink_to(texts_view(cp@), texts_view(p@)),
            target == shrink_to(texts_view(start@), texts_view(p@)),
        decreases cp.len(),
    {
        if comps_starts_with(p, &cp) {
            return cp;
        }
        let n = cp.len();
        if n > 0 && !chars_eq_str(cp[n - 1].as_slice(), "/") {
            proof {
                lemma_texts_drop_last(cp@);
            }
            cp.pop();
        } else {
            return cp;
        }
    }
}

/// `Path::strip_prefix` for a prefix given by its components.
fn strip_prefix_text(s: &[char], prefix: &Vec<Vec<char>>) -> (r: Option<Vec<char>>)
    ensures
        match r {
            Some(t) => spec_strip_prefix(s@, texts_view(prefix@)) == Some(t@),
            None => spec_strip_prefix(s@, texts_view(prefix@)) is None,
        },
{
    let comps = path_components(s);
    if !comps_starts_with(&comps, prefix) {
        return None;
    }
    let spans = path_spans_of(s);
    proof {
        lemma_path_spans_bounds(s@);
    }
    let ghost sp = path_spans(s@);
    assert(spans@.len() == sp.len());
    let k = prefix.len();
    let n = spans.len();
    if n == 0 || k >= n {
        assert(rest_text(s@, k as int) =~= Seq::<char>::empty());
        return Some(Vec::new());
    }
    let end = spans[n - 1].1;
    assert(sp.last() == (spans@[n - 1].0 as int, end as int));
    if k == 0 {
        let t = sub_chars(s, 0, end);
        assert(t@ =~= s@.take(end as int));
        Some(t)
    } else {
        let start = spans[k].0;
        assert(sp[k as int].0 == start as int);
        assert(sp[k as int].0 < sp[k as int].1);
        if k + 1 < n {
            assert(sp[k as int].1 <= sp[n - 1].0);
        }
        let t = sub_chars(s, start, end);
        Some(t)
    }
}

/// The path shown for one source, given the common directory.
fn relative_path(s: &ImageSource, cp: &Vec<Vec<char>>) -> (r: String)
    ensures
        r@ == spec_relative_path(*s, texts_view(cp@)),
{
    match s {
        ImageSource::Local(p) => {
            let pc = chars_of(p.as_str());
            match strip_prefix_text(pc.as_slice(), cp) {
                Some(rel) => string_from_chars(rel.as_slice()),
                None => string_from_chars(pc.as_slice()),
            }
        },
        ImageSource::Cbz { zip_path, file_in_zip } => {
            let zc = chars_of(zip_path.as_str());
            let mut out = match strip_prefix_text(zc.as_slice(), cp) {
                Some(rel) => string_from_chars(rel.as_slice()),
                None => match crate::path::file_name(zc.as_slice()) {
                    Some(n) => string_from_chars(n.as_slice()),
                    None => {
                        proof {
                            reveal_strlit("Unknown");
                        }
                        String::from_str("Unknown")
                    },
                },
            };
            let sep = chars_of(": ");
            append_chars(&mut out, sep.as_slice());
            let f = chars_of(file_in_zip.as_str());
            append_chars(&mut out, f.as_slice());
            out
        },
    }
}

/// Lower-case form of a string, as `to_lowercase` gives it.
fn lowered(s: &String) -> (r: String)
    ensures
        r@ == case_lower(s@),
{
    to_lowercase(s.as_str())
}

impl ImageQueue {
    /// Builds the queue over `images`, selecting `current_index` (the last
    /// image when it is past the end). Fails when there are no images.
    pub fn new(images: Vec<ImageSource>, current_index: usize) -> (r: Result<ImageQueue, String>)
        ensures
            match r {
                Ok(q) => images@.len() > 0 && q.built_from(images@, current_index),
                Err(e) => images@.len() == 0 && e@ == "No supported images found"@,
            },
    {
        if images.len() == 0 {
            return Err(String::from_str("No supported images found"));
        }
        let n = images.len();
        let mut cp = source_dir(&images[0]);
        assert(images@.take(1).len() == 1);
        assert(images@.take(1)[0] == images@[0]);
        let mut i: usize = 1;
        while i < n
            invariant
                1 <= i <= n,
                n == images@.len(),
                texts_view(cp@) == common_dir(images@.take(i as int)),
            decreases n - i,
        {
            let p = source_dir(&images[i]);
            let ghost t = images@.take(i + 1);
            assert(t.drop_last() =~= images@.take(i as int));
            assert(t.last() == images@[i as int]);
            cp = shrink_common(cp, &p);
            i = i + 1;
        }
        assert(images@.take(n as int) =~= images@);
        let ghost cd = common_dir(images@);
        let mut rels: Vec<String> = Vec::new();
        let mut lows: Vec<String> = Vec::new();
        let mut j: usize = 0;
        while j < n
            invariant
                j <= n,
                n == images@.len(),
                texts_view(cp@) == cd,
                cd == common_dir(images@),
                rels@.len() == j,
                lows@.len() == j,
                forall|k: int|
                    0 <= k < j ==> (#[trigger] rels@[k])@ == spec_relative_path(images@[k], cd),
                forall|k: int| 0 <= k < j ==> (#[trigger] lows@[k])@ == case_lower(rels@[k]@),
            decreases n - j,
        {
            let rel = relative_path(&images[j], &cp);
            let low = lowered(&rel);
            rels.push(rel);
            lows.push(low);
            j = j + 1;
        }
        let idx = if current_index < n {
            current_index
        } else {
            n - 1
        };
        Ok(ImageQueue { images, relative_paths: rels, relative_paths_lowercase: lows, current_index: idx })
    }

    /// Whether the queue holds no images.
    pub fn is_empty(&self) -> (r: bool)
        ensures
            r == (self.images@.len() == 0),
    {
        self.images.len() == 0
    }

    /// Selects the next image, wrapping from the last to the first. Returns
    /// whether the selection changed.
    pub fn next(&mut self) -> (changed: bool)
        requires
            old(self).images.len() > 0 ==> old(self).current_index < usize::MAX,
        ensures
            final(self).images == old(self).images,
            final(self).relative_paths == old(self).relative_paths,
            final(self).relative_paths_lowercase == old(self).relative_paths_lowercase,
            old(self).images.len() == 0 ==> final(self).current_index == old(self).current_index,
            old(self).images.len() > 0 ==> final(self).current_index == (old(self).current_index
                + 1) % (old(self).images.len() as int),
            changed == (final(self).current_index != old(self).current_index),
    {
        let n = self.images.len();
        if n == 0 {
            return false;
        }
        let old_index = self.current_index;
        self.current_index = (self.current_index + 1) % n;
        old_index != self.current_index
    }

    /// Selects the previous image, wrapping from the first to the last.
    /// Returns whether the selection changed.
    pub fn prev(&mut self) -> (changed: bool)
        ensures
            final(self).images == old(self).images,
            final(self).relative_paths == old(self).relative_paths,
            final(self).relative_paths_lowercase == old(self).relative_paths_lowercase,
            old(self).images.len() == 0 ==> final(self).current_index == old(self).current_index,
            old(self).images.len() > 0 ==> final(self).current_index == if old(self).current_index
                == 0 {
                old(self).images.len() - 1
            } else {
                old(self).current_index - 1
            },
            changed == (final(self).current_index != old(self).current_index),
    {
        let n = self.images.len();
        if n == 0 {
            return false;
        }
        let old_index = self.current_index;
        if self.current_index == 0 {
            self.current_index = n - 1;
        } else {
            self.current_index = self.current_index - 1;
        }
        old_index != self.current_index
    }

    /// The display name of the selected image, or the empty string when the
    /// index is past the end.
    pub fn get_current_filename(&self) -> (r: String)
        ensures
            self.current_index < self.images.len() ==> r@ == spec_display_name(
                self.images@[self.current_index as int],
            ),
            self.current_index >= self.images.len() ==> r@ == Seq::<char>::empty(),
    {
        if self.current_index < self.images.len() {
            self.images[self.current_index].display_name()
        } else {
            String::new()
        }
    }
}

} // verus!
