//! Unix path syntax over character sequences: components, file name,
//! extension, parent and prefix stripping, following the rules of
//! `std::path::Path` on Unix.

use vstd::prelude::*;
use crate::text::{index_of, lemma_index_of, find_char_from, sub_chars, chars_eq_str, chars_eq};

verus! {

/// Spans `(start, end)` of the components found in `s` from position `i` on,
/// where segments are separated by `/` and empty and `.` segments are skipped.
pub open spec fn comps_from(s: Seq<char>, i: int) -> Seq<(int, int)>
    decreases s.len() - i,
{
    if i < 0 || i >= s.len() {
        Seq::empty()
    } else {
        let k = index_of(s.skip(i), '/');
        let j = if k < 0 {
            s.len() as int
        } else {
            i + k
        };
        let seg = s.subrange(i, j);
        let rest = if k < 0 {
            Seq::empty()
        } else {
            proof {
                lemma_index_of(s.skip(i), '/');
            }
            comps_from(s, j + 1)
        };
        if seg.len() == 0 || seg == "."@ {
            rest
        } else {
            seq![(i, j)] + rest
        }
    }
}

/// Whether the path starts with a root `/`.
pub open spec fn has_root(s: Seq<char>) -> bool {
    s.len() > 0 && s[0] == '/'
}

/// Whether the path starts with a current-directory component: `.` alone or
/// followed by `/`, without a root.
pub open spec fn has_cur_dir(s: Seq<char>) -> bool {
    !has_root(s) && s.len() > 0 && s[0] == '.' && (s.len() == 1 || s[1] == '/')
}

/// Spans of the components of a path: a root or current-directory component
/// first when present, then the named and `..` components.
pub open spec fn path_spans(s: Seq<char>) -> Seq<(int, int)> {
    if has_root(s) {
        seq![(0int, 1int)] + comps_from(s, 1)
    } else if has_cur_dir(s) {
        seq![(0int, 1int)] + comps_from(s, 2)
    } else {
        comps_from(s, 0)
    }
}

/// The components of a path, as text: `/` for the root, `.` for a leading
/// current directory, then each named or `..` component.
pub open spec fn path_comps(s: Seq<char>) -> Seq<Seq<char>> {
    path_spans(s).map_values(|sp: (int, int)| s.subrange(sp.0, sp.1))
}

/// Whether a component text names a file or directory (not root, `.` or `..`).
pub open spec fn is_normal(c: Seq<char>) -> bool {
    c != "/"@ && c != "."@ && c != ".."@
}

/// The final component of a path, if it names a file or directory.
pub open spec fn spec_file_name(s: Seq<char>) -> Option<Seq<char>> {
    let c = path_comps(s);
    if c.len() > 0 && is_normal(c.last()) {
        Some(c.last())
    } else {
        None
    }
}

/// Position of the last occurrence of `c` in `s`, or -1.
pub open spec fn last_index_of(s: Seq<char>, c: char) -> int
    decreases s.len(),
{
    if s.len() == 0 {
        -1
    } else if s.last() == c {
        s.len() - 1
    } else {
        last_index_of(s.drop_last(), c)
    }
}

/// The extension of a file name: the text after its last `.`, unless there is
/// no `.` or the only one is the leading character.
pub open spec fn name_extension(name: Seq<char>) -> Option<Seq<char>> {
    let k = last_index_of(name, '.');
    if k <= 0 {
        None
    } else {
        Some(name.skip(k + 1))
    }
}

/// The extension of a path's file name.
pub open spec fn spec_extension(s: Seq<char>) -> Option<Seq<char>> {
    match spec_file_name(s) {
        Some(n) => name_extension(n),
        None => None,
    }
}

/// Components of the parent path: all but the last, unless there is none or
/// the last is the root.
pub open spec fn parent_comps(c: Seq<Seq<char>>) -> Option<Seq<Seq<char>>> {
    if c.len() > 0 && c.last() != "/"@ {
        Some(c.drop_last())
    } else {
        None
    }
}

/// Whether component list `a` is a prefix of component list `b`.
pub open spec fn comps_prefix(a: Seq<Seq<char>>, b: Seq<Seq<char>>) -> bool {
    a.len() <= b.len() && b.take(a.len() as int) == a
}

/// The text of a path left after removing its first `k` components: for
/// `k == 0` the path up to the end of its last component, otherwise the text
/// from the start of component `k` to the end of the last component.
pub open spec fn rest_text(s: Seq<char>, k: int) -> Seq<char> {
    let sp = path_spans(s);
    if sp.len() == 0 || k >= sp.len() {
        Seq::empty()
    } else if k <= 0 {
        s.take(sp.last().1)
    } else {
        s.subrange(sp[k].0, sp.last().1)
    }
}

/// `Path::strip_prefix` for a prefix given by its components.
pub open spec fn spec_strip_prefix(s: Seq<char>, prefix: Seq<Seq<char>>) -> Option<Seq<char>> {
    if comps_prefix(prefix, path_comps(s)) {
        Some(rest_text(s, prefix.len() as int))
    } else {
        None
    }
}

pub open spec fn texts_view(v: Seq<Vec<char>>) -> Seq<Seq<char>> {
    v.map_values(|x: Vec<char>| x@)
}

pub open spec fn spans_view(v: Seq<(usize, usize)>) -> Seq<(int, int)> {
    v.map_values(|x: (usize, usize)| (x.0 as int, x.1 as int))
}

proof fn lemma_comps_from_bounds(s: Seq<char>, i: int)
    requires
        0 <= i,
    ensures
        forall|k: int|
            0 <= k < comps_from(s, i).len() ==> i <= (#[trigger] comps_from(s, i)[k]).0
                < comps_from(s, i)[k].1 <= s.len(),
        forall|k: int, l: int|
            0 <= k < l < comps_from(s, i).len() ==> (#[trigger] comps_from(s, i)[k]).1 < (
            #[trigger] comps_from(s, i)[l]).0,
    decreases s.len() - i,
{
    if i < s.len() {
        lemma_index_of(s.skip(i), '/');
        let k = index_of(s.skip(i), '/');
        let j = if k < 0 {
            s.len() as int
        } else {
            i + k
        };
        let seg = s.subrange(i, j);
        let rest = if k < 0 {
            Seq::<(int, int)>::empty()
        } else {
            comps_from(s, j + 1)
        };
        if k >= 0 {
            lemma_comps_from_bounds(s, j + 1);
        }
        let c = comps_from(s, i);
        if seg.len() == 0 || seg == "."@ {
            assert(c == rest);
        } else {
            assert(c == seq![(i, j)] + rest);
            assert forall|a: int| 0 <= a < c.len() implies i <= (#[trigger] c[a]).0 < c[a].1
                <= s.len() by {
                if a > 0 {
                    assert(c[a] == rest[a - 1]);
                }
            }
            assert forall|a: int, b: int| 0 <= a < b < c.len() implies (#[trigger] c[a]).1 < (
            #[trigger] c[b]).0 by {
                assert(c[b] == rest[b - 1]);
                if a > 0 {
                    assert(c[a] == rest[a - 1]);
                }
            }
        }
    }
}

/// Spans of the components found from position `i` on.
fn scan_comps(s: &[char], i: usize) -> (r: Vec<(usize, usize)>)
    ensures
        spans_view(r@) == comps_from(s@, i as int),
{
    let mut out: Vec<(usize, usize)> = Vec::new();
    let mut pos: usize = i;
    let ghost total = comps_from(s@, i as int);
    if pos >= s.len() {
        assert(spans_view(out@) =~= total);
        return out;
    }
    loop
        invariant
            pos < s.len(),
            total == comps_from(s@, i as int),
            spans_view(out@) + comps_from(s@, pos as int) == total,
        decreases s.len() - pos,
    {
        let found = find_char_from(s, '/', pos);
        proof {
            lemma_index_of(s@.skip(pos as int), '/');
        }
        let j = match found {
            Some(k) => pos + k,
            None => s.len(),
        };
        let ghost before = out@;
        let ghost seg = s@.subrange(pos as int, j as int);
        let ghost rest = match found {
            Some(_) => comps_from(s@, j + 1),
            None => Seq::<(int, int)>::empty(),
        };
        let ghost here = if seg.len() == 0 || seg == "."@ {
            Seq::<(int, int)>::empty()
        } else {
            seq![(pos as int, j as int)]
        };
        assert(comps_from(s@, pos as int) == here + rest);
        let seg_len = j - pos;
        let is_dot = seg_len == 1 && s[pos] == '.';
        proof {
            reveal_strlit(".");
            if seg_len == 1 {
                assert(seg[0] == s@[pos as int]);
                if is_dot {
                    assert(seg =~= "."@);
                } else {
                    assert(seg[0] != "."@[0]);
                }
            } else {
                assert(seg.len() != 1);
                assert(seg != "."@);
            }
        }
        if seg_len > 0 && !is_dot {
            out.push((pos, j));
        }
        assert(spans_view(out@) =~= spans_view(before) + here);
        match found {
            Some(k) => {
                if j + 1 >= s.len() {
                    assert(rest =~= Seq::<(int, int)>::empty());
                    assert(spans_view(out@) =~= total);
                    return out;
                }
                assert(spans_view(out@) + comps_from(s@, (j + 1) as int) =~= total);
                pos = j + 1;
            },
            None => {
                assert(spans_view(out@) =~= total);
                return out;
            },
        }
    }
}

/// Spans of the components of a path (see `path_spans`).
pub fn path_spans_of(s: &[char]) -> (r: Vec<(usize, usize)>)
    ensures
        spans_view(r@) == path_spans(s@),
{
    if s.len() > 0 && s[0] == '/' {
        let mut v: Vec<(usize, usize)> = Vec::new();
        v.push((0, 1));
        let mut rest = scan_comps(s, 1);
        let ghost rv = rest@;
        v.append(&mut rest);
        assert(spans_view(v@) =~= seq![(0int, 1int)] + spans_view(rv));
        v
    } else if s.len() > 0 && s[0] == '.' && (s.len() == 1 || s[1] == '/') {
        let mut v: Vec<(usize, usize)> = Vec::new();
        v.push((0, 1));
        let mut rest = scan_comps(s, 2);
        let ghost rv = rest@;
        v.append(&mut rest);
        assert(spans_view(v@) =~= seq![(0int, 1int)] + spans_view(rv));
        v
    } else {
        scan_comps(s, 0)
    }
}

/// Every span of a path lies within it, and the spans are in order.
pub proof fn lemma_path_spans_bounds(s: Seq<char>)
    ensures
        forall|k: int|
            0 <= k < path_spans(s).len() ==> 0 <= (#[trigger] path_spans(s)[k]).0 < path_spans(
                s,
            )[k].1 <= s.len(),
        forall|k: int, l: int|
            0 <= k < l < path_spans(s).len() ==> (#[trigger] path_spans(s)[k]).1 <= (
            #[trigger] path_spans(s)[l]).0,
{
    if has_root(s) {
        lemma_comps_from_bounds(s, 1);
    } else if has_cur_dir(s) {
        lemma_comps_from_bounds(s, 2);
    } else {
        lemma_comps_from_bounds(s, 0);
    }
}

/// The components of a path, as text (see `path_comps`).
pub fn path_components(s: &[char]) -> (r: Vec<Vec<char>>)
    ensures
        texts_view(r@) == path_comps(s@),
{
    let spans = path_spans_of(s);
    proof {
        lemma_path_spans_bounds(s@);
    }
    let mut out: Vec<Vec<char>> = Vec::new();
    let mut i: usize = 0;
    while i < spans.len()
        invariant
            i <= spans.len(),
            spans_view(spans@) == path_spans(s@),
            forall|k: int|
                0 <= k < path_spans(s@).len() ==> 0 <= (#[trigger] path_spans(s@)[k]).0
                    < path_spans(s@)[k].1 <= s@.len(),
            texts_view(out@) == path_comps(s@).take(i as int),
            out@.len() == i,
        decreases spans.len() - i,
    {
        let (a, b) = spans[i];
        assert(path_spans(s@)[i as int] == (a as int, b as int));
        let t = sub_chars(s, a, b);
        let ghost before = out@;
        out.push(t);
        proof {
            assert(path_comps(s@)[i as int] == t@);
            assert forall|k: int| 0 <= k < i + 1 implies #[trigger] texts_view(out@)[k] == path_comps(
                s@,
            ).take(i + 1)[k] by {
                if k < i {
                    assert(out@[k] == before[k]);
                    assert(texts_view(before)[k] == path_comps(s@).take(i as int)[k]);
                }
            }
        }
        i = i + 1;
        assert(texts_view(out@) =~= path_comps(s@).take(i as int));
    }
    assert(path_comps(s@).take(spans.len() as int) =~= path_comps(s@));
    out
}

fn is_normal_comp(c: &[char]) -> (r: bool)
    ensures
        r == is_normal(c@),
{
    !chars_eq_str(c, "/") && !chars_eq_str(c, ".") && !chars_eq_str(c, "..")
}

/// The file name of a path (see `spec_file_name`).
pub fn file_name(s: &[char]) -> (r: Option<Vec<char>>)
    ensures
        match r {
            Some(n) => spec_file_name(s@) == Some(n@),
            None => spec_file_name(s@) is None,
        },
{
    let mut comps = path_components(s);
    let n = comps.len();
    if n == 0 {
        return None;
    }
    let last = comps.remove(n - 1);
    assert(last@ == path_comps(s@).last());
    if is_normal_comp(last.as_slice()) {
        Some(last)
    } else {
        None
    }
}

/// Position of the last `c` in `v`, if any.
fn last_index(v: &[char], c: char) -> (r: Option<usize>)
    ensures
        match r {
            Some(k) => last_index_of(v@, c) == k as int,
            None => last_index_of(v@, c) == -1,
        },
{
    let mut i: usize = v.len();
    assert(v@.take(i as int) =~= v@);
    while i > 0
        invariant
            i <= v.len(),
            last_index_of(v@, c) == last_index_of(v@.take(i as int), c),
        decreases i,
    {
        let ghost t = v@.take(i as int);
        if v[i - 1] == c {
            assert(t.last() == c);
            return Some(i - 1);
        }
        assert(t.drop_last() =~= v@.take(i - 1));
        i = i - 1;
    }
    None
}

/// The extension of a file name (see `name_extension`).
pub fn name_ext(name: &[char]) -> (r: Option<Vec<char>>)
    ensures
        match r {
            Some(e) => name_extension(name@) == Some(e@),
            None => name_extension(name@) is None,
        },
{
    match last_index(name, '.') {
        Some(k) => {
            if k == 0 {
                None
            } else {
                proof {
                    lemma_last_index_bound(name@, '.');
                }
                assert(k < name.len());
                let e = sub_chars(name, k + 1, name.len());
                assert(e@ =~= name@.skip(k + 1));
                Some(e)
            }
        },
        None => None,
    }
}

proof fn lemma_last_index_bound(s: Seq<char>, c: char)
    ensures
        -1 <= last_index_of(s, c) < s.len(),
    decreases s.len(),
{
    if s.len() > 0 && s.last() != c {
        lemma_last_index_bound(s.drop_last(), c);
    }
}

/// The extension of a path (see `spec_extension`).
pub fn extension(s: &[char]) -> (r: Option<Vec<char>>)
    ensures
        match r {
            Some(e) => spec_extension(s@) == Some(e@),
            None => spec_extension(s@) is None,
        },
{
    match file_name(s) {
        Some(n) => name_ext(n.as_slice()),
        None => None,
    }
}

/// Whether component list `a` is a prefix of `b`.
pub fn comps_starts_with(b: &Vec<Vec<char>>, a: &Vec<Vec<char>>) -> (r: bool)
    ensures
        r == comps_prefix(texts_view(a@), texts_view(b@)),
{
    if a.len() > b.len() {
        return false;
    }
    let mut i: usize = 0;
    while i < a.len()
        invariant
            a.len() <= b.len(),
            i <= a.len(),
            forall|j: int| 0 <= j < i ==> a@[j]@ == b@[j]@,
        decreases a.len() - i,
    {
        if !chars_eq(a[i].as_slice(), b[i].as_slice()) {
            assert(texts_view(b@).take(a.len() as int)[i as int] != texts_view(a@)[i as int]);
            return false;
        }
        i = i + 1;
    }
    assert(texts_view(b@).take(a.len() as int) =~= texts_view(a@));
    true
}

} // verus!
