//! Text shortened to fit the palette's width.

use vstd::prelude::*;
use vstd::string::*;
use crate::line_editor::{utf8_len, utf8_width};
use crate::path::{path_comps, path_spans, texts_view, path_components, lemma_path_spans_bounds};
use crate::text::{chars_of, string_from_chars, append_chars, sub_chars, all_ascii};

verus! {

/// The last `n` characters of `s` behind `...`, when `s` is longer than that.
pub open spec fn elided_suffix(s: Seq<char>, n: int) -> Seq<char> {
    if s.len() > n {
        "..."@ + s.skip(s.len() - n)
    } else {
        s
    }
}

/// `max - 3`, or 0 below that.
pub open spec fn room_after_ellipsis(max: int) -> int {
    if max >= 3 {
        max - 3
    } else {
        0
    }
}

/// A path shortened to at most `max` bytes where it can be: the path itself
/// when it fits; else, with one or two components, its last component,
/// elided from the front when too long; with more, the first and last
/// components around `/.../`, else the last component, else that elided.
/// A path without components is left as it is.
pub open spec fn spec_shorten_path(p: Seq<char>, max: int) -> Seq<char> {
    if utf8_len(p) <= max {
        p
    } else {
        let c = path_comps(p);
        if c.len() == 0 {
            p
        } else if c.len() <= 2 {
            if utf8_len(c.last()) <= max {
                c.last()
            } else {
                elided_suffix(c.last(), room_after_ellipsis(max))
            }
        } else {
            let collapsed = c[0] + "/.../"@ + c.last();
            if utf8_len(collapsed) <= max {
                collapsed
            } else if utf8_len(c.last()) <= max {
                c.last()
            } else {
                elided_suffix(c.last(), room_after_ellipsis(max))
            }
        }
    }
}

/// Whether the UTF-8 encoding of `v` takes at most `max` bytes.
fn fits_in(v: &[char], max: usize) -> (r: bool)
    ensures
        r == (utf8_len(v@) <= max),
{
    let mut acc: usize = 0;
    let mut i: usize = 0;
    while i < v.len()
        invariant
            i <= v.len(),
            acc <= max,
            acc == utf8_len(v@.take(i as int)),
        decreases v.len() - i,
    {
        let cv = v[i] as u32;
        let w: usize = if cv < 0x80 {
            1
        } else if cv < 0x800 {
            2
        } else if cv < 0x10000 {
            3
        } else {
            4
        };
        assert(v@.take(i + 1).drop_last() =~= v@.take(i as int));
        assert(w == utf8_width(v@[i as int]));
        if w > max - acc {
            proof {
                lemma_utf8_len_monotone(v@, i + 1);
            }
            return false;
        }
        acc = acc + w;
        i = i + 1;
    }
    assert(v@.take(v.len() as int) =~= v@);
    true
}

proof fn lemma_utf8_len_monotone(s: Seq<char>, k: int)
    requires
        0 <= k <= s.len(),
    ensures
        utf8_len(s.take(k)) <= utf8_len(s),
    decreases s.len(),
{
    if k < s.len() {
        assert(s.drop_last().take(k) =~= s.take(k));
        lemma_utf8_len_monotone(s.drop_last(), k);
    } else {
        assert(s.take(k) =~= s);
    }
}

fn elide(s: &[char], n: usize) -> (r: String)
    ensures
        r@ == elided_suffix(s@, n as int),
{
    if s.len() > n {
        let mut out = String::from_str("...");
        proof {
            reveal_strlit("...");
        }
        let tail = sub_chars(s, s.len() - n, s.len());
        append_chars(&mut out, tail.as_slice());
        assert(tail@ =~= s@.skip(s@.len() - n));
        out
    } else {
        string_from_chars(s)
    }
}

/// Shortens a path to fit in `max_len` bytes where it can (see
/// `spec_shorten_path`).
pub fn shorten_path(path_str: &str, max_len: usize) -> (r: String)
    ensures
        r@ == spec_shorten_path(path_str@, max_len as int),
{
    let pc = chars_of(path_str);
    if fits_in(pc.as_slice(), max_len) {
        return string_from_chars(pc.as_slice());
    }
    let comps = path_components(pc.as_slice());
    let ghost c = path_comps(pc@);
    let n = comps.len();
    if n == 0 {
        return string_from_chars(pc.as_slice());
    }
    let last = &comps[n - 1];
    assert(last@ == c.last());
    let room = if max_len >= 3 {
        max_len - 3
    } else {
        0
    };
    if n <= 2 {
        if fits_in(last.as_slice(), max_len) {
            string_from_chars(last.as_slice())
        } else {
            elide(last.as_slice(), room)
        }
    } else {
        assert(comps@[0]@ == c[0]);
        let mut collapsed = string_from_chars(comps[0].as_slice());
        let mid = chars_of("/.../");
        append_chars(&mut collapsed, mid.as_slice());
        append_chars(&mut collapsed, last.as_slice());
        let cc = chars_of(collapsed.as_str());
        if fits_in(cc.as_slice(), max_len) {
            collapsed
        } else if fits_in(last.as_slice(), max_len) {
            string_from_chars(last.as_slice())
        } else {
            elide(last.as_slice(), room)
        }
    }
}


proof fn lemma_ascii_utf8_len(s: Seq<char>)
    requires
        all_ascii(s),
    ensures
        utf8_len(s) == s.len(),
    decreases s.len(),
{
    if s.len() > 0 {
        assert(all_ascii(s.drop_last()));
        lemma_ascii_utf8_len(s.drop_last());
        assert(crate::text::is_ascii_char(s[s.len() - 1]));
    }
}

/// A path in ASCII with at least one component, shortened for a width of at
/// least three bytes, fits in that width.
pub proof fn lemma_shortened_ascii_path_fits(p: Seq<char>, max: int)
    requires
        all_ascii(p),
        max >= 3,
        path_comps(p).len() > 0,
    ensures
        utf8_len(spec_shorten_path(p, max)) <= max,
{
    let c = path_comps(p);
    let sp = path_spans(p);
    lemma_path_spans_bounds(p);
    let k = c.len() - 1;
    assert(c.last() == p.subrange(sp[k].0, sp[k].1));
    let last = c.last();
    assert(all_ascii(last)) by {
        assert forall|i: int| 0 <= i < last.len() implies crate::text::is_ascii_char(#[trigger] last[i]) by {
            assert(last[i] == p[sp[k].0 + i]);
        }
    }
    lemma_ascii_utf8_len(last);
    let e = elided_suffix(last, room_after_ellipsis(max));
    if last.len() > max - 3 {
        let tail = last.skip(last.len() - (max - 3));
        assert(all_ascii(tail)) by {
            assert forall|i: int| 0 <= i < tail.len() implies crate::text::is_ascii_char(#[trigger] tail[i]) by {
                assert(tail[i] == last[last.len() - (max - 3) + i]);
            }
        }
        reveal_strlit("...");
        assert(all_ascii("..."@ + tail)) by {
            assert forall|i: int| 0 <= i < ("..."@ + tail).len() implies crate::text::is_ascii_char(#[trigger] ("..."@ + tail)[i]) by {
                if i >= 3 {
                    assert(("..."@ + tail)[i] == tail[i - 3]);
                }
            }
        }
        lemma_ascii_utf8_len("..."@ + tail);
    }
}

} // verus!
