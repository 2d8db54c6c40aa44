//! The prefetch window: which images to keep decoded around the current one.

use vstd::prelude::*;

verus! {

/// How many visible images on each side of the current one are prefetched.
pub const PREFETCH_RADIUS: usize = 2;

/// Whether image `idx` is visible under a visibility table (indices past its
/// end are not).
pub open spec fn visible_at(vis: Seq<bool>, idx: int) -> bool {
    0 <= idx < vis.len() && vis[idx]
}

/// The visible indices below `n`, ascending.
pub open spec fn visible_below(vis: Seq<bool>, n: int) -> Seq<usize>
    decreases n,
{
    if n <= 0 {
        Seq::empty()
    } else if visible_at(vis, n - 1) {
        visible_below(vis, n - 1).push((n - 1) as usize)
    } else {
        visible_below(vis, n - 1)
    }
}

/// The images a window around visible position `pos` covers: the visible
/// images at cyclic distance at most the prefetch radius from it.
pub open spec fn window_set(v: Seq<usize>, pos: int) -> Set<usize> {
    Set::new(
        |x: usize|
            exists|d: int|
                -2 <= d <= 2 && #[trigger] v[(pos + d) % (v.len() as int)] == x,
    )
}

/// Whether a sequence is strictly increasing.
pub open spec fn strictly_increasing(s: Seq<usize>) -> bool {
    forall|i: int, j: int| 0 <= i < j < s.len() ==> s[i] < s[j]
}

/// Position of `x` in `s`, if present.
pub open spec fn position_of(s: Seq<usize>, x: usize) -> Option<int> {
    if s.contains(x) {
        Some(choose|i: int| 0 <= i < s.len() && s[i] == x)
    } else {
        None
    }
}

/// The visible indices below `n` are ascending, visible and below `n`, and
/// include every visible index below `n`.
pub proof fn lemma_visible_below_props(vis: Seq<bool>, n: int)
    requires
        0 <= n <= usize::MAX,
    ensures
        strictly_increasing(visible_below(vis, n)),
        forall|k: int|
            0 <= k < visible_below(vis, n).len() ==> (#[trigger] visible_below(vis, n)[k]) < n
                && visible_at(vis, visible_below(vis, n)[k] as int),
        forall|x: int| 0 <= x < n && visible_at(vis, x) ==> visible_below(vis, n).contains(x as usize),
        visible_below(vis, n).len() <= n,
    decreases n,
{
    if n > 0 {
        lemma_visible_below_props(vis, n - 1);
        let prev = visible_below(vis, n - 1);
        if visible_at(vis, n - 1) {
            let cur = prev.push((n - 1) as usize);
            assert(cur[prev.len() as int] == (n - 1) as usize);
            assert forall|a: int, b: int| 0 <= a < b < cur.len() implies cur[a] < cur[b] by {
                if b == prev.len() {
                    assert(prev[a] < n - 1);
                } else {
                    assert(prev[a] < prev[b]);
                }
            }
            assert forall|x: int| 0 <= x < n && visible_at(vis, x) implies cur.contains(
                x as usize,
            ) by {
                if x < n - 1 {
                    let k = choose|k: int| 0 <= k < prev.len() && prev[k] == x as usize;
                    assert(cur[k] == x as usize);
                } else {
                    assert(cur[prev.len() as int] == x as usize);
                }
            }
        }
    }
}

/// The prefetch window around a visible current image holds that image, and
/// every image it holds is a visible one below the total.
pub proof fn lemma_window_holds_current_and_visible(vis: Seq<bool>, total: usize, current: usize)
    requires
        visible_below(vis, total as int).contains(current),
    ensures
        ({
            let v = visible_below(vis, total as int);
            let pos = position_of(v, current)->0;
            &&& window_set(v, pos).contains(current)
            &&& forall|x: usize|
                #[trigger] window_set(v, pos).contains(x) ==> x < total && visible_at(vis, x as int)
        }),
{
    let v = visible_below(vis, total as int);
    lemma_visible_below_props(vis, total as int);
    let pos = position_of(v, current)->0;
    assert(0 <= pos < v.len() && v[pos] == current);
    lemma_mod_is(pos, v.len() as int, 0, pos);
    assert(v[(pos + 0) % (v.len() as int)] == current);
    assert forall|x: usize| #[trigger] window_set(v, pos).contains(x) implies x < total && visible_at(
        vis,
        x as int,
    ) by {
        let d = choose|d: int| -2 <= d <= 2 && #[trigger] v[(pos + d) % (v.len() as int)] == x;
        let k = (pos + d) % (v.len() as int);
        assert(0 <= k < v.len());
        assert(v[k] == x);
    }
}

/// Inserts `x` into a strictly increasing vector, keeping it so.
fn insert_sorted(v: &mut Vec<usize>, x: usize)
    requires
        strictly_increasing(old(v)@),
    ensures
        strictly_increasing(final(v)@),
        final(v)@.to_set() == old(v)@.to_set().insert(x),
{
    let mut i: usize = 0;
    while i < v.len() && v[i] < x
        invariant
            i <= v.len(),
            forall|j: int| 0 <= j < i ==> v@[j] < x,
        decreases v.len() - i,
    {
        i = i + 1;
    }
    let ghost before = v@;
    if i < v.len() && v[i] == x {
        return;
    }
    v.insert(i, x);
    proof {
        assert(v@ =~= before.subrange(0, i as int).push(x) + before.subrange(i as int, before.len() as int));
        assert forall|a: int, b: int| 0 <= a < b < v@.len() implies v@[a] < v@[b] by {
            if b < i {
            } else if b == i {
            } else if a < i {
                assert(v@[b] == before[b - 1]);
            } else if a == i {
                assert(v@[b] == before[b - 1]);
                assert(before[i as int] > x);
                if b - 1 > i {
                    assert(before[i as int] < before[b - 1]);
                }
            } else {
                assert(v@[a] == before[a - 1]);
                assert(v@[b] == before[b - 1]);
            }
        }
        assert forall|y: usize| v@.to_set().contains(y) <==> before.to_set().insert(x).contains(y) by {
            if v@.to_set().contains(y) {
                let k = choose|k: int| 0 <= k < v@.len() && v@[k] == y;
                if k < i {
                    assert(before[k] == y);
                } else if k > i {
                    assert(before[k - 1] == y);
                }
            }
            if before.to_set().contains(y) {
                let k = choose|k: int| 0 <= k < before.len() && before[k] == y;
                if k < i {
                    assert(v@[k] == y);
                } else {
                    assert(v@[k + 1] == y);
                }
            }
            if y == x {
                assert(v@[i as int] == x);
            }
        }
        assert(v@.to_set() =~= before.to_set().insert(x));
    }
}

/// Position `d` steps away from `pos` in a cycle of length `t`.
fn cyclic_step(pos: usize, t: usize, back: bool, d: usize) -> (r: usize)
    requires
        pos < t,
        1 <= d <= 2,
    ensures
        r < t,
        back ==> r as int == (pos as int - d as int) % (t as int),
        !back ==> r as int == (pos as int + d as int) % (t as int),
{
    let k = d % t;
    proof {
        assert(k as int == (d as int) % (t as int));
        assert(0 <= k < t);
    }
    if back {
        if pos >= k {
            proof {
                lemma_cycle_back(pos as int, t as int, d as int);
            }
            pos - k
        } else {
            proof {
                lemma_cycle_back(pos as int, t as int, d as int);
            }
            pos + (t - k)
        }
    } else {
        proof {
            lemma_cycle_forward(pos as int, t as int, d as int);
        }
        if pos < t - k {
            pos + k
        } else {
            pos - (t - k)
        }
    }
}

proof fn lemma_mod_is(x: int, t: int, q: int, r: int)
    requires
        t > 0,
        0 <= r < t,
        x == q * t + r,
    ensures
        x % t == r,
{
    vstd::arithmetic::div_mod::lemma_fundamental_div_mod_converse(x, t, q, r);
}

proof fn lemma_cycle_back(pos: int, t: int, d: int)
    requires
        0 <= pos < t,
        1 <= d <= 2,
    ensures
        pos >= d % t ==> pos - d % t == (pos - d) % t,
        pos < d % t ==> pos + t - d % t == (pos - d) % t,
{
    if t == 1 {
        lemma_mod_is(d, t, d, 0);
        lemma_mod_is(pos - d, t, pos - d, 0);
    } else if t == 2 && d == 2 {
        lemma_mod_is(d, t, 1, 0);
        lemma_mod_is(pos - d, t, -1, pos);
    } else {
        lemma_mod_is(d, t, 0, d);
        if pos >= d {
            lemma_mod_is(pos - d, t, 0, pos - d);
        } else {
            lemma_mod_is(pos - d, t, -1, pos - d + t);
        }
    }
}

proof fn lemma_cycle_forward(pos: int, t: int, d: int)
    requires
        0 <= pos < t,
        1 <= d <= 2,
    ensures
        pos < t - d % t ==> pos + d % t == (pos + d) % t,
        pos >= t - d % t ==> pos - (t - d % t) == (pos + d) % t,
{
    if t == 1 {
        lemma_mod_is(d, t, d, 0);
        lemma_mod_is(pos + d, t, pos + d, 0);
    } else if t == 2 && d == 2 {
        lemma_mod_is(d, t, 1, 0);
        lemma_mod_is(pos + d, t, 1, pos);
    } else {
        lemma_mod_is(d, t, 0, d);
        if pos + d < t {
            lemma_mod_is(pos + d, t, 0, pos + d);
        } else {
            lemma_mod_is(pos + d, t, 1, pos + d - t);
        }
    }
}

/// The indices to keep decoded around `current_index`: the current image and
/// the visible images up to two visible positions before and after it,
/// wrapping around, in ascending order without repeats. Empty when no image
/// is visible or the current one is not.
pub fn get_sliding_window_indices(current_index: usize, total_images: usize, is_visible: &[bool]) -> (r: Vec<usize>)
    ensures
        ({
            let v = visible_below(is_visible@, total_images as int);
            match position_of(v, current_index) {
                None => r@.len() == 0,
                Some(pos) => strictly_increasing(r@) && r@.to_set() == window_set(v, pos),
            }
        }),
{
    let ghost vg = visible_below(is_visible@, total_images as int);
    proof {
        lemma_visible_below_props(is_visible@, total_images as int);
    }
    let mut visible: Vec<usize> = Vec::new();
    let mut idx: usize = 0;
    while idx < total_images
        invariant
            idx <= total_images,
            visible@ == visible_below(is_visible@, idx as int),
        decreases total_images - idx,
    {
        if idx < is_visible.len() && is_visible[idx] {
            visible.push(idx);
        }
        idx = idx + 1;
    }
    assert(visible@ == vg);
    let t = visible.len();
    let mut pos: usize = 0;
    while pos < t && visible[pos] != current_index
        invariant
            pos <= t,
            t == visible@.len(),
            forall|j: int| 0 <= j < pos ==> visible@[j] != current_index,
        decreases t - pos,
    {
        pos = pos + 1;
    }
    if pos == t {
        assert(!vg.contains(current_index));
        return Vec::new();
    }
    proof {
        let p = position_of(vg, current_index);
        assert(vg.contains(current_index));
        let k = choose|i: int| 0 <= i < vg.len() && vg[i] == current_index;
        if k != pos {
            if k < pos {
                assert(vg[k] < vg[pos as int]);
            } else {
                assert(vg[pos as int] < vg[k]);
            }
        }
        assert(p == Some(pos as int));
    }
    let mut out: Vec<usize> = Vec::new();
    let ghost ti = t as int;
    let ghost pi = pos as int;
    insert_sorted(&mut out, visible[pos]);
    proof {
        lemma_mod_is(pi, ti, 0, pi);
    }
    let p1 = cyclic_step(pos, t, true, 1);
    insert_sorted(&mut out, visible[p1]);
    let n1 = cyclic_step(pos, t, false, 1);
    insert_sorted(&mut out, visible[n1]);
    let p2 = cyclic_step(pos, t, true, 2);
    insert_sorted(&mut out, visible[p2]);
    let n2 = cyclic_step(pos, t, false, 2);
    insert_sorted(&mut out, visible[n2]);
    proof {
        let w = window_set(vg, pi);
        let got = Set::empty().insert(vg[pi]).insert(vg[p1 as int]).insert(vg[n1 as int]).insert(
            vg[p2 as int],
        ).insert(vg[n2 as int]);
        assert(Seq::<usize>::empty().to_set() =~= Set::<usize>::empty());
        assert(out@.to_set() == got);
        assert forall|x: usize| w.contains(x) <==> got.contains(x) by {
            if w.contains(x) {
                let d = choose|d: int| -2 <= d <= 2 && #[trigger] vg[(pi + d) % ti] == x;
                if d == 0 {
                    assert((pi + d) % ti == pi);
                } else if d == -1 {
                    assert((pi + d) % ti == (pi - 1) % ti);
                } else if d == -2 {
                    assert((pi + d) % ti == (pi - 2) % ti);
                }
            }
            if got.contains(x) {
                if x == vg[pi] {
                    assert(vg[(pi + 0) % ti] == x);
                } else if x == vg[p1 as int] {
                    assert(vg[(pi + -1) % ti] == x);
                } else if x == vg[n1 as int] {
                    assert(vg[(pi + 1) % ti] == x);
                } else if x == vg[p2 as int] {
                    assert(vg[(pi + -2) % ti] == x);
                } else {
                    assert(vg[(pi + 2) % ti] == x);
                }
            }
        }
        assert(out@.to_set() =~= w);
    }
    out
}

} // verus!
