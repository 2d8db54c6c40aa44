//! Carrying each image's flag and adjustments across a re-scan or an
//! import, by image identifier; states of images no longer listed are kept
//! aside (the "unmapped" states) when they hold anything.

use vstd::prelude::*;
use crate::classifications::Classification;
use crate::types::{Brightness, Rotation};

verus! {

/// The flag and adjustments of one image. `extra` is an adjustment the
/// caller keeps (the contrast), with whether it has its default value.
#[derive(Clone, Copy)]
pub struct ImageState<T> {
    pub class: Classification,
    pub brightness: Brightness,
    pub rotation: Rotation,
    pub extra: T,
    pub extra_is_default: bool,
}

/// Whether a state holds nothing: unflagged and unadjusted.
pub open spec fn is_blank<T>(s: ImageState<T>) -> bool {
    s.class == Classification::Unflagged && s.brightness == Brightness::spec_zero() && s.rotation
        == Rotation::D0 && s.extra_is_default
}

/// A list of (identifier, state) pairs as a map; a later pair overrides an
/// earlier one with the same identifier.
pub open spec fn pairs_map<T>(v: Seq<(Seq<char>, ImageState<T>)>) -> Map<Seq<char>, ImageState<T>>
    decreases v.len(),
{
    if v.len() == 0 {
        Map::empty()
    } else {
        pairs_map(v.drop_last()).insert(v.last().0, v.last().1)
    }
}

/// The identifiers and states of an image list, paired.
pub open spec fn zip_states<T>(ids: Seq<Seq<char>>, states: Seq<ImageState<T>>) -> Seq<(Seq<char>, ImageState<T>)> {
    Seq::new(ids.len(), |i: int| (ids[i], states[i]))
}

/// The states given to the first `n` new images, and what is left of the
/// old states and of the unmapped ones: each new image takes the old state
/// of its identifier (which is then used up), else the unmapped one (also
/// used up), else the blank state `dflt`.
pub open spec fn remap_prefix<T>(
    new_ids: Seq<Seq<char>>,
    old: Map<Seq<char>, ImageState<T>>,
    unmapped: Map<Seq<char>, ImageState<T>>,
    dflt: ImageState<T>,
    n: int,
) -> (Seq<ImageState<T>>, Map<Seq<char>, ImageState<T>>, Map<Seq<char>, ImageState<T>>)
    decreases n,
{
    if n <= 0 {
        (Seq::empty(), old, unmapped)
    } else {
        let r = remap_prefix(new_ids, old, unmapped, dflt, n - 1);
        let id = new_ids[n - 1];
        if r.1.dom().contains(id) {
            (r.0.push(r.1[id]), r.1.remove(id), r.2)
        } else if r.2.dom().contains(id) {
            (r.0.push(r.2[id]), r.1, r.2.remove(id))
        } else {
            (r.0.push(dflt), r.1, r.2)
        }
    }
}

/// The old states left over that hold something.
pub open spec fn kept_aside<T>(left: Map<Seq<char>, ImageState<T>>) -> Map<Seq<char>, ImageState<T>> {
    left.restrict(left.dom().filter(|k: Seq<char>| !is_blank(left[k])))
}

/// The result of a re-scan: the new images' states, and the unmapped states
/// afterwards (those not taken, plus the old states left over that hold
/// something).
pub open spec fn spec_remap<T>(
    old_ids: Seq<Seq<char>>,
    old_states: Seq<ImageState<T>>,
    new_ids: Seq<Seq<char>>,
    unmapped: Map<Seq<char>, ImageState<T>>,
    dflt: ImageState<T>,
) -> (Seq<ImageState<T>>, Map<Seq<char>, ImageState<T>>) {
    let r = remap_prefix(
        new_ids,
        pairs_map(zip_states(old_ids, old_states)),
        unmapped,
        dflt,
        new_ids.len() as int,
    );
    (r.0, r.2.union_prefer_right(kept_aside(r.1)))
}

/// An association list held in a vector, one pair per identifier.
pub open spec fn assoc_view<T>(v: Seq<(String, ImageState<T>)>) -> Map<Seq<char>, ImageState<T>> {
    Map::new(
        |k: Seq<char>| exists|i: int| 0 <= i < v.len() && v[i].0@ == k,
        |k: Seq<char>| v[choose|i: int| 0 <= i < v.len() && v[i].0@ == k].1,
    )
}

/// No identifier occurs twice.
pub open spec fn distinct_keys<T>(v: Seq<(String, ImageState<T>)>) -> bool {
    forall|i: int, j: int| 0 <= i < j < v.len() ==> v[i].0@ != v[j].0@
}

/// The identifiers of a vector of strings.
pub open spec fn ids_view(v: Seq<String>) -> Seq<Seq<char>> {
    v.map_values(|s: String| s@)
}

proof fn lemma_assoc_at<T>(v: Seq<(String, ImageState<T>)>, i: int)
    requires
        distinct_keys(v),
        0 <= i < v.len(),
    ensures
        assoc_view(v).dom().contains(v[i].0@),
        assoc_view(v)[v[i].0@] == v[i].1,
{
    let k = v[i].0@;
    assert(exists|j: int| 0 <= j < v.len() && v[j].0@ == k);
    let j = choose|j: int| 0 <= j < v.len() && v[j].0@ == k;
    if j != i {
        if j < i {
            assert(v[j].0@ != v[i].0@);
        } else {
            assert(v[i].0@ != v[j].0@);
        }
    }
}

/// The position of an identifier in an association list.
fn find_key<T>(v: &Vec<(String, ImageState<T>)>, key: &String) -> (r: Option<usize>)
    ensures
        match r {
            Some(i) => i < v@.len() && v@[i as int].0@ == key@,
            None => forall|i: int| 0 <= i < v@.len() ==> v@[i].0@ != key@,
        },
{
    let mut i: usize = 0;
    while i < v.len()
        invariant
            i <= v.len(),
            forall|j: int| 0 <= j < i ==> v@[j].0@ != key@,
        decreases v.len() - i,
    {
        if v[i].0 == *key {
            return Some(i);
        }
        i = i + 1;
    }
    None
}

proof fn lemma_assoc_absent<T>(v: Seq<(String, ImageState<T>)>, k: Seq<char>)
    requires
        forall|i: int| 0 <= i < v.len() ==> v[i].0@ != k,
    ensures
        !assoc_view(v).dom().contains(k),
{
}

proof fn lemma_assoc_set<T>(v: Seq<(String, ImageState<T>)>, i: int, s: ImageState<T>)
    requires
        distinct_keys(v),
        0 <= i < v.len(),
    ensures
        distinct_keys(v.update(i, (v[i].0, s))),
        assoc_view(v.update(i, (v[i].0, s))) == assoc_view(v).insert(v[i].0@, s),
{
    let w = v.update(i, (v[i].0, s));
    let k = v[i].0@;
    assert forall|a: int, b: int| 0 <= a < b < w.len() implies w[a].0@ != w[b].0@ by {
        assert(v[a].0@ != v[b].0@);
    }
    assert forall|key: Seq<char>| #[trigger] assoc_view(w).dom().contains(key) <==> assoc_view(v).insert(k, s).dom().contains(key) by {
        if assoc_view(w).dom().contains(key) {
            let j = choose|j: int| 0 <= j < w.len() && w[j].0@ == key;
            assert(v[j].0@ == key);
        }
        if assoc_view(v).dom().contains(key) && key != k {
            let j = choose|j: int| 0 <= j < v.len() && v[j].0@ == key;
            assert(w[j].0@ == key);
        }
        if key == k {
            assert(w[i].0@ == key);
        }
    }
    assert forall|key: Seq<char>| #[trigger] assoc_view(w).dom().contains(key) implies assoc_view(w)[key] == assoc_view(v).insert(k, s)[key] by {
        let j = choose|j: int| 0 <= j < w.len() && w[j].0@ == key;
        lemma_assoc_at(w, j);
        if j != i {
            lemma_assoc_at(v, j);
        }
    }
    assert(assoc_view(w) =~= assoc_view(v).insert(k, s));
}

proof fn lemma_assoc_push<T>(v: Seq<(String, ImageState<T>)>, key: String, s: ImageState<T>)
    requires
        distinct_keys(v),
        !assoc_view(v).dom().contains(key@),
    ensures
        distinct_keys(v.push((key, s))),
        assoc_view(v.push((key, s))) == assoc_view(v).insert(key@, s),
{
    let w = v.push((key, s));
    assert forall|a: int, b: int| 0 <= a < b < w.len() implies w[a].0@ != w[b].0@ by {
        if b == v.len() {
            if v[a].0@ == key@ {
                assert(assoc_view(v).dom().contains(key@));
            }
        } else {
            assert(v[a].0@ != v[b].0@);
        }
    }
    assert forall|k: Seq<char>| #[trigger] assoc_view(w).dom().contains(k) <==> assoc_view(v).insert(key@, s).dom().contains(k) by {
        if assoc_view(w).dom().contains(k) {
            let j = choose|j: int| 0 <= j < w.len() && w[j].0@ == k;
            if j < v.len() {
                assert(v[j].0@ == k);
            }
        }
        if assoc_view(v).dom().contains(k) {
            let j = choose|j: int| 0 <= j < v.len() && v[j].0@ == k;
            assert(w[j].0@ == k);
        }
        if k == key@ {
            assert(w[v.len() as int].0@ == k);
        }
    }
    assert forall|k: Seq<char>| #[trigger] assoc_view(w).dom().contains(k) implies assoc_view(w)[k] == assoc_view(v).insert(key@, s)[k] by {
        let j = choose|j: int| 0 <= j < w.len() && w[j].0@ == k;
        lemma_assoc_at(w, j);
        if j < v.len() {
            lemma_assoc_at(v, j);
        }
    }
    assert(assoc_view(w) =~= assoc_view(v).insert(key@, s));
}

proof fn lemma_assoc_remove<T>(v: Seq<(String, ImageState<T>)>, i: int)
    requires
        distinct_keys(v),
        0 <= i < v.len(),
    ensures
        distinct_keys(v.remove(i)),
        assoc_view(v.remove(i)) == assoc_view(v).remove(v[i].0@),
{
    let w = v.remove(i);
    let k = v[i].0@;
    assert forall|a: int, b: int| 0 <= a < b < w.len() implies w[a].0@ != w[b].0@ by {
        let a2 = if a < i { a } else { a + 1 };
        let b2 = if b < i { b } else { b + 1 };
        assert(w[a] == v[a2]);
        assert(w[b] == v[b2]);
        assert(v[a2].0@ != v[b2].0@);
    }
    assert forall|key: Seq<char>| #[trigger] assoc_view(w).dom().contains(key) <==> assoc_view(v).remove(k).dom().contains(key) by {
        if assoc_view(w).dom().contains(key) {
            let j = choose|j: int| 0 <= j < w.len() && w[j].0@ == key;
            let j2 = if j < i { j } else { j + 1 };
            assert(v[j2].0@ == key);
            assert(j2 != i);
            assert(v[i].0@ != v[j2].0@);
        }
        if assoc_view(v).dom().contains(key) && key != k {
            let j = choose|j: int| 0 <= j < v.len() && v[j].0@ == key;
            assert(j != i);
            let j2 = if j < i { j } else { j - 1 };
            assert(w[j2].0@ == key);
        }
    }
    assert forall|key: Seq<char>| #[trigger] assoc_view(w).dom().contains(key) implies assoc_view(w)[key] == assoc_view(v).remove(k)[key] by {
        let j = choose|j: int| 0 <= j < w.len() && w[j].0@ == key;
        lemma_assoc_at(w, j);
        let j2 = if j < i { j } else { j + 1 };
        assert(w[j] == v[j2]);
        lemma_assoc_at(v, j2);
    }
    assert(assoc_view(w) =~= assoc_view(v).remove(k));
}

/// Sets the state of an identifier in an association list.
fn assoc_insert<T: Copy>(v: &mut Vec<(String, ImageState<T>)>, key: String, s: ImageState<T>)
    requires
        distinct_keys(old(v)@),
    ensures
        distinct_keys(final(v)@),
        assoc_view(final(v)@) == assoc_view(old(v)@).insert(key@, s),
{
    match find_key(v, &key) {
        Some(i) => {
            proof {
                lemma_assoc_set(v@, i as int, s);
            }
            let k = v[i].0.clone();
            v.set(i, (k, s));
        },
        None => {
            proof {
                lemma_assoc_absent(v@, key@);
                lemma_assoc_push(v@, key, s);
            }
            v.push((key, s));
        },
    }
}

/// Takes the state of an identifier out of an association list.
fn assoc_take<T: Copy>(v: &mut Vec<(String, ImageState<T>)>, key: &String) -> (r: Option<ImageState<T>>)
    requires
        distinct_keys(old(v)@),
    ensures
        distinct_keys(final(v)@),
        match r {
            Some(s) => assoc_view(old(v)@).dom().contains(key@) && assoc_view(old(v)@)[key@] == s
                && assoc_view(final(v)@) == assoc_view(old(v)@).remove(key@),
            None => !assoc_view(old(v)@).dom().contains(key@) && final(v)@ == old(v)@,
        },
{
    match find_key(v, key) {
        Some(i) => {
            proof {
                lemma_assoc_at(v@, i as int);
                lemma_assoc_remove(v@, i as int);
            }
            let (_, s) = v.remove(i);
            Some(s)
        },
        None => {
            proof {
                lemma_assoc_absent(v@, key@);
            }
            None
        },
    }
}

/// The views of an association list's pairs.
pub open spec fn pairs_view<T>(v: Seq<(String, ImageState<T>)>) -> Seq<(Seq<char>, ImageState<T>)> {
    v.map_values(|p: (String, ImageState<T>)| (p.0@, p.1))
}

/// Carries states across a re-scan (see `spec_remap`). The unmapped states
/// are held as an association list, one pair per identifier.
pub fn remap_states<T: Copy>(
    old_ids: &Vec<String>,
    old_states: &Vec<ImageState<T>>,
    new_ids: &Vec<String>,
    unmapped: Vec<(String, ImageState<T>)>,
    dflt: ImageState<T>,
) -> (r: (Vec<ImageState<T>>, Vec<(String, ImageState<T>)>))
    requires
        old_ids.len() == old_states.len(),
        distinct_keys(unmapped@),
    ensures
        distinct_keys(r.1@),
        r.0@ == spec_remap(ids_view(old_ids@), old_states@, ids_view(new_ids@), assoc_view(unmapped@), dflt).0,
        assoc_view(r.1@) == spec_remap(ids_view(old_ids@), old_states@, ids_view(new_ids@), assoc_view(unmapped@), dflt).1,
{
    let ghost oz = zip_states(ids_view(old_ids@), old_states@);
    let mut old_map: Vec<(String, ImageState<T>)> = Vec::new();
    let mut i: usize = 0;
    while i < old_ids.len()
        invariant
            i <= old_ids.len(),
            old_ids.len() == old_states.len(),
            oz == zip_states(ids_view(old_ids@), old_states@),
            distinct_keys(old_map@),
            assoc_view(old_map@) == pairs_map(oz.take(i as int)),
        decreases old_ids.len() - i,
    {
        assert(oz.take(i + 1).drop_last() =~= oz.take(i as int));
        assert(oz.take(i + 1).last() == (old_ids@[i as int]@, old_states@[i as int]));
        assoc_insert(&mut old_map, old_ids[i].clone(), old_states[i]);
        i = i + 1;
    }
    assert(oz.take(old_ids.len() as int) =~= oz);
    let ghost nv = ids_view(new_ids@);
    let ghost om = pairs_map(oz);
    let ghost um = assoc_view(unmapped@);
    let mut unm = unmapped;
    let mut out: Vec<ImageState<T>> = Vec::new();
    let mut j: usize = 0;
    while j < new_ids.len()
        invariant
            j <= new_ids.len(),
            nv == ids_view(new_ids@),
            distinct_keys(old_map@),
            distinct_keys(unm@),
            remap_prefix(nv, om, um, dflt, j as int) == (out@, assoc_view(old_map@), assoc_view(unm@)),
        decreases new_ids.len() - j,
    {
        let id = &new_ids[j];
        assert(nv[j as int] == id@);
        match assoc_take(&mut old_map, id) {
            Some(s) => {
                out.push(s);
            },
            None => {
                match assoc_take(&mut unm, id) {
                    Some(s) => {
                        out.push(s);
                    },
                    None => {
                        out.push(dflt);
                    },
                }
            },
        }
        j = j + 1;
    }
    let ghost left = assoc_view(old_map@);
    let ghost before = assoc_view(unm@);
    let mut k: usize = 0;
    while k < old_map.len()
        invariant
            k <= old_map.len(),
            distinct_keys(old_map@),
            left == assoc_view(old_map@),
            distinct_keys(unm@),
            assoc_view(unm@) == before.union_prefer_right(
                kept_aside(left).restrict(
                    Set::new(|key: Seq<char>| exists|q: int| 0 <= q < k && old_map@[q].0@ == key),
                ),
            ),
        decreases old_map.len() - k,
    {
        let ghost pre = assoc_view(unm@);
        let s = old_map[k].1;
        let ghost key = old_map@[k as int].0@;
        proof {
            lemma_assoc_at(old_map@, k as int);
        }
        let blank = s.class == Classification::Unflagged && s.brightness == Brightness::zero() && s.rotation == Rotation::D0 && s.extra_is_default;
        if !blank {
            assoc_insert(&mut unm, old_map[k].0.clone(), s);
        }
        proof {
            let seen_old = Set::new(|x: Seq<char>| exists|q: int| 0 <= q < k && old_map@[q].0@ == x);
            let seen_new = Set::new(|x: Seq<char>| exists|q: int| 0 <= q < k + 1 && old_map@[q].0@ == x);
            let target = before.union_prefer_right(kept_aside(left).restrict(seen_new));
            assert forall|x: Seq<char>| #[trigger] assoc_view(unm@).dom().contains(x) <==> target.dom().contains(x) by {
                if seen_new.contains(x) && !seen_old.contains(x) {
                    assert(old_map@[k as int].0@ == x);
                }
                if x == key {
                    assert(seen_new.contains(x));
                }
                if seen_old.contains(x) {
                    assert(seen_new.contains(x));
                }
            }
            assert forall|x: Seq<char>| #[trigger] assoc_view(unm@).dom().contains(x) implies assoc_view(unm@)[x] == target[x] by {
                if seen_new.contains(x) && !seen_old.contains(x) {
                    assert(old_map@[k as int].0@ == x);
                }
                if x == key {
                    assert(seen_new.contains(x));
                }
                if seen_old.contains(x) {
                    assert(seen_new.contains(x));
                }
            }
            assert(assoc_view(unm@) =~= target);
        }
        k = k + 1;
    }
    proof {
        let all = Set::new(|key: Seq<char>| exists|q: int| 0 <= q < old_map@.len() && old_map@[q].0@ == key);
        assert(kept_aside(left).restrict(all) =~= kept_aside(left));
    }
    (out, unm)
}


/// Applying imported states to the first `n` images: an image whose
/// identifier is among the imported states takes that state (which is then
/// used up), and its identifier leaves the unmapped states.
pub open spec fn import_prefix<T>(
    ids: Seq<Seq<char>>,
    states: Seq<ImageState<T>>,
    imported: Map<Seq<char>, ImageState<T>>,
    unmapped: Map<Seq<char>, ImageState<T>>,
    n: int,
) -> (Seq<ImageState<T>>, Map<Seq<char>, ImageState<T>>, Map<Seq<char>, ImageState<T>>)
    decreases n,
{
    if n <= 0 {
        (states, imported, unmapped)
    } else {
        let r = import_prefix(ids, states, imported, unmapped, n - 1);
        let id = ids[n - 1];
        if r.1.dom().contains(id) {
            (r.0.update(n - 1, r.1[id]), r.1.remove(id), r.2.remove(id))
        } else {
            (r.0, r.1, r.2.remove(id))
        }
    }
}

/// The result of an import: the images' states, and the unmapped states
/// afterwards (those of identifiers not listed, then the imported states
/// no image took, which override them).
pub open spec fn spec_import<T>(
    ids: Seq<Seq<char>>,
    states: Seq<ImageState<T>>,
    imported: Map<Seq<char>, ImageState<T>>,
    unmapped: Map<Seq<char>, ImageState<T>>,
) -> (Seq<ImageState<T>>, Map<Seq<char>, ImageState<T>>) {
    let r = import_prefix(ids, states, imported, unmapped, ids.len() as int);
    (r.0, r.2.union_prefer_right(r.1))
}

/// Applies imported states to the images (see `spec_import`).
pub fn import_states<T: Copy>(
    ids: &Vec<String>,
    states: Vec<ImageState<T>>,
    imported: Vec<(String, ImageState<T>)>,
    unmapped: Vec<(String, ImageState<T>)>,
) -> (r: (Vec<ImageState<T>>, Vec<(String, ImageState<T>)>))
    requires
        ids.len() == states.len(),
        distinct_keys(imported@),
        distinct_keys(unmapped@),
    ensures
        distinct_keys(r.1@),
        r.0@ == spec_import(ids_view(ids@), states@, assoc_view(imported@), assoc_view(unmapped@)).0,
        assoc_view(r.1@) == spec_import(ids_view(ids@), states@, assoc_view(imported@), assoc_view(unmapped@)).1,
{
    let ghost iv = ids_view(ids@);
    let ghost s0 = states@;
    let ghost im0 = assoc_view(imported@);
    let ghost um0 = assoc_view(unmapped@);
    let mut states = states;
    let mut imp = imported;
    let mut unm = unmapped;
    let mut i: usize = 0;
    while i < ids.len()
        invariant
            i <= ids.len(),
            states@.len() == ids.len(),
            iv == ids_view(ids@),
            distinct_keys(imp@),
            distinct_keys(unm@),
            import_prefix(iv, s0, im0, um0, i as int) == (states@, assoc_view(imp@), assoc_view(unm@)),
        decreases ids.len() - i,
    {
        let id = &ids[i];
        assert(iv[i as int] == id@);
        match assoc_take(&mut imp, id) {
            Some(s) => {
                states.set(i, s);
            },
            None => {},
        }
        let ghost before = assoc_view(unm@);
        match assoc_take(&mut unm, id) {
            Some(_) => {},
            None => {
                assert(before.remove(id@) =~= before);
            },
        }
        i = i + 1;
    }
    let ghost left = assoc_view(imp@);
    let ghost base = assoc_view(unm@);
    let mut k: usize = 0;
    while k < imp.len()
        invariant
            k <= imp.len(),
            distinct_keys(imp@),
            left == assoc_view(imp@),
            distinct_keys(unm@),
            assoc_view(unm@) == base.union_prefer_right(
                left.restrict(Set::new(|key: Seq<char>| exists|q: int| 0 <= q < k && imp@[q].0@ == key)),
            ),
        decreases imp.len() - k,
    {
        let s = imp[k].1;
        let ghost key = imp@[k as int].0@;
        proof {
            lemma_assoc_at(imp@, k as int);
        }
        assoc_insert(&mut unm, imp[k].0.clone(), s);
        proof {
            let seen_old = Set::new(|x: Seq<char>| exists|q: int| 0 <= q < k && imp@[q].0@ == x);
            let seen_new = Set::new(|x: Seq<char>| exists|q: int| 0 <= q < k + 1 && imp@[q].0@ == x);
            let target = base.union_prefer_right(left.restrict(seen_new));
            assert forall|x: Seq<char>| #[trigger] assoc_view(unm@).dom().contains(x) <==> target.dom().contains(x) by {
                if seen_new.contains(x) && !seen_old.contains(x) {
                    assert(imp@[k as int].0@ == x);
                }
                if x == key {
                    assert(seen_new.contains(x));
                }
                if seen_old.contains(x) {
                    assert(seen_new.contains(x));
                }
            }
            assert forall|x: Seq<char>| #[trigger] assoc_view(unm@).dom().contains(x) implies assoc_view(unm@)[x] == target[x] by {
                if seen_new.contains(x) && !seen_old.contains(x) {
                    assert(imp@[k as int].0@ == x);
                }
                if x == key {
                    assert(seen_new.contains(x));
                }
                if seen_old.contains(x) {
                    assert(seen_new.contains(x));
                }
            }
            assert(assoc_view(unm@) =~= target);
        }
        k = k + 1;
    }
    proof {
        let all = Set::new(|key: Seq<char>| exists|q: int| 0 <= q < imp@.len() && imp@[q].0@ == key);
        assert(left.restrict(all) =~= left);
    }
    (states, unm)
}

/// Collects (identifier, state) pairs into an association list, a later
/// pair overriding an earlier one with the same identifier.
pub fn collect_pairs<T: Copy>(pairs: Vec<(String, ImageState<T>)>) -> (r: Vec<(String, ImageState<T>)>)
    ensures
        distinct_keys(r@),
        assoc_view(r@) == pairs_map(pairs_view(pairs@)),
{
    let ghost pv = pairs_view(pairs@);
    let mut out: Vec<(String, ImageState<T>)> = Vec::new();
    let mut i: usize = 0;
    while i < pairs.len()
        invariant
            i <= pairs.len(),
            pv == pairs_view(pairs@),
            distinct_keys(out@),
            assoc_view(out@) == pairs_map(pv.take(i as int)),
        decreases pairs.len() - i,
    {
        assert(pv.take(i + 1).drop_last() =~= pv.take(i as int));
        assert(pv.take(i + 1).last() == (pairs@[i as int].0@, pairs@[i as int].1));
        assoc_insert(&mut out, pairs[i].0.clone(), pairs[i].1);
        i = i + 1;
    }
    assert(pv.take(pairs.len() as int) =~= pv);
    out
}

/// Where the selection lands after a re-scan: on the previously selected
/// image's identifier if it is still listed (its first place), else at the
/// same index, kept inside the new list.
pub open spec fn spec_reselect(new_ids: Seq<Seq<char>>, current_id: Seq<char>, current: int) -> int {
    if new_ids.contains(current_id) {
        choose|i: int| 0 <= i < new_ids.len() && new_ids[i] == current_id && forall|j: int| 0 <= j < i ==> new_ids[j] != current_id
    } else if current < new_ids.len() - 1 {
        current
    } else {
        new_ids.len() - 1
    }
}

/// Where the selection lands after a re-scan (see `spec_reselect`).
pub fn reselect(new_ids: &Vec<String>, current_id: &String, current: usize) -> (r: usize)
    requires
        new_ids.len() > 0,
    ensures
        r as int == spec_reselect(ids_view(new_ids@), current_id@, current as int),
        r < new_ids.len(),
{
    let ghost nv = ids_view(new_ids@);
    let mut i: usize = 0;
    while i < new_ids.len()
        invariant
            i <= new_ids.len(),
            nv == ids_view(new_ids@),
            forall|j: int| 0 <= j < i ==> nv[j] != current_id@,
        decreases new_ids.len() - i,
    {
        if new_ids[i] == *current_id {
            proof {
                assert(nv[i as int] == current_id@);
                assert(nv.contains(current_id@));
                let c = choose|c: int| 0 <= c < nv.len() && nv[c] == current_id@ && forall|j: int| 0 <= j < c ==> nv[j] != current_id@;
                assert(exists|c: int| 0 <= c < nv.len() && nv[c] == current_id@ && forall|j: int| 0 <= j < c ==> nv[j] != current_id@);
                if c < i {
                } else if c > i {
                    assert(nv[i as int] != current_id@);
                }
            }
            return i;
        }
        i = i + 1;
    }
    proof {
        if nv.contains(current_id@) {
            let c = choose|c: int| 0 <= c < nv.len() && nv[c] == current_id@;
            assert(nv[c] != current_id@);
        }
    }
    if current < new_ids.len() - 1 {
        current
    } else {
        new_ids.len() - 1
    }
}


proof fn lemma_remap_prefix_props<T>(
    new_ids: Seq<Seq<char>>,
    old: Map<Seq<char>, ImageState<T>>,
    unm: Map<Seq<char>, ImageState<T>>,
    dflt: ImageState<T>,
    n: int,
)
    requires
        0 <= n <= new_ids.len(),
    ensures
        remap_prefix(new_ids, old, unm, dflt, n).0.len() == n,
        forall|k: Seq<char>|
            !new_ids.take(n).contains(k) ==> (#[trigger] remap_prefix(new_ids, old, unm, dflt, n).1.dom().contains(k)
                == old.dom().contains(k)),
        forall|k: Seq<char>|
            !new_ids.take(n).contains(k) && old.dom().contains(k) ==> #[trigger] remap_prefix(
                new_ids,
                old,
                unm,
                dflt,
                n,
            ).1[k] == old[k],
        forall|j: int|
            0 <= j < n && old.dom().contains(new_ids[j]) && !new_ids.take(j).contains(new_ids[j])
                ==> #[trigger] remap_prefix(new_ids, old, unm, dflt, n).0[j] == old[new_ids[j]],
    decreases n,
{
    if n > 0 {
        lemma_remap_prefix_props(new_ids, old, unm, dflt, n - 1);
        let p = remap_prefix(new_ids, old, unm, dflt, n - 1);
        let r = remap_prefix(new_ids, old, unm, dflt, n);
        let id = new_ids[n - 1];
        assert(new_ids.take(n) =~= new_ids.take(n - 1).push(id));
        assert forall|k: Seq<char>| !new_ids.take(n).contains(k) implies #[trigger] r.1.dom().contains(k)
            == old.dom().contains(k) by {
            assert(!new_ids.take(n - 1).contains(k)) by {
                if new_ids.take(n - 1).contains(k) {
                    let q = choose|q: int| 0 <= q < new_ids.take(n - 1).len() && #[trigger] new_ids.take(n - 1)[q] == k;
                    assert(new_ids.take(n)[q] == k);
                }
            }
            assert(new_ids.take(n)[n - 1] == id);
        }
        assert forall|k: Seq<char>| !new_ids.take(n).contains(k) && old.dom().contains(k) implies #[trigger] r.1[k] == old[k] by {
            assert(!new_ids.take(n - 1).contains(k)) by {
                if new_ids.take(n - 1).contains(k) {
                    let q = choose|q: int| 0 <= q < new_ids.take(n - 1).len() && #[trigger] new_ids.take(n - 1)[q] == k;
                    assert(new_ids.take(n)[q] == k);
                }
            }
            assert(new_ids.take(n)[n - 1] == id);
        }
        assert forall|j: int|
            0 <= j < n && old.dom().contains(new_ids[j]) && !new_ids.take(j).contains(new_ids[j])
                implies #[trigger] r.0[j] == old[new_ids[j]] by {
            if j < n - 1 {
                assert(r.0[j] == p.0[j]);
            } else {
                assert(new_ids.take(j) =~= new_ids.take(n - 1));
            }
        }
    }
}

proof fn lemma_pairs_map_dom<T>(ids: Seq<Seq<char>>, states: Seq<ImageState<T>>, n: int)
    requires
        ids.len() == states.len(),
        0 <= n <= ids.len(),
    ensures
        forall|k: Seq<char>| #[trigger] pairs_map(zip_states(ids, states).take(n)).dom().contains(k)
            <==> ids.take(n).contains(k),
    decreases n,
{
    if n > 0 {
        lemma_pairs_map_dom(ids, states, n - 1);
        let z = zip_states(ids, states);
        assert(z.take(n).drop_last() =~= z.take(n - 1));
        assert(z.take(n).last() == z[n - 1]);
        assert(z[n - 1].0 == ids[n - 1]);
        assert(pairs_map(z.take(n)) == pairs_map(z.take(n - 1)).insert(ids[n - 1], states[n - 1]));
        assert(ids.take(n) =~= ids.take(n - 1).push(ids[n - 1]));
        assert forall|k: Seq<char>| #[trigger] pairs_map(z.take(n)).dom().contains(k) <==> ids.take(n).contains(k) by {
            if ids.take(n - 1).contains(k) {
                let q = choose|q: int| 0 <= q < ids.take(n - 1).len() && #[trigger] ids.take(n - 1)[q] == k;
                assert(ids.take(n)[q] == k);
            }
            if ids.take(n).contains(k) && k != ids[n - 1] {
                let q = choose|q: int| 0 <= q < ids.take(n).len() && #[trigger] ids.take(n)[q] == k;
                assert(ids.take(n - 1)[q] == k);
            }
            assert(ids.take(n)[n - 1] == ids[n - 1]);
        }
    } else {
        assert(ids.take(0) =~= Seq::<Seq<char>>::empty());
    }
}

/// After a re-scan, an image whose identifier was listed before, at its
/// first place in the new list, keeps the state it had (the state of the
/// identifier's last place in the old list).
pub proof fn lemma_remap_keeps_listed<T>(
    old_ids: Seq<Seq<char>>,
    old_states: Seq<ImageState<T>>,
    new_ids: Seq<Seq<char>>,
    unmapped: Map<Seq<char>, ImageState<T>>,
    dflt: ImageState<T>,
    j: int,
)
    requires
        old_ids.len() == old_states.len(),
        0 <= j < new_ids.len(),
        old_ids.contains(new_ids[j]),
        !new_ids.take(j).contains(new_ids[j]),
    ensures
        spec_remap(old_ids, old_states, new_ids, unmapped, dflt).0[j] == pairs_map(
            zip_states(old_ids, old_states),
        )[new_ids[j]],
{
    let z = zip_states(old_ids, old_states);
    lemma_pairs_map_dom(old_ids, old_states, old_ids.len() as int);
    assert(z.take(old_ids.len() as int) =~= z);
    assert(old_ids.take(old_ids.len() as int) =~= old_ids);
    lemma_remap_prefix_props(new_ids, pairs_map(z), unmapped, dflt, new_ids.len() as int);
}

/// After a re-scan, the flag and adjustments of an image no longer listed
/// are kept among the unmapped states, when it had any.
pub proof fn lemma_remap_keeps_unlisted<T>(
    old_ids: Seq<Seq<char>>,
    old_states: Seq<ImageState<T>>,
    new_ids: Seq<Seq<char>>,
    unmapped: Map<Seq<char>, ImageState<T>>,
    dflt: ImageState<T>,
    id: Seq<char>,
)
    requires
        old_ids.len() == old_states.len(),
        old_ids.contains(id),
        !new_ids.contains(id),
        !is_blank(pairs_map(zip_states(old_ids, old_states))[id]),
    ensures
        spec_remap(old_ids, old_states, new_ids, unmapped, dflt).1.dom().contains(id),
        spec_remap(old_ids, old_states, new_ids, unmapped, dflt).1[id] == pairs_map(
            zip_states(old_ids, old_states),
        )[id],
{
    let z = zip_states(old_ids, old_states);
    lemma_pairs_map_dom(old_ids, old_states, old_ids.len() as int);
    assert(z.take(old_ids.len() as int) =~= z);
    assert(old_ids.take(old_ids.len() as int) =~= old_ids);
    assert(new_ids.take(new_ids.len() as int) =~= new_ids);
    lemma_remap_prefix_props(new_ids, pairs_map(z), unmapped, dflt, new_ids.len() as int);
    let r = remap_prefix(new_ids, pairs_map(z), unmapped, dflt, new_ids.len() as int);
    assert(r.1.dom().contains(id));
    assert(kept_aside(r.1).dom().contains(id));
}


proof fn lemma_take_step(s: Seq<Seq<char>>, n: int, k: Seq<char>)
    requires
        0 < n <= s.len(),
    ensures
        s.take(n).contains(k) <==> (s.take(n - 1).contains(k) || s[n - 1] == k),
{
    assert(s.take(n) =~= s.take(n - 1).push(s[n - 1]));
    if s.take(n - 1).contains(k) {
        let q = choose|q: int| 0 <= q < s.take(n - 1).len() && #[trigger] s.take(n - 1)[q] == k;
        assert(s.take(n)[q] == k);
    }
    assert(s.take(n)[n - 1] == s[n - 1]);
    if s.take(n).contains(k) && s[n - 1] != k {
        let q = choose|q: int| 0 <= q < s.take(n).len() && #[trigger] s.take(n)[q] == k;
        assert(s.take(n - 1)[q] == k);
    }
}

/// How a re-scan uses the unmapped states of identifiers that had no old
/// state: one still to come keeps its unmapped state, one already listed has
/// taken it (at its first place) and left the unmapped states.
proof fn lemma_remap_prefix_unmapped<T>(
    new_ids: Seq<Seq<char>>,
    old: Map<Seq<char>, ImageState<T>>,
    unm: Map<Seq<char>, ImageState<T>>,
    dflt: ImageState<T>,
    n: int,
)
    requires
        0 <= n <= new_ids.len(),
    ensures
        forall|k: Seq<char>|
            !old.dom().contains(k) ==> !(#[trigger] remap_prefix(new_ids, old, unm, dflt, n).1.dom().contains(k)),
        forall|k: Seq<char>|
            !old.dom().contains(k) && !new_ids.take(n).contains(k) ==> (#[trigger] remap_prefix(
                new_ids,
                old,
                unm,
                dflt,
                n,
            ).2.dom().contains(k) == unm.dom().contains(k)),
        forall|k: Seq<char>|
            !old.dom().contains(k) && !new_ids.take(n).contains(k) && unm.dom().contains(k)
                ==> #[trigger] remap_prefix(new_ids, old, unm, dflt, n).2[k] == unm[k],
        forall|k: Seq<char>|
            !old.dom().contains(k) && new_ids.take(n).contains(k) ==> !(#[trigger] remap_prefix(
                new_ids,
                old,
                unm,
                dflt,
                n,
            ).2.dom().contains(k)),
        forall|j: int|
            0 <= j < n && !old.dom().contains(new_ids[j]) && unm.dom().contains(new_ids[j])
                && !new_ids.take(j).contains(new_ids[j]) ==> #[trigger] remap_prefix(
                new_ids,
                old,
                unm,
                dflt,
                n,
            ).0[j] == unm[new_ids[j]],
    decreases n,
{
    if n > 0 {
        lemma_remap_prefix_unmapped(new_ids, old, unm, dflt, n - 1);
        lemma_remap_prefix_props(new_ids, old, unm, dflt, n - 1);
        let p = remap_prefix(new_ids, old, unm, dflt, n - 1);
        let r = remap_prefix(new_ids, old, unm, dflt, n);
        let id = new_ids[n - 1];
        assert forall|k: Seq<char>| !old.dom().contains(k) && !new_ids.take(n).contains(k) implies (
        #[trigger] r.2.dom().contains(k) == unm.dom().contains(k)) && (unm.dom().contains(k) ==> r.2[k]
            == unm[k]) by {
            lemma_take_step(new_ids, n, k);
        }
        assert forall|k: Seq<char>| !old.dom().contains(k) && !new_ids.take(n).contains(k) && unm.dom().contains(k)
            implies #[trigger] r.2[k] == unm[k] by {
            lemma_take_step(new_ids, n, k);
        }
        assert forall|k: Seq<char>| !old.dom().contains(k) && new_ids.take(n).contains(k) implies !(
        #[trigger] r.2.dom().contains(k)) by {
            lemma_take_step(new_ids, n, k);
        }
        assert forall|j: int|
            0 <= j < n && !old.dom().contains(new_ids[j]) && unm.dom().contains(new_ids[j])
                && !new_ids.take(j).contains(new_ids[j]) implies #[trigger] r.0[j] == unm[new_ids[j]] by {
            if j < n - 1 {
                assert(r.0[j] == p.0[j]);
            } else {
                assert(new_ids.take(j) =~= new_ids.take(n - 1));
            }
        }
    }
}

/// A re-scan that loses an image and a later one that finds it again give
/// it back its flag and adjustments: the state an image had before it
/// vanished (when it held something) is the state it has at its first place
/// in the list where it reappears, and it is then no longer among the
/// unmapped states.
pub proof fn lemma_remap_round_trip<T>(
    ids0: Seq<Seq<char>>,
    states0: Seq<ImageState<T>>,
    ids1: Seq<Seq<char>>,
    unmapped: Map<Seq<char>, ImageState<T>>,
    ids2: Seq<Seq<char>>,
    dflt: ImageState<T>,
    id: Seq<char>,
    j: int,
)
    requires
        ids0.len() == states0.len(),
        ids0.contains(id),
        !ids1.contains(id),
        !is_blank(pairs_map(zip_states(ids0, states0))[id]),
        0 <= j < ids2.len(),
        ids2[j] == id,
        !ids2.take(j).contains(id),
    ensures
        ({
            let first = spec_remap(ids0, states0, ids1, unmapped, dflt);
            let second = spec_remap(ids1, first.0, ids2, first.1, dflt);
            &&& second.0[j] == pairs_map(zip_states(ids0, states0))[id]
            &&& !second.1.dom().contains(id)
        }),
{
    let first = spec_remap(ids0, states0, ids1, unmapped, dflt);
    lemma_remap_keeps_unlisted(ids0, states0, ids1, unmapped, dflt, id);
    let z0 = zip_states(ids0, states0);
    lemma_remap_prefix_props(ids1, pairs_map(z0), unmapped, dflt, ids1.len() as int);
    let z1 = zip_states(ids1, first.0);
    lemma_pairs_map_dom(ids1, first.0, ids1.len() as int);
    assert(z1.take(ids1.len() as int) =~= z1);
    assert(ids1.take(ids1.len() as int) =~= ids1);
    let old1 = pairs_map(z1);
    assert(!old1.dom().contains(id));
    lemma_remap_prefix_unmapped(ids2, old1, first.1, dflt, ids2.len() as int);
    lemma_remap_prefix_props(ids2, old1, first.1, dflt, ids2.len() as int);
    let r = remap_prefix(ids2, old1, first.1, dflt, ids2.len() as int);
    assert(ids2.take(ids2.len() as int)[j] == id);
    assert(ids2.take(ids2.len() as int).contains(id));
    assert(!r.1.dom().contains(id));
    assert(!kept_aside(r.1).dom().contains(id));
    assert(!r.2.dom().contains(id));
}

proof fn lemma_import_prefix_props<T>(
    ids: Seq<Seq<char>>,
    states: Seq<ImageState<T>>,
    imported: Map<Seq<char>, ImageState<T>>,
    unm: Map<Seq<char>, ImageState<T>>,
    n: int,
)
    requires
        0 <= n <= ids.len(),
        ids.len() == states.len(),
    ensures
        import_prefix(ids, states, imported, unm, n).0.len() == states.len(),
        forall|k: Seq<char>|
            !ids.take(n).contains(k) ==> (#[trigger] import_prefix(ids, states, imported, unm, n).1.dom().contains(k)
                == imported.dom().contains(k)),
        forall|k: Seq<char>|
            !ids.take(n).contains(k) && imported.dom().contains(k) ==> #[trigger] import_prefix(
                ids,
                states,
                imported,
                unm,
                n,
            ).1[k] == imported[k],
        forall|j: int|
            0 <= j < n && imported.dom().contains(ids[j]) && !ids.take(j).contains(ids[j])
                ==> #[trigger] import_prefix(ids, states, imported, unm, n).0[j] == imported[ids[j]],
        forall|k: Seq<char>|
            #[trigger] import_prefix(ids, states, imported, unm, n).1.dom().contains(k) ==> imported.dom().contains(k),
        forall|j: int|
            0 <= j < states.len() && (j >= n || !imported.dom().contains(ids[j])) ==> #[trigger] import_prefix(
                ids,
                states,
                imported,
                unm,
                n,
            ).0[j] == states[j],
    decreases n,
{
    if n > 0 {
        lemma_import_prefix_props(ids, states, imported, unm, n - 1);
        let p = import_prefix(ids, states, imported, unm, n - 1);
        let r = import_prefix(ids, states, imported, unm, n);
        let id = ids[n - 1];
        assert(ids.take(n) =~= ids.take(n - 1).push(id));
        assert forall|k: Seq<char>| !ids.take(n).contains(k) implies !ids.take(n - 1).contains(k) && k != id by {
            if ids.take(n - 1).contains(k) {
                let q = choose|q: int| 0 <= q < ids.take(n - 1).len() && #[trigger] ids.take(n - 1)[q] == k;
                assert(ids.take(n)[q] == k);
            }
            assert(ids.take(n)[n - 1] == id);
        }
        assert forall|j: int|
            0 <= j < n && imported.dom().contains(ids[j]) && !ids.take(j).contains(ids[j])
                implies #[trigger] r.0[j] == imported[ids[j]] by {
            if j < n - 1 {
                assert(ids.take(n - 1)[j] == ids[j]);
                assert(ids.take(n - 1).contains(ids[j]));
                assert(r.0[j] == p.0[j]);
            } else {
                assert(ids.take(j) =~= ids.take(n - 1));
            }
        }
    }
}

/// A key whose pairs all carry one state maps to that state.
pub(crate) proof fn lemma_pairs_map_hit<T>(v: Seq<(Seq<char>, ImageState<T>)>, k: Seq<char>, val: ImageState<T>)
    requires
        exists|i: int| 0 <= i < v.len() && (#[trigger] v[i]).0 == k,
        forall|i: int| 0 <= i < v.len() && (#[trigger] v[i]).0 == k ==> v[i].1 == val,
    ensures
        pairs_map(v).dom().contains(k),
        pairs_map(v)[k] == val,
    decreases v.len(),
{
    let n = v.len() - 1;
    if v[n].0 != k {
        let w = v.drop_last();
        let i = choose|i: int| 0 <= i < v.len() && (#[trigger] v[i]).0 == k;
        assert(w[i] == v[i]);
        assert forall|q: int| 0 <= q < w.len() && (#[trigger] w[q]).0 == k implies w[q].1 == val by {
            assert(w[q] == v[q]);
        }
        lemma_pairs_map_hit(w, k, val);
    }
}

/// A key no pair carries is not mapped.
pub(crate) proof fn lemma_pairs_map_miss<T>(v: Seq<(Seq<char>, ImageState<T>)>, k: Seq<char>)
    requires
        forall|i: int| 0 <= i < v.len() ==> (#[trigger] v[i]).0 != k,
    ensures
        !pairs_map(v).dom().contains(k),
    decreases v.len(),
{
    if v.len() > 0 {
        let w = v.drop_last();
        assert forall|i: int| 0 <= i < w.len() implies (#[trigger] w[i]).0 != k by {
            assert(w[i] == v[i]);
        }
        lemma_pairs_map_miss(w, k);
        assert(v[v.len() - 1].0 != k);
    }
}

/// After an import, an image whose identifier is not among the imported
/// states keeps its state.
pub proof fn lemma_import_keeps_unnamed<T>(
    ids: Seq<Seq<char>>,
    states: Seq<ImageState<T>>,
    imported: Map<Seq<char>, ImageState<T>>,
    unmapped: Map<Seq<char>, ImageState<T>>,
    j: int,
)
    requires
        ids.len() == states.len(),
        0 <= j < ids.len(),
        !imported.dom().contains(ids[j]),
    ensures
        spec_import(ids, states, imported, unmapped).0[j] == states[j],
{
    lemma_import_prefix_props(ids, states, imported, unmapped, ids.len() as int);
}

/// After an import, an image whose identifier is among the imported states,
/// at its first place in the list, takes the imported state.
pub proof fn lemma_import_applies<T>(
    ids: Seq<Seq<char>>,
    states: Seq<ImageState<T>>,
    imported: Map<Seq<char>, ImageState<T>>,
    unmapped: Map<Seq<char>, ImageState<T>>,
    j: int,
)
    requires
        ids.len() == states.len(),
        0 <= j < ids.len(),
        imported.dom().contains(ids[j]),
        !ids.take(j).contains(ids[j]),
    ensures
        spec_import(ids, states, imported, unmapped).0[j] == imported[ids[j]],
{
    lemma_import_prefix_props(ids, states, imported, unmapped, ids.len() as int);
}

} // verus!
