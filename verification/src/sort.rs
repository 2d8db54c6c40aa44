//! Stable sorting of texts by a text key, the order `str` and `OsStr`
//! comparisons give: lexicographic by character, an absent key first.

use vstd::prelude::*;
use vstd::multiset::Multiset;

verus! {

broadcast use vstd::seq_lib::group_to_multiset_ensures;

/// Lexicographic order on character sequences, by code point.
pub open spec fn seq_lt(a: Seq<char>, b: Seq<char>) -> bool
    decreases a.len(),
{
    if a.len() == 0 {
        b.len() > 0
    } else if b.len() == 0 {
        false
    } else if a[0] != b[0] {
        a[0] < b[0]
    } else {
        seq_lt(a.drop_first(), b.drop_first())
    }
}

/// An item to sort: whether it has a key, the key, and the text it stands for.
pub type Keyed = (bool, Seq<char>, Seq<char>);

/// Item order: an absent key before any present one, then by key.
pub open spec fn keyed_lt(a: Keyed, b: Keyed) -> bool {
    (!a.0 && b.0) || (a.0 == b.0 && seq_lt(a.1, b.1))
}

/// Inserts `x` into a sorted sequence after every item not greater than it.
pub open spec fn insert_stable(s: Seq<Keyed>, x: Keyed) -> Seq<Keyed>
    decreases s.len(),
{
    if s.len() == 0 {
        seq![x]
    } else if keyed_lt(x, s.last()) {
        insert_stable(s.drop_last(), x).push(s.last())
    } else {
        s.push(x)
    }
}

/// The stable sort of a sequence: items in key order, items with equal
/// keys in their original order.
pub open spec fn sort_stable(s: Seq<Keyed>) -> Seq<Keyed>
    decreases s.len(),
{
    if s.len() == 0 {
        s
    } else {
        insert_stable(sort_stable(s.drop_last()), s.last())
    }
}

/// Whether a sequence is in key order.
pub open spec fn sorted_by_key(s: Seq<Keyed>) -> bool {
    forall|i: int, j: int| 0 <= i < j < s.len() ==> !keyed_lt(#[trigger] s[j], #[trigger] s[i])
}

proof fn lemma_seq_lt_irreflexive(a: Seq<char>)
    ensures
        !seq_lt(a, a),
    decreases a.len(),
{
    if a.len() > 0 {
        lemma_seq_lt_irreflexive(a.drop_first());
    }
}

proof fn lemma_seq_lt_total(a: Seq<char>, b: Seq<char>)
    ensures
        seq_lt(a, b) || seq_lt(b, a) || a == b,
    decreases a.len(),
{
    if a.len() > 0 && b.len() > 0 && a[0] == b[0] {
        lemma_seq_lt_total(a.drop_first(), b.drop_first());
        if a.drop_first() == b.drop_first() {
            assert(a =~= seq![a[0]] + a.drop_first());
            assert(b =~= seq![b[0]] + b.drop_first());
        }
    } else if a.len() == 0 && b.len() == 0 {
        assert(a =~= b);
    }
}

proof fn lemma_seq_lt_trans(a: Seq<char>, b: Seq<char>, c: Seq<char>)
    requires
        seq_lt(a, b),
        seq_lt(b, c),
    ensures
        seq_lt(a, c),
    decreases a.len(),
{
    if a.len() > 0 && b.len() > 0 && c.len() > 0 && a[0] == b[0] && b[0] == c[0] {
        lemma_seq_lt_trans(a.drop_first(), b.drop_first(), c.drop_first());
    }
}

/// Not greater: the negation of the order the other way round.
proof fn lemma_keyed_le_trans(a: Keyed, b: Keyed, c: Keyed)
    requires
        !keyed_lt(b, a),
        !keyed_lt(c, b),
    ensures
        !keyed_lt(c, a),
{
    lemma_seq_lt_total(a.1, b.1);
    lemma_seq_lt_total(b.1, c.1);
    lemma_seq_lt_total(a.1, c.1);
    if keyed_lt(c, a) {
        if a.0 == b.0 && b.0 == c.0 {
            if seq_lt(c.1, a.1) {
                if seq_lt(a.1, b.1) {
                    lemma_seq_lt_trans(c.1, a.1, b.1);
                } else if a.1 == b.1 {
                } else {
                }
            }
        }
    }
}

proof fn lemma_keyed_lt_to_le(a: Keyed, b: Keyed)
    requires
        keyed_lt(a, b),
    ensures
        !keyed_lt(b, a),
{
    if a.0 == b.0 {
        lemma_seq_lt_total(a.1, b.1);
        if seq_lt(b.1, a.1) {
            lemma_seq_lt_trans(a.1, b.1, a.1);
            lemma_seq_lt_irreflexive(a.1);
        }
    }
}

proof fn lemma_insert_stable_props(s: Seq<Keyed>, x: Keyed)
    requires
        sorted_by_key(s),
    ensures
        sorted_by_key(insert_stable(s, x)),
        insert_stable(s, x).to_multiset() == s.to_multiset().insert(x),
    decreases s.len(),
{
    if s.len() == 0 {
        assert(seq![x] =~= Seq::<Keyed>::empty().push(x));
        assert(Seq::<Keyed>::empty().to_multiset() =~= Multiset::<Keyed>::empty());
    } else if keyed_lt(x, s.last()) {
        let p = s.drop_last();
        let l = s.last();
        assert(sorted_by_key(p));
        lemma_insert_stable_props(p, x);
        let q = insert_stable(p, x);
        assert(s =~= p.push(l));
        assert forall|i: int, j: int| 0 <= i < j < q.push(l).len() implies !keyed_lt(
            #[trigger] q.push(l)[j],
            #[trigger] q.push(l)[i],
        ) by {
            if j == q.len() {
                let e = q[i];
                assert(q.to_multiset().count(e) > 0);
                if e == x {
                    lemma_keyed_lt_to_le(x, l);
                } else {
                    assert(p.to_multiset().count(e) > 0);
                    assert(p.contains(e));
                    let k = choose|k: int| 0 <= k < p.len() && p[k] == e;
                    assert(s[k] == e);
                    assert(s[s.len() - 1] == l);
                }
            }
        }
    } else {
        let l = s.last();
        assert forall|i: int, j: int| 0 <= i < j < s.push(x).len() implies !keyed_lt(
            #[trigger] s.push(x)[j],
            #[trigger] s.push(x)[i],
        ) by {
            if j == s.len() {
                if i < s.len() - 1 {
                    assert(!keyed_lt(s[s.len() - 1], s[i]));
                    lemma_keyed_le_trans(s[i], l, x);
                }
            }
        }
    }
}

/// The stable sort puts a sequence in key order and keeps its items.
pub proof fn lemma_sort_stable_sorted_permutation(s: Seq<Keyed>)
    ensures
        sorted_by_key(sort_stable(s)),
        sort_stable(s).to_multiset() == s.to_multiset(),
    decreases s.len(),
{
    if s.len() == 0 {
    } else {
        lemma_sort_stable_sorted_permutation(s.drop_last());
        lemma_insert_stable_props(sort_stable(s.drop_last()), s.last());
        assert(s =~= s.drop_last().push(s.last()));
    }
}

/// An item to sort, held in executable form.
pub struct SortEntry {
    /// Whether the item has a key.
    pub present: bool,
    /// The key.
    pub key: Vec<char>,
    /// The text the item stands for.
    pub value: String,
}

/// The items of a vector of entries.
pub open spec fn entries_view(v: Seq<SortEntry>) -> Seq<Keyed> {
    v.map_values(|e: SortEntry| (e.present, e.key@, e.value@))
}

/// The texts of a sequence of items.
pub open spec fn values_of(s: Seq<Keyed>) -> Seq<Seq<char>> {
    s.map_values(|k: Keyed| k.2)
}

fn chars_lt(a: &[char], b: &[char]) -> (r: bool)
    ensures
        r == seq_lt(a@, b@),
{
    let mut i: usize = 0;
    assert(a@.skip(0) =~= a@);
    assert(b@.skip(0) =~= b@);
    while i < a.len() && i < b.len()
        invariant
            i <= a.len(),
            i <= b.len(),
            seq_lt(a@, b@) == seq_lt(a@.skip(i as int), b@.skip(i as int)),
        decreases a.len() - i,
    {
        let ghost sa = a@.skip(i as int);
        let ghost sb = b@.skip(i as int);
        assert(sa[0] == a@[i as int] && sb[0] == b@[i as int]);
        if a[i] != b[i] {
            return a[i] < b[i];
        }
        assert(sa.drop_first() =~= a@.skip(i + 1));
        assert(sb.drop_first() =~= b@.skip(i + 1));
        i = i + 1;
    }
    b.len() > i
}

fn entry_lt(a: &SortEntry, b: &SortEntry) -> (r: bool)
    ensures
        r == keyed_lt((a.present, a.key@, a.value@), (b.present, b.key@, b.value@)),
{
    (!a.present && b.present) || (a.present == b.present && chars_lt(
        a.key.as_slice(),
        b.key.as_slice(),
    ))
}

proof fn lemma_insert_at(s: Seq<Keyed>, x: Keyed, pos: int)
    requires
        0 <= pos <= s.len(),
        forall|j: int| pos <= j < s.len() ==> keyed_lt(x, #[trigger] s[j]),
        pos > 0 ==> !keyed_lt(x, s[pos - 1]),
    ensures
        insert_stable(s, x) == s.insert(pos, x),
    decreases s.len(),
{
    if s.len() == 0 {
        assert(s.insert(pos, x) =~= seq![x]);
    } else if pos == s.len() {
        assert(s.insert(pos, x) =~= s.push(x));
    } else {
        assert(keyed_lt(x, s.last()));
        lemma_insert_at(s.drop_last(), x, pos);
        assert(s.drop_last().insert(pos, x).push(s.last()) =~= s.insert(pos, x));
    }
}

/// Sorts entries stably by key (see `sort_stable`).
pub fn sort_entries(v: Vec<SortEntry>) -> (r: Vec<SortEntry>)
    ensures
        entries_view(r@) == sort_stable(entries_view(v@)),
{
    let ghost all = entries_view(v@);
    let mut rest = v;
    let mut out: Vec<SortEntry> = Vec::new();
    let n = rest.len();
    let mut i: usize = 0;
    assert(all.take(0) =~= Seq::<Keyed>::empty());
    while i < n
        invariant
            i <= n,
            n == all.len(),
            rest@.len() == n - i,
            entries_view(rest@) == all.skip(i as int),
            entries_view(out@) == sort_stable(all.take(i as int)),
        decreases n - i,
    {
        let ghost before = out@;
        let ghost rv = rest@;
        let x = rest.remove(0);
        assert(entries_view(rest@) =~= entries_view(rv).drop_first());
        let ghost xk = (x.present, x.key@, x.value@);
        assert(all.skip(i as int)[0] == xk);
        let mut pos = out.len();
        loop
            invariant
                pos <= out@.len(),
                out@ == before,
                xk == (x.present, x.key@, x.value@),
                forall|j: int|
                    pos <= j < out@.len() ==> keyed_lt(xk, #[trigger] entries_view(out@)[j]),
            ensures
                pos <= out@.len(),
                out@ == before,
                forall|j: int|
                    pos <= j < out@.len() ==> keyed_lt(xk, #[trigger] entries_view(out@)[j]),
                pos > 0 ==> !keyed_lt(xk, entries_view(out@)[pos - 1]),
            decreases pos,
        {
            if pos == 0 {
                break;
            }
            let lt = entry_lt(&x, &out[pos - 1]);
            assert(entries_view(out@)[pos - 1] == (
            out@[pos - 1].present,
            out@[pos - 1].key@,
            out@[pos - 1].value@,
            ));
            if !lt {
                break;
            }
            pos = pos - 1;
        }
        proof {
            lemma_insert_at(entries_view(before), xk, pos as int);
            assert(all.take(i + 1).drop_last() =~= all.take(i as int));
            assert(all.take(i + 1).last() == xk);
        }
        out.insert(pos, x);
        assert(entries_view(out@) =~= entries_view(before).insert(pos as int, xk));
        assert(all.skip(i as int).drop_first() =~= all.skip(i + 1));
        i = i + 1;
    }
    assert(all.take(n as int) =~= all);
    out
}

} // verus!
