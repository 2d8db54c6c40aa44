//! Fuzzy search over the queue's files and the command list: candidates are
//! scored by nucleo and listed best score first, then in list order.

use vstd::prelude::*;
use vstd::multiset::Multiset;
use crate::commands::{Command, PaletteCommand, spec_all_commands, spec_search_text, all_commands, palette_command, palette_entry_ok};
use crate::source::strings_view;

verus! {

broadcast use vstd::seq_lib::group_to_multiset_ensures;

/// A fuzzy matching engine.
#[verifier::external_type_specification]
#[verifier::external_body]
pub struct ExMatcher(nucleo::Matcher);

/// A fuzzy matcher with nucleo's default configuration; only `new` makes one.
pub struct FuzzyMatcher {
    inner: nucleo::Matcher,
}

/// The score nucleo's matcher, in its default configuration, gives `text`
/// for `query` read as a pattern (case ignored, smart normalization); `None`
/// when the text does not match.
pub uninterp spec fn fuzzy_score(query: Seq<char>, text: Seq<char>) -> Option<u32>;

/// `nucleo::Matcher::new` with `nucleo::Config::DEFAULT`.
#[verifier::external_body]
fn default_matcher() -> nucleo::Matcher {
    nucleo::Matcher::new(nucleo::Config::DEFAULT)
}

/// `nucleo::pattern::Pattern::parse` (case ignored, smart normalization)
/// followed by `Pattern::score` of the text. Every matcher this library
/// makes has the default configuration, and `score` sets the case and
/// normalization settings itself, so the score is believed to depend on the
/// query and the text alone.
#[verifier::external_body]
fn match_score(m: &mut nucleo::Matcher, query: &str, text: &str) -> (r: Option<u32>)
    ensures
        r == fuzzy_score(query@, text@),
{
    let pattern = nucleo::pattern::Pattern::parse(
        query,
        nucleo::pattern::CaseMatching::Ignore,
        nucleo::pattern::Normalization::Smart,
    );
    pattern.score(nucleo::Utf32Str::new(text, &mut Vec::new()), m)
}

impl FuzzyMatcher {
    /// A matcher with the default configuration.
    pub fn new() -> Self {
        FuzzyMatcher { inner: default_matcher() }
    }
}

/// A candidate and its score.
pub type Scored = (usize, u32);

/// Candidate `a` is listed before `b`: a higher score, or an equal score
/// and an earlier position.
pub open spec fn ranks_before(a: Scored, b: Scored) -> bool {
    a.1 > b.1 || (a.1 == b.1 && a.0 < b.0)
}

/// Inserts `x` into a ranked sequence after every candidate ranked before it.
pub open spec fn insert_ranked(s: Seq<Scored>, x: Scored) -> Seq<Scored>
    decreases s.len(),
{
    if s.len() == 0 {
        seq![x]
    } else if ranks_before(x, s.last()) {
        insert_ranked(s.drop_last(), x).push(s.last())
    } else {
        s.push(x)
    }
}

/// Candidates in ranking order.
pub open spec fn rank(s: Seq<Scored>) -> Seq<Scored>
    decreases s.len(),
{
    if s.len() == 0 {
        s
    } else {
        insert_ranked(rank(s.drop_last()), s.last())
    }
}

/// Whether a sequence is in ranking order.
pub open spec fn ranked(s: Seq<Scored>) -> bool {
    forall|i: int, j: int| 0 <= i < j < s.len() ==> !ranks_before(#[trigger] s[j], #[trigger] s[i])
}

proof fn lemma_insert_ranked_props(s: Seq<Scored>, x: Scored)
    requires
        ranked(s),
    ensures
        ranked(insert_ranked(s, x)),
        insert_ranked(s, x).to_multiset() == s.to_multiset().insert(x),
    decreases s.len(),
{
    if s.len() == 0 {
        assert(seq![x] =~= Seq::<Scored>::empty().push(x));
        assert(Seq::<Scored>::empty().to_multiset() =~= Multiset::<Scored>::empty());
    } else if ranks_before(x, s.last()) {
        let p = s.drop_last();
        let l = s.last();
        lemma_insert_ranked_props(p, x);
        let q = insert_ranked(p, x);
        assert(s =~= p.push(l));
        assert forall|i: int, j: int| 0 <= i < j < q.push(l).len() implies !ranks_before(
            #[trigger] q.push(l)[j],
            #[trigger] q.push(l)[i],
        ) by {
            if j == q.len() {
                let e = q[i];
                assert(q.to_multiset().count(e) > 0);
                if e != x {
                    assert(p.to_multiset().count(e) > 0);
                    assert(p.contains(e));
                    let k = choose|k: int| 0 <= k < p.len() && p[k] == e;
                    assert(s[k] == e);
                    assert(s[s.len() - 1] == l);
                }
            }
        }
    } else {
        assert forall|i: int, j: int| 0 <= i < j < s.push(x).len() implies !ranks_before(
            #[trigger] s.push(x)[j],
            #[trigger] s.push(x)[i],
        ) by {
            if j == s.len() && i < s.len() - 1 {
                assert(!ranks_before(s[s.len() - 1], s[i]));
            }
        }
    }
}

/// Ranking puts candidates in ranking order and keeps them all.
pub proof fn lemma_rank_sorted_permutation(s: Seq<Scored>)
    ensures
        ranked(rank(s)),
        rank(s).to_multiset() == s.to_multiset(),
    decreases s.len(),
{
    if s.len() > 0 {
        lemma_rank_sorted_permutation(s.drop_last());
        lemma_insert_ranked_props(rank(s.drop_last()), s.last());
        assert(s =~= s.drop_last().push(s.last()));
    }
}

proof fn lemma_insert_ranked_at(s: Seq<Scored>, x: Scored, pos: int)
    requires
        0 <= pos <= s.len(),
        forall|j: int| pos <= j < s.len() ==> ranks_before(x, #[trigger] s[j]),
        pos > 0 ==> !ranks_before(x, s[pos - 1]),
    ensures
        insert_ranked(s, x) == s.insert(pos, x),
    decreases s.len(),
{
    if s.len() == 0 {
        assert(s.insert(pos, x) =~= seq![x]);
    } else if pos == s.len() {
        assert(s.insert(pos, x) =~= s.push(x));
    } else {
        lemma_insert_ranked_at(s.drop_last(), x, pos);
        assert(s.drop_last().insert(pos, x).push(s.last()) =~= s.insert(pos, x));
    }
}

/// Ranks scored candidates (see `rank`).
fn rank_candidates(v: &Vec<Scored>) -> (r: Vec<Scored>)
    ensures
        r@ == rank(v@),
{
    let mut out: Vec<Scored> = Vec::new();
    let mut i: usize = 0;
    while i < v.len()
        invariant
            i <= v.len(),
            out@ == rank(v@.take(i as int)),
        decreases v.len() - i,
    {
        let x = v[i];
        let ghost before = out@;
        let mut pos = out.len();
        while pos > 0 && (x.1 > out[pos - 1].1 || (x.1 == out[pos - 1].1 && x.0 < out[pos - 1].0))
            invariant
                pos <= out@.len(),
                out@ == before,
                forall|j: int| pos <= j < out@.len() ==> ranks_before(x, #[trigger] out@[j]),
            decreases pos,
        {
            pos = pos - 1;
        }
        proof {
            lemma_insert_ranked_at(before, x, pos as int);
            assert(v@.take(i + 1).drop_last() =~= v@.take(i as int));
            assert(v@.take(i + 1).last() == x);
        }
        out.insert(pos, x);
        i = i + 1;
    }
    assert(v@.take(v.len() as int) =~= v@);
    out
}

/// Whether a candidate position is visible (positions past the table are not).
pub open spec fn vis_at(vis: Seq<bool>, i: int) -> bool {
    0 <= i < vis.len() && vis[i]
}

/// The visible candidates among `texts[0..n]` that match the query, with
/// their scores, in list order.
pub open spec fn scored_below(query: Seq<char>, texts: Seq<Seq<char>>, vis: Seq<bool>, n: int) -> Seq<Scored>
    decreases n,
{
    if n <= 0 {
        Seq::empty()
    } else {
        let rest = scored_below(query, texts, vis, n - 1);
        if vis_at(vis, n - 1) && fuzzy_score(query, texts[n - 1]) is Some {
            rest.push(((n - 1) as usize, fuzzy_score(query, texts[n - 1])->0))
        } else {
            rest
        }
    }
}

/// The visible positions below `n`, in order.
pub open spec fn visible_positions(vis: Seq<bool>, n: int) -> Seq<usize>
    decreases n,
{
    if n <= 0 {
        Seq::empty()
    } else if vis_at(vis, n - 1) {
        visible_positions(vis, n - 1).push((n - 1) as usize)
    } else {
        visible_positions(vis, n - 1)
    }
}

/// The files a query finds: with an empty query every visible file in
/// queue order; otherwise the visible files whose lower-case path matches,
/// best score first, then in queue order. Each with its (shown) path.
pub open spec fn spec_filter_files(query: Seq<char>, names: Seq<Seq<char>>, lower: Seq<Seq<char>>, vis: Seq<bool>) -> Seq<(usize, Seq<char>)> {
    if query.len() == 0 {
        visible_positions(vis, names.len() as int).map_values(|i: usize| (i, names[i as int]))
    } else {
        rank(scored_below(query, lower, vis, lower.len() as int)).map_values(
            |c: Scored| (c.0, names[c.0 as int]),
        )
    }
}

/// The views of a list of (index, path) pairs.
pub open spec fn pairs_view(v: Seq<(usize, String)>) -> Seq<(usize, Seq<char>)> {
    v.map_values(|p: (usize, String)| (p.0, p.1@))
}

/// The files a query finds (see `spec_filter_files`).
pub fn filter_files(
    query: &str,
    display_names: &Vec<String>,
    display_names_lowercase: &Vec<String>,
    matcher: &mut FuzzyMatcher,
    visibility: &Vec<bool>,
) -> (r: Vec<(usize, String)>)
    requires
        display_names.len() == display_names_lowercase.len(),
    ensures
        pairs_view(r@) == spec_filter_files(
            query@,
            strings_view(display_names@),
            strings_view(display_names_lowercase@),
            visibility@,
        ),
{
    let ghost names = strings_view(display_names@);
    let ghost lower = strings_view(display_names_lowercase@);
    let n = display_names.len();
    let qlen = crate::text::chars_of(query).len();
    if qlen == 0 {
        let mut out: Vec<(usize, String)> = Vec::new();
        let mut i: usize = 0;
        while i < n
            invariant
                i <= n,
                n == names.len(),
                names == strings_view(display_names@),
                pairs_view(out@) == visible_positions(visibility@, i as int).map_values(
                    |k: usize| (k, names[k as int]),
                ),
            decreases n - i,
        {
            let ghost before = out@;
            if i < visibility.len() && visibility[i] {
                let name = display_names[i].clone();
                assert(name@ == names[i as int]);
                out.push((i, name));
                assert(visible_positions(visibility@, i + 1) == visible_positions(visibility@, i as int).push(i));
                assert(pairs_view(out@) =~= pairs_view(before).push((i, names[i as int])));
                assert(pairs_view(out@) =~= visible_positions(visibility@, i + 1).map_values(
                    |k: usize| (k, names[k as int]),
                ));
            } else {
                assert(visible_positions(visibility@, i + 1) == visible_positions(visibility@, i as int));
            }
            i = i + 1;
        }
        return out;
    }
    let mut scored: Vec<Scored> = Vec::new();
    let mut i: usize = 0;
    while i < n
        invariant
            i <= n,
            n == lower.len(),
            lower == strings_view(display_names_lowercase@),
            scored@ == scored_below(query@, lower, visibility@, i as int),
        decreases n - i,
    {
        if i < visibility.len() && visibility[i] {
            match match_score(&mut matcher.inner, query, display_names_lowercase[i].as_str()) {
                Some(sc) => {
                    scored.push((i, sc));
                },
                None => {},
            }
        }
        i = i + 1;
    }
    let ranked_list = rank_candidates(&scored);
    proof {
        lemma_rank_sorted_permutation(scored@);
        assert forall|k: int| 0 <= k < ranked_list@.len() implies (#[trigger] ranked_list@[k]).0 < n by {
            let c = ranked_list@[k];
            assert(ranked_list@.to_multiset().count(c) > 0);
            assert(scored@.to_multiset().count(c) > 0);
            assert(scored@.contains(c));
            lemma_scored_below_bound(query@, lower, visibility@, n as int);
        }
    }
    let mut out: Vec<(usize, String)> = Vec::new();
    let mut j: usize = 0;
    while j < ranked_list.len()
        invariant
            j <= ranked_list.len(),
            n == display_names.len(),
            names == strings_view(display_names@),
            forall|k: int| 0 <= k < ranked_list@.len() ==> (#[trigger] ranked_list@[k]).0 < n,
            pairs_view(out@) == ranked_list@.take(j as int).map_values(
                |c: Scored| (c.0, names[c.0 as int]),
            ),
        decreases ranked_list.len() - j,
    {
        let c = ranked_list[j];
        let ghost before = out@;
        let name = display_names[c.0].clone();
        assert(name@ == names[c.0 as int]);
        out.push((c.0, name));
        assert(pairs_view(out@) =~= pairs_view(before).push((c.0, names[c.0 as int])));
        assert(ranked_list@.take(j + 1) =~= ranked_list@.take(j as int).push(c));
        j = j + 1;
        assert(pairs_view(out@) =~= ranked_list@.take(j as int).map_values(
            |c: Scored| (c.0, names[c.0 as int]),
        ));
    }
    assert(ranked_list@.take(ranked_list@.len() as int) =~= ranked_list@);
    out
}

proof fn lemma_scored_below_bound(query: Seq<char>, texts: Seq<Seq<char>>, vis: Seq<bool>, n: int)
    ensures
        forall|c: Scored| #[trigger] scored_below(query, texts, vis, n).contains(c) ==> c.0 < n,
    decreases n,
{
    if n > 0 {
        lemma_scored_below_bound(query, texts, vis, n - 1);
        let rest = scored_below(query, texts, vis, n - 1);
        assert forall|c: Scored| #[trigger] scored_below(query, texts, vis, n).contains(c) implies c.0 < n by {
            if vis_at(vis, n - 1) && fuzzy_score(query, texts[n - 1]) is Some {
                let s = rest.push(((n - 1) as usize, fuzzy_score(query, texts[n - 1])->0));
                let k = choose|k: int| 0 <= k < s.len() && s[k] == c;
                if k < rest.len() {
                    assert(rest.contains(c));
                }
            } else {
                assert(rest.contains(c));
            }
        }
    }
}

/// The search texts of the registry's commands.
pub open spec fn command_texts() -> Seq<Seq<char>> {
    spec_all_commands().map_values(|c: Command| spec_search_text(c))
}

/// The commands a query finds: with an empty query every command in
/// declaration order; otherwise those whose search text matches, best score
/// first, then in declaration order.
pub open spec fn spec_filter_commands(query: Seq<char>) -> Seq<Command> {
    let all = spec_all_commands();
    if query.len() == 0 {
        all
    } else {
        rank(
            scored_below(
                query,
                command_texts(),
                Seq::new(all.len(), |i: int| true),
                all.len() as int,
            ),
        ).map_values(|c: Scored| all[c.0 as int])
    }
}

/// The commands of a list of palette entries.
pub open spec fn palette_cmds(v: Seq<PaletteCommand>) -> Seq<Command> {
    v.map_values(|p: PaletteCommand| p.cmd)
}

/// The commands a query finds (see `spec_filter_commands`), as palette entries.
pub fn filter_commands(query: &str, matcher: &mut FuzzyMatcher) -> (r: Vec<PaletteCommand>)
    ensures
        palette_cmds(r@) == spec_filter_commands(query@),
        forall|i: int| 0 <= i < r@.len() ==> palette_entry_ok(#[trigger] r@[i]),
{
    let cmds = all_commands();
    let n = cmds.len();
    let ghost all = spec_all_commands();
    let qlen = crate::text::chars_of(query).len();
    let mut out: Vec<PaletteCommand> = Vec::new();
    if qlen == 0 {
        let mut i: usize = 0;
        while i < n
            invariant
                i <= n,
                cmds@ == all,
                all == spec_all_commands(),
                n == all.len(),
                palette_cmds(out@) == all.take(i as int),
                forall|k: int| 0 <= k < out@.len() ==> palette_entry_ok(#[trigger] out@[k]),
            decreases n - i,
        {
            let ghost before = out@;
            out.push(palette_command(cmds[i]));
            assert(palette_cmds(out@) =~= palette_cmds(before).push(all[i as int]));
            assert(all.take(i + 1) =~= all.take(i as int).push(all[i as int]));
            i = i + 1;
            assert(palette_cmds(out@) =~= all.take(i as int));
        }
        assert(all.take(n as int) =~= all);
        return out;
    }
    let ghost vis = Seq::new(all.len(), |i: int| true);
    let mut scored: Vec<Scored> = Vec::new();
    let mut i: usize = 0;
    while i < n
        invariant
            i <= n,
            cmds@ == all,
            all == spec_all_commands(),
            n == all.len(),
            vis == Seq::new(all.len(), |i: int| true),
            scored@ == scored_below(query@, command_texts(), vis, i as int),
        decreases n - i,
    {
        let entry = palette_command(cmds[i]);
        assert(command_texts().len() == all.len());
        assert(command_texts()[i as int] == entry.search_text@);
        match match_score(&mut matcher.inner, query, entry.search_text.as_str()) {
            Some(sc) => {
                scored.push((i, sc));
            },
            None => {},
        }
        assert(vis_at(vis, i as int));
        i = i + 1;
    }
    let ranked_list = rank_candidates(&scored);
    proof {
        lemma_rank_sorted_permutation(scored@);
        assert forall|k: int| 0 <= k < ranked_list@.len() implies (#[trigger] ranked_list@[k]).0 < n by {
            let c = ranked_list@[k];
            assert(ranked_list@.to_multiset().count(c) > 0);
            assert(scored@.to_multiset().count(c) > 0);
            assert(scored@.contains(c));
            lemma_scored_below_bound(query@, command_texts(), vis, n as int);
        }
    }
    let mut j: usize = 0;
    while j < ranked_list.len()
        invariant
            j <= ranked_list.len(),
            cmds@ == all,
            all == spec_all_commands(),
            n == all.len(),
            forall|k: int| 0 <= k < ranked_list@.len() ==> (#[trigger] ranked_list@[k]).0 < n,
            palette_cmds(out@) == ranked_list@.take(j as int).map_values(|c: Scored| all[c.0 as int]),
            forall|k: int| 0 <= k < out@.len() ==> palette_entry_ok(#[trigger] out@[k]),
        decreases ranked_list.len() - j,
    {
        let c = ranked_list[j];
        let ghost before = out@;
        out.push(palette_command(cmds[c.0]));
        assert(palette_cmds(out@) =~= palette_cmds(before).push(all[c.0 as int]));
        assert(ranked_list@.take(j + 1) =~= ranked_list@.take(j as int).push(c));
        j = j + 1;
        assert(palette_cmds(out@) =~= ranked_list@.take(j as int).map_values(
            |c: Scored| all[c.0 as int],
        ));
    }
    assert(ranked_list@.take(ranked_list@.len() as int) =~= ranked_list@);
    out
}


proof fn lemma_visible_positions_bound(vis: Seq<bool>, n: int)
    requires
        n <= usize::MAX,
    ensures
        forall|k: int| 0 <= k < visible_positions(vis, n).len() ==> (#[trigger] visible_positions(vis, n)[k]) < n,
    decreases n,
{
    if n > 0 {
        lemma_visible_positions_bound(vis, n - 1);
        let prev = visible_positions(vis, n - 1);
        if vis_at(vis, n - 1) {
            let cur = prev.push((n - 1) as usize);
            assert(cur[prev.len() as int] == (n - 1) as usize);
            assert forall|k: int| 0 <= k < cur.len() implies (#[trigger] cur[k]) < n by {
                if k < prev.len() {
                    assert(cur[k] == prev[k]);
                }
            }
        }
    }
}

/// Every file a query finds is one of the listed files.
pub proof fn lemma_filter_files_in_range(query: Seq<char>, names: Seq<Seq<char>>, lower: Seq<Seq<char>>, vis: Seq<bool>)
    requires
        names.len() == lower.len(),
        names.len() <= usize::MAX,
    ensures
        forall|k: int|
            0 <= k < spec_filter_files(query, names, lower, vis).len() ==> (#[trigger] spec_filter_files(
                query,
                names,
                lower,
                vis,
            )[k]).0 < names.len(),
{
    if query.len() == 0 {
        lemma_visible_positions_bound(vis, names.len() as int);
    } else {
        let sc = scored_below(query, lower, vis, lower.len() as int);
        lemma_rank_sorted_permutation(sc);
        lemma_scored_below_bound(query, lower, vis, lower.len() as int);
        assert forall|k: int| 0 <= k < rank(sc).len() implies (#[trigger] rank(sc)[k]).0 < names.len() by {
            let c = rank(sc)[k];
            assert(rank(sc).to_multiset().count(c) > 0);
            assert(sc.to_multiset().count(c) > 0);
            assert(sc.contains(c));
        }
    }
}

} // verus!
