//! Pick / reject flags, view filters over them, and the text form in which
//! flags are exported and imported.

use vstd::prelude::*;
use vstd::string::*;
use crate::text::{
    chars_of, trim_chars, sub_chars, uppercase_chars, lowercase_chars, chars_eq_str,
    find_char_from, index_of, lemma_index_of, trim, case_upper, case_lower, string_from_chars,
    append_chars,
};

verus! {

/// The flag state of an image.
#[derive(Debug, Clone, Copy, PartialEq, Eq, Structural)]
pub enum Classification {
    Unflagged,
    Pick,
    Reject,
}

impl Classification {
    /// Icon shown next to the file name.
    pub fn icon(&self) -> (r: &'static str)
        ensures
            r@ == (match self {
                Classification::Unflagged => "⚪"@,
                Classification::Pick => "⭐"@,
                Classification::Reject => "❌"@,
            }),
    {
        match self {
            Classification::Unflagged => "⚪",
            Classification::Pick => "⭐",
            Classification::Reject => "❌",
        }
    }

    /// Icon and word, as shown in the details dialog.
    pub fn display_label(&self) -> (r: &'static str)
        ensures
            r@ == (match self {
                Classification::Unflagged => "⚪ Unflagged"@,
                Classification::Pick => "⭐ Pick"@,
                Classification::Reject => "❌ Reject"@,
            }),
    {
        match self {
            Classification::Unflagged => "⚪ Unflagged",
            Classification::Pick => "⭐ Pick",
            Classification::Reject => "❌ Reject",
        }
    }

    /// Prefix shown in front of a file in the file search list.
    pub fn search_prefix(&self) -> (r: &'static str)
        ensures
            r@ == (match self {
                Classification::Unflagged => "   "@,
                Classification::Pick => "⭐ "@,
                Classification::Reject => "❌ "@,
            }),
    {
        match self {
            Classification::Unflagged => "   ",
            Classification::Pick => "⭐ ",
            Classification::Reject => "❌ ",
        }
    }

    /// The word that names the flag in the text format.
    pub fn state_word(&self) -> (r: &'static str)
        ensures
            r@ == state_word(*self),
    {
        match self {
            Classification::Pick => "PICK",
            Classification::Reject => "REJECT",
            Classification::Unflagged => "UNFLAGGED",
        }
    }

    /// The flag value written to the JSON manifest.
    pub fn json_flag(&self) -> (r: &'static str)
        ensures
            r@ == json_flag(*self),
    {
        match self {
            Classification::Pick => "picked",
            Classification::Reject => "rejected",
            Classification::Unflagged => "unflagged",
        }
    }
}

pub open spec fn state_word(c: Classification) -> Seq<char> {
    match c {
        Classification::Pick => "PICK"@,
        Classification::Reject => "REJECT"@,
        Classification::Unflagged => "UNFLAGGED"@,
    }
}

pub open spec fn json_flag(c: Classification) -> Seq<char> {
    match c {
        Classification::Pick => "picked"@,
        Classification::Reject => "rejected"@,
        Classification::Unflagged => "unflagged"@,
    }
}

/// Which images are shown.
#[derive(Debug, Clone, Copy, PartialEq, Eq, Structural)]
pub enum ViewMode {
    /// Unflagged and picked images.
    Default,
    Unflagged,
    Picks,
    Rejects,
    All,
}

impl ViewMode {
    /// User-facing name of the view mode.
    pub fn name(&self) -> (r: &'static str)
        ensures
            r@ == (match self {
                ViewMode::Default => "Unflagged + Picks"@,
                ViewMode::Unflagged => "Unflagged Only"@,
                ViewMode::Picks => "Picks Only"@,
                ViewMode::Rejects => "Rejects Only"@,
                ViewMode::All => "All Files"@,
            }),
    {
        match self {
            ViewMode::Default => "Unflagged + Picks",
            ViewMode::Unflagged => "Unflagged Only",
            ViewMode::Picks => "Picks Only",
            ViewMode::Rejects => "Rejects Only",
            ViewMode::All => "All Files",
        }
    }

    pub open spec fn spec_next(self) -> ViewMode {
        match self {
            ViewMode::Default => ViewMode::Unflagged,
            ViewMode::Unflagged => ViewMode::Picks,
            ViewMode::Picks => ViewMode::Rejects,
            ViewMode::Rejects => ViewMode::All,
            ViewMode::All => ViewMode::Default,
        }
    }

    /// The next mode when cycling: Default, Unflagged, Picks, Rejects, All, then Default.
    pub fn next(self) -> (r: ViewMode)
        ensures
            r == self.spec_next(),
    {
        match self {
            ViewMode::Default => ViewMode::Unflagged,
            ViewMode::Unflagged => ViewMode::Picks,
            ViewMode::Picks => ViewMode::Rejects,
            ViewMode::Rejects => ViewMode::All,
            ViewMode::All => ViewMode::Default,
        }
    }
}

/// Five steps of the view-mode cycle return to the starting mode.
pub proof fn lemma_view_mode_cycle_period(m: ViewMode)
    ensures
        m.spec_next() != m,
        m.spec_next().spec_next().spec_next().spec_next().spec_next() == m,
{
}

/// Whether an image with the given flag is shown in the given view mode.
pub open spec fn shown_in(c: Classification, mode: ViewMode) -> bool {
    match mode {
        ViewMode::Default => c == Classification::Pick || c == Classification::Unflagged,
        ViewMode::Unflagged => c == Classification::Unflagged,
        ViewMode::Picks => c == Classification::Pick,
        ViewMode::Rejects => c == Classification::Reject,
        ViewMode::All => true,
    }
}

/// The flag of image `index`; an index without a recorded flag is unflagged.
pub open spec fn flag_at(classifications: Seq<Classification>, index: int) -> Classification {
    if 0 <= index < classifications.len() {
        classifications[index]
    } else {
        Classification::Unflagged
    }
}

/// Whether image `index` is shown in the given view mode.
pub open spec fn spec_is_visible(
    classifications: Seq<Classification>,
    index: int,
    mode: ViewMode,
) -> bool {
    shown_in(flag_at(classifications, index), mode)
}

/// Whether image `index` is shown in the given view mode.
pub fn is_image_visible(index: usize, classifications: &[Classification], view_mode: ViewMode) -> (r:
    bool)
    ensures
        r == spec_is_visible(classifications@, index as int, view_mode),
{
    let c = if index < classifications.len() {
        classifications[index]
    } else {
        Classification::Unflagged
    };
    match view_mode {
        ViewMode::Default => match c {
            Classification::Pick | Classification::Unflagged => true,
            Classification::Reject => false,
        },
        ViewMode::Unflagged => match c {
            Classification::Unflagged => true,
            _ => false,
        },
        ViewMode::Picks => match c {
            Classification::Pick => true,
            _ => false,
        },
        ViewMode::Rejects => match c {
            Classification::Reject => true,
            _ => false,
        },
        ViewMode::All => true,
    }
}

/// Every image is shown in exactly one of the Unflagged, Picks and Rejects views.
pub proof fn lemma_single_flag_views_partition(c: Classification)
    ensures
        (shown_in(c, ViewMode::Unflagged) as int) + (shown_in(c, ViewMode::Picks) as int) + (
        shown_in(c, ViewMode::Rejects) as int) == 1,
        shown_in(c, ViewMode::Default) == (shown_in(c, ViewMode::Unflagged) || shown_in(
            c,
            ViewMode::Picks,
        )),
        shown_in(c, ViewMode::All),
{
}

/// The flag named by the state word of a text manifest line (compared after
/// upper-casing); `None` for an unknown word.
pub open spec fn class_from_state_word(up: Seq<char>) -> Option<Classification> {
    if up == "PICK"@ || up == "PICKED"@ {
        Some(Classification::Pick)
    } else if up == "REJECT"@ || up == "REJECTED"@ {
        Some(Classification::Reject)
    } else if up == "UNFLAGGED"@ {
        Some(Classification::Unflagged)
    } else {
        None
    }
}

/// The entry described by one trimmed line of a text manifest: the state word
/// and the identifier are separated by the first tab, or when there is none
/// by the first colon. Empty lines, `#` comments, lines without a separator
/// and lines with an unknown state word describe nothing.
pub open spec fn spec_parse_line(t: Seq<char>) -> Option<(Seq<char>, Classification)> {
    if t.len() == 0 || t[0] == '#' {
        None
    } else {
        let k = if index_of(t, '\t') >= 0 {
            index_of(t, '\t')
        } else {
            index_of(t, ':')
        };
        if k < 0 {
            None
        } else {
            match class_from_state_word(case_upper(trim(t.take(k)))) {
                Some(c) => Some((trim(t.skip(k + 1)), c)),
                None => None,
            }
        }
    }
}

/// The entries of a text manifest, one per line that describes one, in order.
pub open spec fn spec_parse_text_manifest(s: Seq<char>) -> Seq<(Seq<char>, Classification)>
    decreases s.len(),
{
    let k = index_of(s, '\n');
    let line = if k < 0 {
        s
    } else {
        s.take(k)
    };
    let here = match spec_parse_line(trim(line)) {
        Some(e) => seq![e],
        None => Seq::empty(),
    };
    if k < 0 {
        here
    } else {
        proof {
            lemma_index_of(s, '\n');
        }
        here + spec_parse_text_manifest(s.skip(k + 1))
    }
}

/// The plain view of a list of identifiers with flags.
pub open spec fn entries_view(v: Seq<(String, Classification)>) -> Seq<(Seq<char>, Classification)> {
    v.map_values(|e: (String, Classification)| (e.0@, e.1))
}

fn class_from_word(up: &[char]) -> (r: Option<Classification>)
    ensures
        r == class_from_state_word(up@),
{
    if chars_eq_str(up, "PICK") || chars_eq_str(up, "PICKED") {
        Some(Classification::Pick)
    } else if chars_eq_str(up, "REJECT") || chars_eq_str(up, "REJECTED") {
        Some(Classification::Reject)
    } else if chars_eq_str(up, "UNFLAGGED") {
        Some(Classification::Unflagged)
    } else {
        None
    }
}

/// Reads one trimmed line of a text manifest.
pub fn parse_manifest_line(t: &[char]) -> (r: Option<(String, Classification)>)
    ensures
        match r {
            Some(e) => spec_parse_line(t@) == Some((e.0@, e.1)),
            None => spec_parse_line(t@) is None,
        },
{
    if t.len() == 0 || t[0] == '#' {
        return None;
    }
    let k = match find_char_from(t, '\t', 0) {
        Some(k) => k,
        None => match find_char_from(t, ':', 0) {
            Some(k) => k,
            None => {
                assert(t@.skip(0) =~= t@);
                return None;
            },
        },
    };
    assert(t@.skip(0) =~= t@);
    proof {
        lemma_index_of(t@, '\t');
        lemma_index_of(t@, ':');
    }
    let prefix = sub_chars(t, 0, k);
    assert(prefix@ =~= t@.take(k as int));
    let word = trim_chars(prefix.as_slice());
    let up = uppercase_chars(word.as_slice());
    match class_from_word(up.as_slice()) {
        Some(c) => {
            let rest = sub_chars(t, k + 1, t.len());
            assert(rest@ =~= t@.skip(k + 1));
            let ident = trim_chars(rest.as_slice());
            Some((string_from_chars(ident.as_slice()), c))
        },
        None => None,
    }
}

/// Reads the entries of a text manifest (see `spec_parse_text_manifest`).
pub fn parse_text_manifest(content: &str) -> (r: Vec<(String, Classification)>)
    ensures
        entries_view(r@) == spec_parse_text_manifest(content@),
{
    let v = chars_of(content);
    let mut out: Vec<(String, Classification)> = Vec::new();
    let mut pos: usize = 0;
    assert(v@.skip(0) =~= v@);
    assert(entries_view(out@) =~= Seq::empty());
    loop
        invariant
            pos <= v.len(),
            v@ == content@,
            entries_view(out@) + spec_parse_text_manifest(v@.skip(pos as int))
                == spec_parse_text_manifest(v@),
        decreases v.len() - pos,
    {
        let ghost rest = v@.skip(pos as int);
        let found = find_char_from(v.as_slice(), '\n', pos);
        proof {
            lemma_index_of(rest, '\n');
        }
        let end = match found {
            Some(k) => pos + k,
            None => v.len(),
        };
        let line = sub_chars(v.as_slice(), pos, end);
        let t = trim_chars(line.as_slice());
        let parsed = parse_manifest_line(t.as_slice());
        let ghost here = match spec_parse_line(t@) {
            Some(e) => seq![e],
            None => Seq::<(Seq<char>, Classification)>::empty(),
        };
        let ghost before = out@;
        match parsed {
            Some(e) => {
                out.push(e);
            },
            None => {},
        }
        assert(entries_view(out@) =~= entries_view(before) + here);
        match found {
            Some(k) => {
                assert(line@ =~= rest.take(k as int));
                assert(rest.skip(k + 1) =~= v@.skip(pos + k + 1));
                assert(spec_parse_text_manifest(rest) == here + spec_parse_text_manifest(
                    rest.skip(k + 1),
                ));
                assert(entries_view(out@) + spec_parse_text_manifest(v@.skip(pos + k + 1))
                    =~= entries_view(before) + spec_parse_text_manifest(rest));
                pos = pos + k + 1;
            },
            None => {
                assert(line@ =~= rest);
                assert(spec_parse_text_manifest(rest) == here);
                return out;
            },
        }
    }
}

} // verus!

verus! {

/// The flagged entries of a list, in order.
pub open spec fn flagged_entries(es: Seq<(Seq<char>, Classification)>) -> Seq<
    (Seq<char>, Classification),
>
    decreases es.len(),
{
    if es.len() == 0 {
        Seq::empty()
    } else {
        let before = flagged_entries(es.drop_last());
        if es.last().1 != Classification::Unflagged {
            before.push(es.last())
        } else {
            before
        }
    }
}

/// The text line written for a flagged entry: the state word, a tab, the identifier.
pub open spec fn export_line(e: (Seq<char>, Classification)) -> Seq<char> {
    state_word(e.1) + "\t"@ + e.0
}

/// Lines joined with a newline between each two.
pub open spec fn join_lines(ls: Seq<Seq<char>>) -> Seq<char>
    decreases ls.len(),
{
    if ls.len() == 0 {
        Seq::empty()
    } else if ls.len() == 1 {
        ls[0]
    } else {
        join_lines(ls.drop_last()) + "\n"@ + ls.last()
    }
}

/// The text manifest written for a list of entries: one line per flagged entry.
pub open spec fn spec_export_text(es: Seq<(Seq<char>, Classification)>) -> Seq<char> {
    join_lines(flagged_entries(es).map_values(|e: (Seq<char>, Classification)| export_line(e)))
}

/// Writes the text manifest for a list of identifiers with flags; unflagged
/// entries are left out.
pub fn format_text_export(entries: &[(String, Classification)]) -> (r: String)
    ensures
        r@ == spec_export_text(entries_view(entries@)),
{
    let ghost es = entries_view(entries@);
    let mut out = String::new();
    let mut first = true;
    let mut i: usize = 0;
    while i < entries.len()
        invariant
            i <= entries.len(),
            es == entries_view(entries@),
            out@ == spec_export_text(es.take(i as int)),
            first == (flagged_entries(es.take(i as int)).len() == 0),
        decreases entries.len() - i,
    {
        let ghost prev = es.take(i as int);
        let ghost next = es.take(i + 1);
        assert(next.drop_last() =~= prev);
        assert(next.last() == es[i as int]);
        let c = entries[i].1;
        match c {
            Classification::Unflagged => {},
            _ => {
                let ghost before = out@;
                if !first {
                    out.append("\n");
                }
                out.append(c.state_word());
                out.append("\t");
                out.append(entries[i].0.as_str());
                proof {
                    let fl = flagged_entries(next);
                    let ls = fl.map_values(|e: (Seq<char>, Classification)| export_line(e));
                    let lp = flagged_entries(prev).map_values(
                        |e: (Seq<char>, Classification)| export_line(e),
                    );
                    assert(ls.drop_last() =~= lp);
                    assert(ls.last() == export_line(es[i as int]));
                }
                first = false;
            },
        }
        proof {
            let fl = flagged_entries(next);
            let ls = fl.map_values(|e: (Seq<char>, Classification)| export_line(e));
            let lp = flagged_entries(prev).map_values(
                |e: (Seq<char>, Classification)| export_line(e),
            );
            if c == Classification::Unflagged {
                assert(ls =~= lp);
            }
        }
        i = i + 1;
    }
    assert(es.take(entries.len() as int) =~= es);
    out
}

proof fn lemma_join_front(ls: Seq<Seq<char>>)
    requires
        ls.len() >= 2,
    ensures
        join_lines(ls) == ls[0] + "\n"@ + join_lines(ls.drop_first()),
    decreases ls.len(),
{
    if ls.len() == 2 {
        assert(ls.drop_last().len() == 1);
        assert(ls.drop_first().len() == 1);
        assert(join_lines(ls.drop_first()) == ls[1]);
        assert(join_lines(ls.drop_last()) == ls[0]);
        assert(join_lines(ls) == ls[0] + "\n"@ + ls[1]);
    } else {
        lemma_join_front(ls.drop_last());
        assert(ls.drop_last().drop_first() =~= ls.drop_first().drop_last());
        assert(ls.drop_first().last() == ls.last());
        assert(join_lines(ls.drop_first()) == join_lines(ls.drop_first().drop_last()) + "\n"@
            + ls.drop_first().last());
    }
}

/// An identifier that survives the text format: non-empty, without a newline,
/// and not starting or ending with whitespace.
pub open spec fn is_plain_ident(s: Seq<char>) -> bool {
    &&& s.len() > 0
    &&& !crate::text::is_white_space(s[0])
    &&& !crate::text::is_white_space(s.last())
    &&& forall|j: int| 0 <= j < s.len() ==> s[j] != '\n'
}

proof fn lemma_trim_fixed(s: Seq<char>)
    requires
        s.len() > 0,
        !crate::text::is_white_space(s[0]),
        !crate::text::is_white_space(s.last()),
    ensures
        trim(s) == s,
{
    assert(crate::text::trim_start(s) == s);
    assert(crate::text::trim_end(s) == s);
}

proof fn lemma_word_facts(c: Classification)
    requires
        c != Classification::Unflagged,
    ensures
        state_word(c).len() > 0,
        !crate::text::is_white_space(state_word(c)[0]),
        state_word(c)[0] != '#',
        forall|j: int| 0 <= j < state_word(c).len() ==> state_word(c)[j] != '\t' && state_word(c)[j]
            != '\n',
        trim(state_word(c)) == state_word(c),
        case_upper(state_word(c)) == state_word(c),
        class_from_state_word(state_word(c)) == Some(c),
{
    reveal_strlit("PICK");
    reveal_strlit("PICKED");
    reveal_strlit("REJECT");
    let w = state_word(c);
    assert(crate::text::all_ascii(w));
    assert(crate::text::ascii_uppercase(w) =~= w);
    lemma_trim_fixed(w);
    if c == Classification::Pick {
        assert(w == "PICK"@);
    } else {
        assert(w == "REJECT"@);
        assert(w != "PICK"@);
        assert(w != "PICKED"@);
    }
}

proof fn lemma_parse_export_line(e: (Seq<char>, Classification))
    requires
        e.1 != Classification::Unflagged,
        is_plain_ident(e.0),
    ensures
        forall|j: int| 0 <= j < export_line(e).len() ==> export_line(e)[j] != '\n',
        spec_parse_line(trim(export_line(e))) == Some(e),
{
    let w = state_word(e.1);
    let l = export_line(e);
    lemma_word_facts(e.1);
    reveal_strlit("\t");
    assert(l.len() == w.len() + 1 + e.0.len());
    assert forall|j: int| 0 <= j < l.len() implies l[j] != '\n' by {
        if j < w.len() {
            assert(l[j] == w[j]);
        } else if j > w.len() {
            assert(l[j] == e.0[j - w.len() - 1]);
        }
    }
    assert(l[0] == w[0]);
    assert(l.last() == e.0.last());
    lemma_trim_fixed(l);
    assert(l[w.len() as int] == '\t');
    assert forall|j: int| 0 <= j < w.len() implies l[j] != '\t' by {
        assert(l[j] == w[j]);
    }
    crate::text::lemma_index_of_at(l, '\t', w.len() as int);
    assert(l.take(w.len() as int) =~= w);
    assert(l.skip(w.len() + 1int) =~= e.0);
    lemma_trim_fixed(e.0);
    assert(trim(l.take(w.len() as int)) == w);
    assert(spec_parse_line(l) == Some((e.0, e.1)));
}

proof fn lemma_parse_joined(fl: Seq<(Seq<char>, Classification)>)
    requires
        forall|j: int|
            0 <= j < fl.len() ==> (#[trigger] fl[j]).1 != Classification::Unflagged
                && is_plain_ident(fl[j].0),
    ensures
        spec_parse_text_manifest(
            join_lines(fl.map_values(|e: (Seq<char>, Classification)| export_line(e))),
        ) == fl,
    decreases fl.len(),
{
    let ls = fl.map_values(|e: (Seq<char>, Classification)| export_line(e));
    if fl.len() == 0 {
        let s = join_lines(ls);
        assert(s =~= Seq::<char>::empty());
        assert(index_of(s, '\n') == -1);
        assert(trim(s) =~= Seq::<char>::empty());
        assert(spec_parse_text_manifest(s) =~= fl);
    } else {
        lemma_parse_export_line(fl[0]);
        let l0 = ls[0];
        assert(l0 == export_line(fl[0]));
        if fl.len() == 1 {
            assert(join_lines(ls) == l0);
            crate::text::lemma_index_of_absent(l0, '\n');
            assert(spec_parse_text_manifest(l0) =~= seq![fl[0]]);
            assert(fl =~= seq![fl[0]]);
        } else {
            lemma_join_front(ls);
            let rest = fl.drop_first();
            assert(ls.drop_first() =~= rest.map_values(
                |e: (Seq<char>, Classification)| export_line(e),
            ));
            lemma_parse_joined(rest);
            let s = join_lines(ls);
            reveal_strlit("\n");
            assert(s[l0.len() as int] == '\n');
            assert forall|j: int| 0 <= j < l0.len() implies s[j] != '\n' by {
                assert(s[j] == l0[j]);
            }
            crate::text::lemma_index_of_at(s, '\n', l0.len() as int);
            assert(s.take(l0.len() as int) =~= l0);
            assert(s.skip(l0.len() + 1int) =~= join_lines(ls.drop_first()));
            assert(spec_parse_text_manifest(s) =~= seq![fl[0]] + rest);
            assert(fl =~= seq![fl[0]] + rest);
        }
    }
}

proof fn lemma_flagged_entries_props(es: Seq<(Seq<char>, Classification)>)
    ensures
        forall|j: int|
            0 <= j < flagged_entries(es).len() ==> (#[trigger] flagged_entries(es)[j]).1
                != Classification::Unflagged && exists|k: int|
                0 <= k < es.len() && es[k] == flagged_entries(es)[j],
    decreases es.len(),
{
    if es.len() > 0 {
        lemma_flagged_entries_props(es.drop_last());
        let fl = flagged_entries(es);
        let fb = flagged_entries(es.drop_last());
        assert forall|j: int| 0 <= j < fl.len() implies (#[trigger] fl[j]).1
            != Classification::Unflagged && exists|k: int| 0 <= k < es.len() && es[k] == fl[j] by {
            if j < fb.len() {
                let k = choose|k: int| 0 <= k < es.drop_last().len() && es.drop_last()[k] == fb[j];
                assert(es[k] == fl[j]);
            } else {
                assert(es[es.len() - 1] == fl[j]);
            }
        }
    }
}

/// Reading back the text manifest written for a list of entries gives exactly
/// its flagged entries, in order, provided each identifier is non-empty, holds
/// no newline and neither starts nor ends with whitespace.
pub proof fn lemma_text_manifest_roundtrip(es: Seq<(Seq<char>, Classification)>)
    requires
        forall|j: int| 0 <= j < es.len() ==> is_plain_ident((#[trigger] es[j]).0),
    ensures
        spec_parse_text_manifest(spec_export_text(es)) == flagged_entries(es),
{
    lemma_flagged_entries_props(es);
    let fl = flagged_entries(es);
    assert forall|j: int| 0 <= j < fl.len() implies (#[trigger] fl[j]).1
        != Classification::Unflagged && is_plain_ident(fl[j].0) by {
        let k = choose|k: int| 0 <= k < es.len() && es[k] == fl[j];
        assert(is_plain_ident(es[k].0));
    }
    lemma_parse_joined(fl);
}

} // verus!

verus! {

/// The flag named by a JSON manifest entry (compared after lower-casing):
/// "pick"/"picked" and "reject"/"rejected"; anything else is unflagged.
pub open spec fn spec_class_from_flag(flag: Seq<char>) -> Classification {
    let l = case_lower(flag);
    if l == "pick"@ || l == "picked"@ {
        Classification::Pick
    } else if l == "reject"@ || l == "rejected"@ {
        Classification::Reject
    } else {
        Classification::Unflagged
    }
}

/// Reads the flag of a JSON manifest entry.
pub fn classification_from_flag(flag: &str) -> (r: Classification)
    ensures
        r == spec_class_from_flag(flag@),
{
    let v = chars_of(flag);
    let l = lowercase_chars(v.as_slice());
    if chars_eq_str(l.as_slice(), "pick") || chars_eq_str(l.as_slice(), "picked") {
        Classification::Pick
    } else if chars_eq_str(l.as_slice(), "reject") || chars_eq_str(l.as_slice(), "rejected") {
        Classification::Reject
    } else {
        Classification::Unflagged
    }
}

/// The key under which a manifest entry is matched against images: the
/// archive path, `::` and the page name for an archive page, or the file
/// name alone.
pub open spec fn spec_manifest_key(archive: Option<Seq<char>>, filename: Seq<char>) -> Seq<char> {
    match archive {
        Some(a) => a + "::"@ + filename,
        None => filename,
    }
}

/// Builds the key of a manifest entry (see `spec_manifest_key`).
pub fn manifest_key(archive: Option<&str>, filename: &str) -> (r: String)
    ensures
        r@ == spec_manifest_key(
            match archive {
                Some(a) => Some(a@),
                None => None,
            },
            filename@,
        ),
{
    match archive {
        Some(a) => {
            let mut out = String::from_str(a);
            out.append("::");
            out.append(filename);
            out
        },
        None => String::from_str(filename),
    }
}

/// The flag written to a JSON manifest reads back as the same flag.
pub proof fn lemma_json_flag_roundtrip(c: Classification)
    ensures
        spec_class_from_flag(json_flag(c)) == c,
{
    reveal_strlit("picked");
    reveal_strlit("rejected");
    reveal_strlit("unflagged");
    reveal_strlit("pick");
    reveal_strlit("reject");
    let f = json_flag(c);
    assert(crate::text::all_ascii(f));
    assert(crate::text::ascii_lowercase(f) =~= f);
    assert(case_lower(f) == f);
}

} // verus!
