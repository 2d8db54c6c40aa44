//! The records an exported manifest holds: which images' states are
//! written, and the archive and file name each is written under.

use vstd::prelude::*;
use vstd::string::*;
use crate::classifications::spec_manifest_key;
use crate::remap::{ImageState, is_blank, pairs_view, pairs_map, spec_import, lemma_pairs_map_hit, lemma_pairs_map_miss, lemma_import_applies, lemma_import_keeps_unnamed};
use crate::source::{ImageSource, absolute_text, spec_identifier, absolute_path_text};
use crate::text::{chars_of, string_from_chars, sub_chars};
use crate::classifications::Classification;
use crate::types::{Brightness, Rotation};

verus! {

/// An entry of an exported manifest.
pub struct ExportRecord<T> {
    /// The archive holding the image, for a page of an archive.
    pub archive: Option<String>,
    /// The image's path, or its page name inside the archive.
    pub filename: String,
    pub state: ImageState<T>,
}

/// The text of an optional string.
pub open spec fn opt_text(o: Option<String>) -> Option<Seq<char>> {
    match o {
        Some(s) => Some(s@),
        None => None,
    }
}

/// A record as plain values: archive, file name, state.
pub type RecordView<T> = (Option<Seq<char>>, Seq<char>, ImageState<T>);

/// The plain values of a list of records.
pub open spec fn records_view<T>(v: Seq<ExportRecord<T>>) -> Seq<RecordView<T>> {
    v.map_values(|r: ExportRecord<T>| (opt_text(r.archive), r.filename@, r.state))
}

/// The key an importer rebuilds from a record (see `spec_manifest_key`).
pub open spec fn record_key<T>(r: RecordView<T>) -> Seq<char> {
    spec_manifest_key(r.0, r.1)
}

/// The record of a queued image: a page of an archive under the archive's
/// absolute path and the page name, a file under its absolute path.
pub open spec fn source_record<T>(s: ImageSource, st: ImageState<T>, cwd: Option<Seq<char>>) -> RecordView<T> {
    match s {
        ImageSource::Local(p) => (None, absolute_text(p@, cwd), st),
        ImageSource::Cbz { zip_path, file_in_zip } => (Some(absolute_text(zip_path@, cwd)), file_in_zip@, st),
    }
}

/// Position of the first `::` at or after `i`, or -1.
pub open spec fn double_colon_from(k: Seq<char>, i: int) -> int
    decreases k.len() - i,
{
    if i < 0 || i + 2 > k.len() {
        -1
    } else if k[i] == ':' && k[i + 1] == ':' {
        i
    } else {
        double_colon_from(k, i + 1)
    }
}

/// The record of a kept state: its identifier split at the first `::` into
/// archive and page name, or as a file name when it has none.
pub open spec fn kept_record<T>(k: Seq<char>, st: ImageState<T>) -> RecordView<T> {
    let i = double_colon_from(k, 0);
    if i < 0 {
        (None, k, st)
    } else {
        (Some(k.take(i)), k.skip(i + 2), st)
    }
}

/// The records of the queued images whose state holds something, in queue order.
pub open spec fn queue_records<T>(images: Seq<ImageSource>, states: Seq<ImageState<T>>, cwd: Option<Seq<char>>) -> Seq<RecordView<T>>
    decreases images.len(),
{
    if images.len() == 0 {
        Seq::empty()
    } else {
        let n = images.len() - 1;
        let rest = queue_records(images.drop_last(), states, cwd);
        if n < states.len() && !is_blank(states[n]) {
            rest.push(source_record(images[n], states[n], cwd))
        } else {
            rest
        }
    }
}

/// The records of the kept states that hold something, in order.
pub open spec fn kept_records<T>(kept: Seq<(Seq<char>, ImageState<T>)>) -> Seq<RecordView<T>>
    decreases kept.len(),
{
    if kept.len() == 0 {
        Seq::empty()
    } else {
        let rest = kept_records(kept.drop_last());
        if !is_blank(kept.last().1) {
            rest.push(kept_record(kept.last().0, kept.last().1))
        } else {
            rest
        }
    }
}

/// The records of an export: the queued images' that hold something, then
/// the kept states' that do.
pub open spec fn spec_export_records<T>(
    images: Seq<ImageSource>,
    states: Seq<ImageState<T>>,
    kept: Seq<(Seq<char>, ImageState<T>)>,
    cwd: Option<Seq<char>>,
) -> Seq<RecordView<T>> {
    queue_records(images, states, cwd) + kept_records(kept)
}

/// The optional working directory as text.
pub open spec fn cwd_view(cwd: Option<&str>) -> Option<Seq<char>> {
    match cwd {
        Some(c) => Some(c@),
        None => None,
    }
}

fn state_is_blank<T: Copy>(s: &ImageState<T>) -> (r: bool)
    ensures
        r == is_blank(*s),
{
    s.class == Classification::Unflagged && s.brightness == Brightness::zero() && s.rotation == Rotation::D0
        && s.extra_is_default
}

fn first_double_colon(k: &[char]) -> (r: Option<usize>)
    ensures
        match r {
            Some(i) => double_colon_from(k@, 0) == i as int && i + 2 <= k@.len(),
            None => double_colon_from(k@, 0) == -1,
        },
{
    if k.len() < 2 {
        return None;
    }
    let mut i: usize = 0;
    while i < k.len() - 1
        invariant
            k.len() >= 2,
            i <= k.len() - 1,
            double_colon_from(k@, 0) == double_colon_from(k@, i as int),
        decreases k.len() - i,
    {
        if k[i] == ':' && k[i + 1] == ':' {
            return Some(i);
        }
        i = i + 1;
    }
    None
}

/// The records of an export (see `spec_export_records`): one for each
/// queued image whose state holds something, then one for each kept state
/// that does.
pub fn export_records<T: Copy>(
    images: &Vec<ImageSource>,
    states: &Vec<ImageState<T>>,
    kept: &Vec<(String, ImageState<T>)>,
    cwd: Option<&str>,
) -> (r: Vec<ExportRecord<T>>)
    ensures
        records_view(r@) == spec_export_records(images@, states@, pairs_view(kept@), cwd_view(cwd)),
{
    let ghost c = cwd_view(cwd);
    let mut out: Vec<ExportRecord<T>> = Vec::new();
    let mut i: usize = 0;
    while i < images.len()
        invariant
            i <= images.len(),
            c == cwd_view(cwd),
            records_view(out@) == queue_records(images@.take(i as int), states@, c),
        decreases images.len() - i,
    {
        let ghost t = images@.take(i + 1);
        assert(t.drop_last() =~= images@.take(i as int));
        assert(t.last() == images@[i as int]);
        if i < states.len() && !state_is_blank(&states[i]) {
            let st = states[i];
            let rec = match &images[i] {
                ImageSource::Local(p) => ExportRecord { archive: None, filename: absolute_path_text(p.as_str(), cwd), state: st },
                ImageSource::Cbz { zip_path, file_in_zip } => ExportRecord {
                    archive: Some(absolute_path_text(zip_path.as_str(), cwd)),
                    filename: file_in_zip.clone(),
                    state: st,
                },
            };
            let ghost before = out@;
            out.push(rec);
            assert(records_view(out@) =~= records_view(before).push(source_record(images@[i as int], st, c)));
        }
        i = i + 1;
    }
    assert(images@.take(images.len() as int) =~= images@);
    let ghost q = records_view(out@);
    let ghost kv = pairs_view(kept@);
    let mut j: usize = 0;
    while j < kept.len()
        invariant
            j <= kept.len(),
            kv == pairs_view(kept@),
            records_view(out@) == q + kept_records(kv.take(j as int)),
        decreases kept.len() - j,
    {
        let ghost t = kv.take(j + 1);
        assert(t.drop_last() =~= kv.take(j as int));
        assert(t.last() == (kept@[j as int].0@, kept@[j as int].1));
        let st = kept[j].1;
        if !state_is_blank(&st) {
            let key = chars_of(kept[j].0.as_str());
            let rec = match first_double_colon(key.as_slice()) {
                Some(p) => ExportRecord {
                    archive: Some(string_from_chars(sub_chars(key.as_slice(), 0, p).as_slice())),
                    filename: string_from_chars(sub_chars(key.as_slice(), p + 2, key.len()).as_slice()),
                    state: st,
                },
                None => ExportRecord { archive: None, filename: kept[j].0.clone(), state: st },
            };
            let ghost before = out@;
            out.push(rec);
            assert(records_view(out@) =~= records_view(before).push(kept_record(kept@[j as int].0@, st)));
            assert(q + kept_records(kv.take(j + 1)) =~= (q + kept_records(kv.take(j as int))).push(
                kept_record(kept@[j as int].0@, st),
            ));
        } else {
            assert(kept_records(kv.take(j + 1)) == kept_records(kv.take(j as int)));
        }
        j = j + 1;
    }
    assert(kv.take(kept.len() as int) =~= kv);
    out
}

/// Whether a record list holds a record read back under `key` with state `st`.
pub open spec fn holds_record<T>(recs: Seq<RecordView<T>>, key: Seq<char>, st: ImageState<T>) -> bool {
    exists|k: int| 0 <= k < recs.len() && record_key(#[trigger] recs[k]) == key && recs[k].2 == st
}

/// Whether a record is read back as one of the queued images with its state.
pub open spec fn from_queue<T>(images: Seq<ImageSource>, states: Seq<ImageState<T>>, cwd: Option<Seq<char>>, r: RecordView<T>) -> bool {
    exists|j: int|
        0 <= j < images.len() && j < states.len() && record_key(r) == spec_identifier(#[trigger] images[j], cwd)
            && r.2 == states[j]
}

/// Whether a record is read back as one of the kept states.
pub open spec fn from_kept<T>(kept: Seq<(Seq<char>, ImageState<T>)>, r: RecordView<T>) -> bool {
    exists|j: int| 0 <= j < kept.len() && record_key(r) == (#[trigger] kept[j]).0 && r.2 == kept[j].1
}

proof fn lemma_source_record_key<T>(s: ImageSource, st: ImageState<T>, cwd: Option<Seq<char>>)
    ensures
        record_key(source_record(s, st, cwd)) == spec_identifier(s, cwd),
        source_record(s, st, cwd).2 == st,
{
}

proof fn lemma_double_colon_from(k: Seq<char>, i: int)
    requires
        0 <= i,
    ensures
        double_colon_from(k, i) >= 0 ==> i <= double_colon_from(k, i) && double_colon_from(k, i) + 2
            <= k.len() && k[double_colon_from(k, i)] == ':' && k[double_colon_from(k, i) + 1] == ':',
    decreases k.len() - i,
{
    if i + 2 <= k.len() && !(k[i] == ':' && k[i + 1] == ':') {
        lemma_double_colon_from(k, i + 1);
    }
}

proof fn lemma_kept_record_key<T>(k: Seq<char>, st: ImageState<T>)
    ensures
        record_key(kept_record(k, st)) == k,
        kept_record(k, st).2 == st,
{
    lemma_double_colon_from(k, 0);
    let i = double_colon_from(k, 0);
    if i >= 0 {
        reveal_strlit("::");
        assert(k.take(i) + "::"@ + k.skip(i + 2) =~= k);
    }
}

proof fn lemma_queue_records<T>(images: Seq<ImageSource>, states: Seq<ImageState<T>>, cwd: Option<Seq<char>>)
    ensures
        forall|j: int|
            0 <= j < images.len() && j < states.len() && !is_blank(#[trigger] states[j]) ==> holds_record(
                queue_records(images, states, cwd),
                spec_identifier(images[j], cwd),
                states[j],
            ),
        forall|k: int|
            0 <= k < queue_records(images, states, cwd).len() ==> !is_blank(
                (#[trigger] queue_records(images, states, cwd)[k]).2,
            ) && from_queue(images, states, cwd, queue_records(images, states, cwd)[k]),
    decreases images.len(),
{
    if images.len() > 0 {
        let n = images.len() - 1;
        let d = images.drop_last();
        lemma_queue_records(d, states, cwd);
        let rest = queue_records(d, states, cwd);
        let cur = queue_records(images, states, cwd);
        if n < states.len() && !is_blank(states[n]) {
            assert(cur == rest.push(source_record(images[n], states[n], cwd)));
            lemma_source_record_key(images[n], states[n], cwd);
        } else {
            assert(cur == rest);
        }
        assert forall|j: int|
            0 <= j < images.len() && j < states.len() && !is_blank(#[trigger] states[j]) implies holds_record(
            cur,
            spec_identifier(images[j], cwd),
            states[j],
        ) by {
            if j < n {
                assert(d[j] == images[j]);
                let k = choose|k: int|
                    0 <= k < rest.len() && record_key(#[trigger] rest[k]) == spec_identifier(d[j], cwd)
                        && rest[k].2 == states[j];
                assert(cur[k] == rest[k]);
            } else {
                assert(cur[rest.len() as int] == source_record(images[n], states[n], cwd));
            }
        }
        assert forall|k: int| 0 <= k < cur.len() implies !is_blank((#[trigger] cur[k]).2) && from_queue(
            images,
            states,
            cwd,
            cur[k],
        ) by {
            if k < rest.len() {
                assert(cur[k] == rest[k]);
                assert(from_queue(d, states, cwd, rest[k]));
                let j = choose|j: int|
                    0 <= j < d.len() && j < states.len() && record_key(rest[k]) == spec_identifier(
                        #[trigger] d[j],
                        cwd,
                    ) && rest[k].2 == states[j];
                assert(d[j] == images[j]);
            } else {
                assert(cur[k] == source_record(images[n], states[n], cwd));
                assert(images[n] == images[n]);
            }
        }
    }
}

proof fn lemma_kept_records<T>(kept: Seq<(Seq<char>, ImageState<T>)>)
    ensures
        forall|j: int|
            0 <= j < kept.len() && !is_blank((#[trigger] kept[j]).1) ==> holds_record(
                kept_records(kept),
                kept[j].0,
                kept[j].1,
            ),
        forall|k: int|
            0 <= k < kept_records(kept).len() ==> !is_blank((#[trigger] kept_records(kept)[k]).2)
                && from_kept(kept, kept_records(kept)[k]),
    decreases kept.len(),
{
    if kept.len() > 0 {
        let n = kept.len() - 1;
        let d = kept.drop_last();
        lemma_kept_records(d);
        let rest = kept_records(d);
        let cur = kept_records(kept);
        if !is_blank(kept[n].1) {
            assert(cur == rest.push(kept_record(kept[n].0, kept[n].1)));
            lemma_kept_record_key(kept[n].0, kept[n].1);
        } else {
            assert(cur == rest);
        }
        assert forall|j: int| 0 <= j < kept.len() && !is_blank((#[trigger] kept[j]).1) implies holds_record(
            cur,
            kept[j].0,
            kept[j].1,
        ) by {
            if j < n {
                assert(d[j] == kept[j]);
                let k = choose|k: int|
                    0 <= k < rest.len() && record_key(#[trigger] rest[k]) == d[j].0 && rest[k].2 == d[j].1;
                assert(cur[k] == rest[k]);
            } else {
                assert(cur[rest.len() as int] == kept_record(kept[n].0, kept[n].1));
            }
        }
        assert forall|k: int| 0 <= k < cur.len() implies !is_blank((#[trigger] cur[k]).2) && from_kept(
            kept,
            cur[k],
        ) by {
            if k < rest.len() {
                assert(cur[k] == rest[k]);
                assert(from_kept(d, rest[k]));
                let j = choose|j: int| 0 <= j < d.len() && record_key(rest[k]) == (#[trigger] d[j]).0 && rest[k].2 == d[j].1;
                assert(d[j] == kept[j]);
            } else {
                assert(cur[k] == kept_record(kept[n].0, kept[n].1));
                assert(kept[n] == kept[n]);
            }
        }
    }
}

/// Exporting writes a record for every queued image whose state holds
/// something, carrying that state, under the archive and file name from
/// which an import rebuilds the image's identifier; a record for every kept
/// state that holds something, under its identifier; and no other record.
pub proof fn lemma_export_records_roundtrip<T>(
    images: Seq<ImageSource>,
    states: Seq<ImageState<T>>,
    kept: Seq<(Seq<char>, ImageState<T>)>,
    cwd: Option<Seq<char>>,
)
    requires
        images.len() == states.len(),
    ensures
        forall|j: int|
            0 <= j < images.len() && !is_blank(#[trigger] states[j]) ==> holds_record(
                spec_export_records(images, states, kept, cwd),
                spec_identifier(images[j], cwd),
                states[j],
            ),
        forall|j: int|
            0 <= j < kept.len() && !is_blank((#[trigger] kept[j]).1) ==> holds_record(
                spec_export_records(images, states, kept, cwd),
                kept[j].0,
                kept[j].1,
            ),
        forall|k: int|
            0 <= k < spec_export_records(images, states, kept, cwd).len() ==> !is_blank(
                (#[trigger] spec_export_records(images, states, kept, cwd)[k]).2,
            ) && (from_queue(images, states, cwd, spec_export_records(images, states, kept, cwd)[k])
                || from_kept(kept, spec_export_records(images, states, kept, cwd)[k])),
{
    lemma_queue_records(images, states, cwd);
    lemma_kept_records(kept);
    let q = queue_records(images, states, cwd);
    let kr = kept_records(kept);
    let all = spec_export_records(images, states, kept, cwd);
    assert(all == q + kr);
    assert forall|j: int| 0 <= j < images.len() && !is_blank(#[trigger] states[j]) implies holds_record(
        all,
        spec_identifier(images[j], cwd),
        states[j],
    ) by {
        let k = choose|k: int|
            0 <= k < q.len() && record_key(#[trigger] q[k]) == spec_identifier(images[j], cwd) && q[k].2 == states[j];
        assert(all[k] == q[k]);
    }
    assert forall|j: int| 0 <= j < kept.len() && !is_blank((#[trigger] kept[j]).1) implies holds_record(
        all,
        kept[j].0,
        kept[j].1,
    ) by {
        let k = choose|k: int| 0 <= k < kr.len() && record_key(#[trigger] kr[k]) == kept[j].0 && kr[k].2 == kept[j].1;
        assert(all[q.len() + k] == kr[k]);
    }
    assert forall|k: int| 0 <= k < all.len() implies !is_blank((#[trigger] all[k]).2) && (from_queue(
        images,
        states,
        cwd,
        all[k],
    ) || from_kept(kept, all[k])) by {
        if k < q.len() {
            assert(all[k] == q[k]);
        } else {
            assert(all[k] == kr[k - q.len()]);
        }
    }
}


/// The identifiers of the queued images.
pub open spec fn queue_ids(images: Seq<ImageSource>, cwd: Option<Seq<char>>) -> Seq<Seq<char>> {
    Seq::new(images.len(), |a: int| spec_identifier(images[a], cwd))
}

/// The (identifier, state) pairs an import reads from records.
pub open spec fn imported_pairs<T>(recs: Seq<RecordView<T>>) -> Seq<(Seq<char>, ImageState<T>)> {
    recs.map_values(|r: RecordView<T>| (record_key(r), r.2))
}

/// Exporting and then importing into the same queue restores every image's
/// flag and adjustments: an image whose state held something gets that
/// state back, and one whose state held nothing keeps the state it has at
/// import time. This holds where the queued images' identifiers are
/// distinct and no kept state carries one of them.
pub proof fn lemma_export_then_import<T>(
    images: Seq<ImageSource>,
    states: Seq<ImageState<T>>,
    kept: Seq<(Seq<char>, ImageState<T>)>,
    cwd: Option<Seq<char>>,
    reset: Seq<ImageState<T>>,
    unmapped: Map<Seq<char>, ImageState<T>>,
    j: int,
)
    requires
        images.len() == states.len(),
        reset.len() == images.len(),
        forall|a: int, b: int|
            0 <= a < b < images.len() ==> spec_identifier(#[trigger] images[a], cwd) != spec_identifier(
                #[trigger] images[b],
                cwd,
            ),
        forall|a: int, i: int|
            0 <= a < images.len() && 0 <= i < kept.len() ==> (#[trigger] kept[i]).0 != spec_identifier(
                #[trigger] images[a],
                cwd,
            ),
        0 <= j < images.len(),
    ensures
        ({
            let back = spec_import(
                queue_ids(images, cwd),
                reset,
                pairs_map(imported_pairs(spec_export_records(images, states, kept, cwd))),
                unmapped,
            );
            &&& !is_blank(states[j]) ==> back.0[j] == states[j]
            &&& is_blank(states[j]) ==> back.0[j] == reset[j]
        }),
{
    let recs = spec_export_records(images, states, kept, cwd);
    let pairs = imported_pairs(recs);
    let ids = queue_ids(images, cwd);
    let key = spec_identifier(images[j], cwd);
    lemma_export_records_roundtrip(images, states, kept, cwd);
    assert(ids[j] == key);
    // every record under this image's identifier is this image's record
    assert forall|i: int| 0 <= i < pairs.len() && (#[trigger] pairs[i]).0 == key implies pairs[i].1 == states[j]
        && !is_blank(states[j]) by {
        assert(pairs[i] == (record_key(recs[i]), recs[i].2));
        assert(!is_blank(recs[i].2));
        if from_queue(images, states, cwd, recs[i]) {
            let a = choose|a: int|
                0 <= a < images.len() && a < states.len() && record_key(recs[i]) == spec_identifier(
                    #[trigger] images[a],
                    cwd,
                ) && recs[i].2 == states[a];
            if a < j {
                assert(spec_identifier(images[a], cwd) != spec_identifier(images[j], cwd));
            } else if a > j {
                assert(spec_identifier(images[j], cwd) != spec_identifier(images[a], cwd));
            }
        } else {
            let q = choose|q: int| 0 <= q < kept.len() && record_key(recs[i]) == (#[trigger] kept[q]).0 && recs[i].2 == kept[q].1;
            assert(kept[q].0 != spec_identifier(images[j], cwd));
        }
    }
    assert(!ids.take(j).contains(key)) by {
        if ids.take(j).contains(key) {
            let a = choose|a: int| 0 <= a < ids.take(j).len() && #[trigger] ids.take(j)[a] == key;
            assert(ids[a] == key);
            assert(spec_identifier(images[a], cwd) != spec_identifier(images[j], cwd));
        }
    }
    if !is_blank(states[j]) {
        let k = choose|k: int| 0 <= k < recs.len() && record_key(#[trigger] recs[k]) == key && recs[k].2 == states[j];
        assert(pairs[k].0 == key);
        lemma_pairs_map_hit(pairs, key, states[j]);
        lemma_import_applies(ids, reset, pairs_map(pairs), unmapped, j);
    } else {
        assert forall|i: int| 0 <= i < pairs.len() implies (#[trigger] pairs[i]).0 != key by {
            if pairs[i].0 == key {
                assert(!is_blank(states[j]));
            }
        }
        lemma_pairs_map_miss(pairs, key);
        lemma_import_keeps_unnamed(ids, reset, pairs_map(pairs), unmapped, j);
    }
}

} // verus!
