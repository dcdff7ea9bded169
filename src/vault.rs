//! Vaults: opening one, picking its note files out of a directory walk, and
//! listing its notes newest first.
use vstd::prelude::*;

use crate::engine::{engine_of_path, NoteEngine};
use crate::errors::{AppError, AppResult};
use crate::model::{summary_of, summary_post, to_note_summary, NoteSummary, SummaryView, VaultInfo};
use crate::notes::{notes_dir, notes_dir_of};
use crate::text::{trim, trim_ws};

verus! {

/// Whether `p` is stored under an extension of one of the engines.
pub open spec fn is_note_path(p: Seq<char>) -> bool {
    engine_of_path(p) is Some
}

/// The note paths among `files`, in their order.
pub open spec fn note_paths(files: Seq<Seq<char>>) -> Seq<Seq<char>>
    decreases files.len(),
{
    if files.len() == 0 {
        Seq::empty()
    } else if is_note_path(files.last()) {
        note_paths(files.drop_last()).push(files.last())
    } else {
        note_paths(files.drop_last())
    }
}

pub open spec fn path_views(v: Seq<String>) -> Seq<Seq<char>> {
    v.map_values(|s: String| s@)
}

/// The order key of a modification time: an absent time counts as older
/// than every present one.
pub open spec fn time_key(t: Option<u64>) -> int {
    match t {
        Some(v) => v as int,
        None => -1,
    }
}

/// `x` placed into `s` after every summary at least as recent.
pub open spec fn insert_by_time(s: Seq<SummaryView>, x: SummaryView) -> Seq<SummaryView>
    decreases s.len(),
{
    if s.len() == 0 {
        seq![x]
    } else if time_key(s[0].updated_at_unix) < time_key(x.updated_at_unix) {
        seq![x] + s
    } else {
        seq![s[0]] + insert_by_time(s.drop_first(), x)
    }
}

/// `s` ordered newest first; summaries of equal time (absent ones included)
/// keep the order they had in `s`.
pub open spec fn newest_first(s: Seq<SummaryView>) -> Seq<SummaryView>
    decreases s.len(),
{
    if s.len() == 0 {
        s
    } else {
        insert_by_time(newest_first(s.drop_last()), s.last())
    }
}

pub open spec fn is_newest_first(s: Seq<SummaryView>) -> bool {
    forall|i: int, j: int|
        0 <= i < j < s.len() ==> time_key(#[trigger] s[i].updated_at_unix) >= time_key(
            #[trigger] s[j].updated_at_unix,
        )
}

pub open spec fn summary_views(v: Seq<NoteSummary>) -> Seq<SummaryView> {
    v.map_values(|s: NoteSummary| s@)
}

/// The summaries that scanned files with their modification times stand for.
pub open spec fn summaries_of(scanned: Seq<(String, Option<u64>)>) -> Seq<SummaryView> {
    scanned.map_values(|e: (String, Option<u64>)| summary_of(e.0@, e.1))
}

proof fn lemma_insert_at(s: Seq<SummaryView>, x: SummaryView, pos: int)
    requires
        0 <= pos <= s.len(),
        forall|k: int|
            0 <= k < pos ==> time_key(#[trigger] s[k].updated_at_unix) >= time_key(
                x.updated_at_unix,
            ),
        pos < s.len() ==> time_key(s[pos].updated_at_unix) < time_key(x.updated_at_unix),
    ensures
        insert_by_time(s, x) == s.insert(pos, x),
    decreases pos,
{
    if pos == 0 {
        assert(seq![x] + s =~= s.insert(0, x));
        if s.len() == 0 {
            assert(seq![x] =~= s.insert(0, x));
        }
    } else {
        let t = s.drop_first();
        assert forall|k: int|
            0 <= k < pos - 1 implies time_key(#[trigger] t[k].updated_at_unix) >= time_key(
            x.updated_at_unix,
        ) by {
            assert(t[k] == s[k + 1]);
        }
        lemma_insert_at(t, x, pos - 1);
        assert(seq![s[0]] + t.insert(pos - 1, x) =~= s.insert(pos, x));
    }
}

proof fn lemma_insert_by_time(s: Seq<SummaryView>, x: SummaryView)
    requires
        is_newest_first(s),
    ensures
        is_newest_first(insert_by_time(s, x)),
        insert_by_time(s, x).to_multiset() == s.to_multiset().insert(x),
        forall|i: int|
            0 <= i < insert_by_time(s, x).len() ==> #[trigger] insert_by_time(s, x)[i] == x
                || s.contains(insert_by_time(s, x)[i]),
    decreases s.len(),
{
    broadcast use vstd::seq_lib::group_to_multiset_ensures;

    let r = insert_by_time(s, x);
    if s.len() == 0 {
        assert(seq![x] =~= Seq::<SummaryView>::empty().push(x));
    } else if time_key(s[0].updated_at_unix) < time_key(x.updated_at_unix) {
        vstd::seq_lib::lemma_multiset_commutative(seq![x], s);
        assert(seq![x] =~= Seq::<SummaryView>::empty().push(x));
        assert forall|i: int, j: int| 0 <= i < j < r.len() implies time_key(
            #[trigger] r[i].updated_at_unix,
        ) >= time_key(#[trigger] r[j].updated_at_unix) by {
            if i > 0 {
                assert(r[i] == s[i - 1]);
            } else {
                assert(time_key(s[0].updated_at_unix) >= time_key(s[j - 1].updated_at_unix));
            }
            assert(r[j] == s[j - 1]);
        }
        assert forall|i: int| 0 <= i < r.len() implies #[trigger] r[i] == x || s.contains(r[i]) by {
            if i > 0 {
                assert(r[i] == s[i - 1]);
            }
        }
    } else {
        let t = s.drop_first();
        let h = s[0];
        assert(is_newest_first(t)) by {
            assert forall|i: int, j: int| 0 <= i < j < t.len() implies time_key(
                #[trigger] t[i].updated_at_unix,
            ) >= time_key(#[trigger] t[j].updated_at_unix) by {
                assert(t[i] == s[i + 1] && t[j] == s[j + 1]);
            }
        }
        lemma_insert_by_time(t, x);
        let rt = insert_by_time(t, x);
        vstd::seq_lib::lemma_multiset_commutative(seq![h], rt);
        vstd::seq_lib::lemma_multiset_commutative(seq![h], t);
        assert(seq![h] + t =~= s);
        assert(seq![h] =~= Seq::<SummaryView>::empty().push(h));
        let hb = time_key(h.updated_at_unix);
        assert forall|k: int| 0 <= k < t.len() implies time_key(
            #[trigger] t[k].updated_at_unix,
        ) <= hb by {
            assert(t[k] == s[k + 1]);
        }
        assert forall|i: int, j: int| 0 <= i < j < r.len() implies time_key(
            #[trigger] r[i].updated_at_unix,
        ) >= time_key(#[trigger] r[j].updated_at_unix) by {
            assert(r[j] == rt[j - 1]);
            if i > 0 {
                assert(r[i] == rt[i - 1]);
            } else {
                if rt[j - 1] != x {
                    let k = choose|k: int| 0 <= k < t.len() && t[k] == rt[j - 1];
                    assert(time_key(t[k].updated_at_unix) <= hb);
                }
                assert(time_key(rt[j - 1].updated_at_unix) <= hb);
            }
        }
        assert forall|i: int| 0 <= i < r.len() implies #[trigger] r[i] == x || s.contains(r[i]) by {
            if i > 0 {
                assert(r[i] == rt[i - 1]);
                if rt[i - 1] != x {
                    let k = choose|k: int| 0 <= k < t.len() && t[k] == rt[i - 1];
                    assert(s[k + 1] == t[k]);
                }
            } else {
                assert(s[0] == r[0]);
            }
        }
    }
}

/// Whether a summary carries the modification time `t`.
pub open spec fn at_time(t: Option<u64>) -> spec_fn(SummaryView) -> bool {
    |v: SummaryView| v.updated_at_unix == t
}

proof fn lemma_filter_none(s: Seq<SummaryView>, p: spec_fn(SummaryView) -> bool)
    requires
        forall|i: int| 0 <= i < s.len() ==> !p(#[trigger] s[i]),
    ensures
        s.filter(p) =~= Seq::<SummaryView>::empty(),
    decreases s.len(),
{
    if s.len() == 0 {
        s.filter_lemma(p);
    } else {
        let d = s.drop_last();
        assert forall|i: int| 0 <= i < d.len() implies !p(#[trigger] d[i]) by {
            assert(d[i] == s[i]);
        }
        lemma_filter_none(d, p);
        d.lemma_filter_push(s.last(), p);
        assert(d.push(s.last()) =~= s);
    }
}

proof fn lemma_insert_keeps_ties(s: Seq<SummaryView>, x: SummaryView, t: Option<u64>)
    requires
        is_newest_first(s),
    ensures
        insert_by_time(s, x).filter(at_time(t)) == if x.updated_at_unix == t {
            s.filter(at_time(t)).push(x)
        } else {
            s.filter(at_time(t))
        },
    decreases s.len(),
{
    let p = at_time(t);
    let e = Seq::<SummaryView>::empty();
    lemma_filter_none(e, p);
    e.lemma_filter_push(x, p);
    assert(e.push(x) =~= seq![x]);
    if s.len() == 0 {
    } else if time_key(s[0].updated_at_unix) < time_key(x.updated_at_unix) {
        Seq::filter_distributes_over_add(seq![x], s, p);
        if x.updated_at_unix == t {
            assert forall|i: int| 0 <= i < s.len() implies !p(#[trigger] s[i]) by {
                if i > 0 {
                    assert(time_key(s[0].updated_at_unix) >= time_key(s[i].updated_at_unix));
                }
            }
            lemma_filter_none(s, p);
            assert(seq![x] + Seq::<SummaryView>::empty() =~= Seq::<SummaryView>::empty().push(x));
        } else {
            assert(Seq::<SummaryView>::empty() + s.filter(p) =~= s.filter(p));
        }
    } else {
        let h = s[0];
        let rest = s.drop_first();
        assert(is_newest_first(rest)) by {
            assert forall|i: int, j: int| 0 <= i < j < rest.len() implies time_key(
                #[trigger] rest[i].updated_at_unix,
            ) >= time_key(#[trigger] rest[j].updated_at_unix) by {
                assert(rest[i] == s[i + 1] && rest[j] == s[j + 1]);
            }
        }
        lemma_insert_keeps_ties(rest, x, t);
        Seq::filter_distributes_over_add(seq![h], insert_by_time(rest, x), p);
        Seq::filter_distributes_over_add(seq![h], rest, p);
        assert(seq![h] + rest =~= s);
        let hf = seq![h].filter(p);
        assert((hf + rest.filter(p)).push(x) =~= hf + rest.filter(p).push(x));
    }
}

/// A listing is ordered newest first and holds exactly the summaries it was
/// made from, each as often as it occurs there. Summaries of equal time keep
/// their relative order, absent times counting as the oldest.
pub proof fn lemma_listing_order(s: Seq<SummaryView>)
    ensures
        is_newest_first(newest_first(s)),
        forall|t: Option<u64>| #[trigger] newest_first(s).filter(at_time(t)) == s.filter(at_time(t)),
        newest_first(s).to_multiset() == s.to_multiset(),
        newest_first(s).len() == s.len(),
    decreases s.len(),
{
    broadcast use vstd::seq_lib::group_to_multiset_ensures;

    if s.len() > 0 {
        lemma_listing_order(s.drop_last());
        lemma_insert_by_time(newest_first(s.drop_last()), s.last());
        assert(s.drop_last().push(s.last()) =~= s);
        assert forall|t: Option<u64>| #[trigger] newest_first(s).filter(at_time(t)) == s.filter(
            at_time(t),
        ) by {
            lemma_insert_keeps_ties(newest_first(s.drop_last()), s.last(), t);
            s.drop_last().lemma_filter_push(s.last(), at_time(t));
        }
    } else {
        assert forall|t: Option<u64>| #[trigger] newest_first(s).filter(at_time(t)) == s.filter(
            at_time(t),
        ) by {}
    }
    assert(newest_first(s).len() == newest_first(s).to_multiset().len());
    assert(s.len() == s.to_multiset().len());
}

/// A walk that found note files and other files gives exactly the note
/// files: each path that is kept is a note path from the walk, every note
/// path of the walk is kept, and the listing made of them has one summary
/// for each.
pub proof fn lemma_listing_complete(files: Seq<Seq<char>>, times: Seq<Option<u64>>)
    requires
        times.len() == note_paths(files).len(),
    ensures
        forall|p: Seq<char>| #[trigger]
            note_paths(files).contains(p) <==> files.contains(p) && is_note_path(p),
        newest_first(
            note_paths(files).zip_with(times).map_values(
                |e: (Seq<char>, Option<u64>)| summary_of(e.0, e.1),
            ),
        ).len() == note_paths(files).len(),
    decreases files.len(),
{
    let n = note_paths(files);
    let sums = n.zip_with(times).map_values(|e: (Seq<char>, Option<u64>)| summary_of(e.0, e.1));
    lemma_listing_order(sums);
    if files.len() > 0 {
        let init = files.drop_last();
        let prev = note_paths(init);
        lemma_listing_complete(init, Seq::new(prev.len(), |i: int| None::<u64>));
        assert forall|p: Seq<char>| #[trigger] n.contains(p) implies files.contains(p)
            && is_note_path(p) by {
            let i = choose|i: int| 0 <= i < n.len() && n[i] == p;
            if i < prev.len() {
                assert(prev[i] == p);
                assert(prev.contains(p));
                let j = choose|j: int| 0 <= j < init.len() && init[j] == p;
                assert(files[j] == p);
            } else {
                assert(files[files.len() - 1] == p);
            }
        }
        assert forall|p: Seq<char>| files.contains(p) && is_note_path(p) implies #[trigger] n.contains(
            p,
        ) by {
            let j = choose|j: int| 0 <= j < files.len() && files[j] == p;
            if j < init.len() {
                assert(init[j] == p);
                assert(init.contains(p));
                assert(prev.contains(p));
                let i = choose|i: int| 0 <= i < prev.len() && prev[i] == p;
                assert(n[i] == p);
            } else {
                assert(n[n.len() - 1] == p);
            }
        }
    }
}

/// Keeps the note files among the files found under `root`, in their order;
/// a root that does not exist is reported as not found.
pub fn list_note_files(root: &str, root_exists: bool, files: &Vec<String>) -> (r: AppResult<
    Vec<String>,
>)
    ensures
        !root_exists <==> r is Err,
        r matches Err(e) ==> e matches AppError::NotFound(m) && m@
            == "directory does not exist: "@ + root@,
        r matches Ok(v) ==> path_views(v@) == note_paths(path_views(files@)),
{
    if !root_exists {
        let mut m = String::from_str("directory does not exist: ");
        m.append(root);
        return Err(AppError::NotFound(m));
    }
    let mut out: Vec<String> = Vec::new();
    let mut i: usize = 0;
    while i < files.len()
        invariant
            i <= files@.len(),
            path_views(out@) == note_paths(path_views(files@).subrange(0, i as int)),
        decreases files@.len() - i,
    {
        let f = &files[i];
        assert(path_views(files@).subrange(0, i + 1).drop_last() =~= path_views(
            files@,
        ).subrange(0, i as int));
        if NoteEngine::from_path(f.as_str()).is_some() {
            out.push(f.clone());
            assert(path_views(out@) =~= note_paths(path_views(files@).subrange(0, i as int)).push(
                f@,
            ));
        }
        i = i + 1;
    }
    assert(path_views(files@).subrange(0, files@.len() as int) =~= path_views(files@));
    Ok(out)
}

fn older(a: Option<u64>, b: Option<u64>) -> (r: bool)
    ensures
        r == (time_key(a) < time_key(b)),
{
    match (a, b) {
        (_, None) => false,
        (None, Some(_)) => true,
        (Some(x), Some(y)) => x < y,
    }
}

fn insert_newest_first(out: &mut Vec<NoteSummary>, x: NoteSummary)
    ensures
        summary_views(final(out)@) == insert_by_time(summary_views(old(out)@), x@),
{
    let ghost before = summary_views(out@);
    let mut pos: usize = 0;
    while pos < out.len() && !older(out[pos].updated_at_unix, x.updated_at_unix)
        invariant
            pos <= out@.len(),
            before == summary_views(out@),
            forall|k: int|
                0 <= k < pos ==> time_key(#[trigger] before[k].updated_at_unix) >= time_key(
                    x.updated_at_unix,
                ),
        decreases out@.len() - pos,
    {
        pos = pos + 1;
    }
    proof {
        lemma_insert_at(before, x@, pos as int);
    }
    let ghost xv = x@;
    out.insert(pos, x);
    assert(summary_views(out@) =~= before.insert(pos as int, xv));
}

/// The summaries of the scanned notes, newest first. Each entry is a path
/// with its modification time; a path that is no note is refused.
pub fn list_notes(scanned: Vec<(String, Option<u64>)>) -> (r: AppResult<Vec<NoteSummary>>)
    ensures
        (forall|i: int| 0 <= i < scanned@.len() ==> is_note_path(#[trigger] scanned@[i].0@))
            <==> r is Ok,
        r matches Ok(v) ==> summary_views(v@) == newest_first(summaries_of(scanned@)),
        r matches Err(e) ==> exists|i: int|
            0 <= i < scanned@.len() && !is_note_path(#[trigger] scanned@[i].0@) && summary_post(
                scanned@[i].0@,
                scanned@[i].1,
                Err(e),
            ),
{
    let mut out: Vec<NoteSummary> = Vec::new();
    let mut i: usize = 0;
    while i < scanned.len()
        invariant
            i <= scanned@.len(),
            forall|k: int| 0 <= k < i ==> is_note_path(#[trigger] scanned@[k].0@),
            summary_views(out@) == newest_first(summaries_of(scanned@).subrange(0, i as int)),
        decreases scanned@.len() - i,
    {
        let entry = &scanned[i];
        let s = match to_note_summary(entry.0.as_str(), entry.1) {
            Ok(s) => s,
            Err(e) => {
                return Err(e);
            },
        };
        let ghost all = summaries_of(scanned@);
        assert(all.subrange(0, i + 1).drop_last() =~= all.subrange(0, i as int));
        assert(s@ == all[i as int]);
        insert_newest_first(&mut out, s);
        i = i + 1;
    }
    assert(summaries_of(scanned@).subrange(0, scanned@.len() as int) =~= summaries_of(scanned@));
    Ok(out)
}

/// The notes directory of the vault at `vault_path`, which must exist.
pub fn require_vault(vault_path: &str, exists: bool) -> (r: AppResult<String>)
    ensures
        exists <==> r is Ok,
        r matches Ok(d) ==> d@ == notes_dir(vault_path@),
        r matches Err(e) ==> e matches AppError::NotFound(m) && m@ == "vault does not exist: "@
            + vault_path@,
{
    if !exists {
        let mut m = String::from_str("vault does not exist: ");
        m.append(vault_path);
        return Err(AppError::NotFound(m));
    }
    Ok(notes_dir_of(vault_path))
}

/// Opens the vault at `path`, creating it when needed: gives the notes
/// directory that must exist under it. A blank path is refused.
pub fn open_or_create_vault(path: &str) -> (r: AppResult<String>)
    ensures
        trim_ws(path@).len() == 0 <==> r is Err,
        r matches Ok(d) ==> d@ == notes_dir(path@),
        r matches Err(e) ==> e matches AppError::InvalidInput(m) && m@
            == "vault path must not be empty"@,
{
    if trim(path).unicode_len() == 0 {
        return Err(AppError::InvalidInput(String::from_str("vault path must not be empty")));
    }
    Ok(notes_dir_of(path))
}

/// The snapshot of the vault at `path` holding `notes`.
pub fn vault_info(path: &str, notes: &Vec<NoteSummary>) -> (r: VaultInfo)
    ensures
        r.root_path@ == path@,
        r.note_count == notes@.len(),
{
    VaultInfo { root_path: String::from_str(path), note_count: notes.len() }
}

} // verus!
