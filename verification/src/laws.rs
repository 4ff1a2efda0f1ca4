//! Laws of the scan engine, stated and proved over the `scan_fold`
//! specification that `FileScanner::search_files` is contracted to.

use crate::digest::md5_hex;
use crate::progress::{
    lemma_rounded_pct_bounds, lemma_rounded_pct_complete, lemma_rounded_pct_monotone, rounded_pct,
};
use crate::scanner::{
    digest_outcome, entry_size, lemma_fold_scanned, scan_fold, total_size, FileContent, ScanEntry,
};
use vstd::prelude::*;

verus! {

/// How many regular files a snapshot holds.
pub open spec fn file_count(s: Seq<ScanEntry>) -> int
    decreases s.len(),
{
    if s.len() == 0 {
        0
    } else {
        file_count(s.drop_last()) + if s.last().meta matches Some(m) && m.is_file {
            1int
        } else {
            0int
        }
    }
}

/// Whether a walk entry is a regular file that hashes to a digest the
/// signature set holds — the condition under which a scan reports it.
pub open spec fn entry_matched(store: Set<Seq<char>>, fps: Seq<Seq<char>>, e: ScanEntry) -> bool {
    e.meta matches Some(m) && m.is_file && (digest_outcome(fps, m.content) matches Some(d)
        && store.contains(d))
}

/// No two walk entries share a path (true of any snapshot an actual
/// filesystem walk produces).
pub open spec fn paths_distinct(s: Seq<ScanEntry>) -> bool {
    forall|i: int, j: int| 0 <= i < j < s.len() ==> (#[trigger] s[i].path@) != (#[trigger] s[j].path@)
}

/// Every regular file of a scan that ran to completion is accounted for:
/// hashed files and skipped files together make up exactly the regular
/// files of the snapshot (and never more, even when the scan stopped
/// early).
pub proof fn lemma_every_file_accounted(
    store: Set<Seq<char>>,
    fps: Seq<Seq<char>>,
    total: int,
    stop: bool,
    s: Seq<ScanEntry>,
)
    ensures
        !scan_fold(store, fps, total, stop, s).stopped ==> scan_fold(
            store,
            fps,
            total,
            stop,
            s,
        ).analysed + scan_fold(store, fps, total, stop, s).skipped == file_count(s),
        scan_fold(store, fps, total, stop, s).analysed + scan_fold(
            store,
            fps,
            total,
            stop,
            s,
        ).skipped <= file_count(s),
    decreases s.len(),
{
    if s.len() > 0 {
        lemma_every_file_accounted(store, fps, total, stop, s.drop_last());
    }
}

/// Every reported match comes from some entry of the snapshot that is a
/// regular file whose digest the store holds.
pub proof fn lemma_matches_from_entries(
    store: Set<Seq<char>>,
    fps: Seq<Seq<char>>,
    total: int,
    stop: bool,
    s: Seq<ScanEntry>,
    p: Seq<char>,
)
    requires
        scan_fold(store, fps, total, stop, s).matches.contains(p),
    ensures
        exists|i: int|
            0 <= i < s.len() && (#[trigger] s[i].path@) == p && entry_matched(store, fps, s[i]),
    decreases s.len(),
{
    let st = scan_fold(store, fps, total, stop, s);
    let pre = scan_fold(store, fps, total, stop, s.drop_last());
    if pre.matches.contains(p) {
        lemma_matches_from_entries(store, fps, total, stop, s.drop_last(), p);
        let i = choose|i: int|
            0 <= i < s.drop_last().len() && (#[trigger] s.drop_last()[i].path@) == p
                && entry_matched(store, fps, s.drop_last()[i]);
        assert(s[i].path@ == p && entry_matched(store, fps, s[i]));
    } else {
        // The match can only have been pushed by the last entry.
        assert(st.matches == pre.matches.push(s.last().path@));
        assert(s[s.len() - 1].path@ == p && entry_matched(store, fps, s[s.len() - 1]));
    }
}

/// A file whose digest is on the false-positive list is never reported
/// as a match, whatever the signature store holds.
pub proof fn lemma_false_positive_suppressed(
    store: Set<Seq<char>>,
    fps: Seq<Seq<char>>,
    total: int,
    stop: bool,
    s: Seq<ScanEntry>,
    i: int,
)
    requires
        paths_distinct(s),
        0 <= i < s.len(),
        s[i].meta matches Some(m) && m.content matches FileContent::Data(d) && fps.contains(
            md5_hex(d@),
        ),
    ensures
        !scan_fold(store, fps, total, stop, s).matches.contains(s[i].path@),
{
    if scan_fold(store, fps, total, stop, s).matches.contains(s[i].path@) {
        lemma_matches_from_entries(store, fps, total, stop, s, s[i].path@);
        let j = choose|j: int|
            0 <= j < s.len() && (#[trigger] s[j].path@) == s[i].path@ && entry_matched(
                store,
                fps,
                s[j],
            );
        assert(j == i);
        assert(digest_outcome(fps, s[i].meta->Some_0.content) is None);
        assert(false);
    }
}

/// Scanning is a function of the snapshot, the signature set, the
/// false-positive list and the early-stop option alone: the same
/// unchanged tree scanned twice against the same store yields the
/// identical outcome.
pub proof fn lemma_scan_idempotent(
    store1: Set<Seq<char>>,
    fps1: Seq<Seq<char>>,
    s1: Seq<ScanEntry>,
    stop1: bool,
    store2: Set<Seq<char>>,
    fps2: Seq<Seq<char>>,
    s2: Seq<ScanEntry>,
    stop2: bool,
)
    requires
        store1 == store2,
        fps1 == fps2,
        s1 == s2,
        stop1 == stop2,
    ensures
        scan_fold(store1, fps1, total_size(s1), stop1, s1) == scan_fold(
            store2,
            fps2,
            total_size(s2),
            stop2,
            s2,
        ),
{
}

/// The paths of every matched regular file, in walk order: what a scan
/// without early stop reports.
pub open spec fn all_match_paths(
    store: Set<Seq<char>>,
    fps: Seq<Seq<char>>,
    s: Seq<ScanEntry>,
) -> Seq<Seq<char>>
    decreases s.len(),
{
    if s.len() == 0 {
        Seq::empty()
    } else {
        all_match_paths(store, fps, s.drop_last()) + if entry_matched(store, fps, s.last()) {
            seq![s.last().path@]
        } else {
            Seq::<Seq<char>>::empty()
        }
    }
}

/// Without early stop, a scan reports exactly the matched files, all of
/// them, in walk-encounter order, and never stops early.
pub proof fn lemma_scan_reports_all_matches(
    store: Set<Seq<char>>,
    fps: Seq<Seq<char>>,
    total: int,
    s: Seq<ScanEntry>,
)
    ensures
        scan_fold(store, fps, total, false, s).matches == all_match_paths(store, fps, s),
        !scan_fold(store, fps, total, false, s).stopped,
    decreases s.len(),
{
    if s.len() > 0 {
        lemma_scan_reports_all_matches(store, fps, total, s.drop_last());
        if entry_matched(store, fps, s.last()) {
            assert(all_match_paths(store, fps, s) =~= all_match_paths(
                store,
                fps,
                s.drop_last(),
            ).push(s.last().path@));
        } else {
            assert(all_match_paths(store, fps, s) =~= all_match_paths(store, fps, s.drop_last()));
        }
    }
}

/// With early stop, a scan that encounters any match reports exactly one
/// match — the first one in walk order — and a scan that encounters none
/// reports none.
pub proof fn lemma_stop_on_first_match(
    store: Set<Seq<char>>,
    fps: Seq<Seq<char>>,
    total: int,
    s: Seq<ScanEntry>,
)
    ensures
        (forall|i: int| 0 <= i < s.len() ==> !entry_matched(store, fps, #[trigger] s[i]))
            ==> scan_fold(store, fps, total, true, s).matches == Seq::<Seq<char>>::empty()
            && !scan_fold(store, fps, total, true, s).stopped,
        (exists|i: int| 0 <= i < s.len() && entry_matched(store, fps, #[trigger] s[i])) ==> ({
            let st = scan_fold(store, fps, total, true, s);
            &&& st.stopped
            &&& st.matches.len() == 1
            &&& exists|i: int|
                {
                    &&& 0 <= i < s.len()
                    &&& entry_matched(store, fps, #[trigger] s[i])
                    &&& st.matches[0] == s[i].path@
                    &&& forall|j: int| 0 <= j < i ==> !entry_matched(store, fps, #[trigger] s[j])
                }
        }),
    decreases s.len(),
{
    if s.len() > 0 {
        lemma_stop_on_first_match(store, fps, total, s.drop_last());
        let st = scan_fold(store, fps, total, true, s);
        let pre = scan_fold(store, fps, total, true, s.drop_last());
        if exists|i: int|
            0 <= i < s.drop_last().len() && entry_matched(store, fps, #[trigger] s.drop_last()[i]) {
            let i = choose|i: int|
                {
                    &&& 0 <= i < s.drop_last().len()
                    &&& entry_matched(store, fps, #[trigger] s.drop_last()[i])
                    &&& pre.matches[0] == s.drop_last()[i].path@
                    &&& forall|j: int|
                        0 <= j < i ==> !entry_matched(store, fps, #[trigger] s.drop_last()[j])
                };
            assert(0 <= i < s.len() && entry_matched(store, fps, s[i]));
            assert(st == pre);
            assert(st.matches[0] == s[i].path@);
            assert forall|j: int| 0 <= j < i implies !entry_matched(store, fps, #[trigger] s[j]) by {
                assert(s.drop_last()[j] == s[j]);
            }
        } else {
            assert(forall|i: int|
                0 <= i < s.drop_last().len() ==> !entry_matched(
                    store,
                    fps,
                    #[trigger] s.drop_last()[i],
                ));
            assert forall|i: int| 0 <= i < s.len() - 1 implies !entry_matched(
                store,
                fps,
                #[trigger] s[i],
            ) by {
                assert(s.drop_last()[i] == s[i]);
            }
            assert(pre.matches == Seq::<Seq<char>>::empty() && !pre.stopped);
            if entry_matched(store, fps, s.last()) {
                assert(st.matches =~= seq![s.last().path@]);
                assert(st.stopped);
                let i = s.len() - 1;
                assert(0 <= i < s.len() && entry_matched(store, fps, s[i]) && st.matches[0]
                    == s[i].path@ && forall|j: int|
                    0 <= j < i ==> !entry_matched(store, fps, #[trigger] s[j]));
            } else {
                assert(st.matches == Seq::<Seq<char>>::empty() && !st.stopped);
            }
        }
    }
}

/// The internal progress invariant of a scan job: the reported
/// percentages are within bounds and non-decreasing, and the last report
/// reflects the bytes accounted so far.
proof fn lemma_progress_invariant(
    store: Set<Seq<char>>,
    fps: Seq<Seq<char>>,
    total: int,
    stop: bool,
    s: Seq<ScanEntry>,
)
    requires
        0 < total,
        total_size(s) <= total,
    ensures
        ({
            let st = scan_fold(store, fps, total, stop, s);
            &&& forall|i: int, j: int|
                0 <= i <= j < st.emitted.len() ==> #[trigger] st.emitted[i] <= #[trigger] st.emitted[j]
            &&& forall|i: int| 0 <= i < st.emitted.len() ==> 0 <= #[trigger] st.emitted[i] <= 100
            &&& st.last matches Some(l) ==> st.emitted.len() > 0 && st.emitted.last() == l && l
                == rounded_pct(st.scanned, total)
            &&& st.last is None ==> st.emitted.len() == 0 && st.scanned == 0 && (!st.stopped
                ==> file_count(s) == 0)
        }),
    decreases s.len(),
{
    if s.len() > 0 {
        let dl = s.drop_last();
        assert(total_size(dl) <= total_size(s)) by {
            assert(entry_size(s.last()) >= 0);
        }
        lemma_progress_invariant(store, fps, total, stop, dl);
        lemma_fold_scanned(store, fps, total, stop, dl);
        let pre = scan_fold(store, fps, total, stop, dl);
        let st = scan_fold(store, fps, total, stop, s);
        if !pre.stopped && (s.last().meta matches Some(m) && m.is_file) {
            let m = s.last().meta->Some_0;
            let scanned = pre.scanned + m.size;
            assert(scanned <= total_size(s));
            let pct = rounded_pct(scanned, total);
            lemma_rounded_pct_bounds(scanned, total);
            lemma_rounded_pct_monotone(pre.scanned, scanned, total);
            match pre.last {
                Some(l) => {
                    assert(l <= pct) by {
                        lemma_rounded_pct_bounds(pre.scanned, total);
                    }
                },
                None => {},
            }
        }
    }
}

/// Progress is monotone: the percentages one scan job reports never
/// decrease, each lies in `[0, 100]`, and a job over at least one file
/// that runs to completion reports 100 last.
pub proof fn lemma_progress_monotone(
    store: Set<Seq<char>>,
    fps: Seq<Seq<char>>,
    stop: bool,
    s: Seq<ScanEntry>,
)
    requires
        0 < total_size(s),
    ensures
        ({
            let st = scan_fold(store, fps, total_size(s), stop, s);
            &&& forall|i: int, j: int|
                0 <= i <= j < st.emitted.len() ==> #[trigger] st.emitted[i] <= #[trigger] st.emitted[j]
            &&& forall|i: int| 0 <= i < st.emitted.len() ==> 0 <= #[trigger] st.emitted[i] <= 100
            &&& !st.stopped ==> st.emitted.len() > 0 && st.emitted.last() == 100
        }),
{
    let total = total_size(s);
    lemma_progress_invariant(store, fps, total, stop, s);
    lemma_fold_scanned(store, fps, total, stop, s);
    let st = scan_fold(store, fps, total, stop, s);
    if !st.stopped {
        if st.last is None {
            // No file was processed, so no bytes were accounted; but the
            // total is positive and equals the bytes accounted, which is
            // impossible.
            assert(st.scanned == total_size(s));
            assert(false);
        }
        lemma_rounded_pct_complete(total);
    }
}

} // verus!
