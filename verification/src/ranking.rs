//! The order in which the progress of several habits is shown.

use vstd::prelude::*;
use std::cmp::Reverse;
use crate::achievements::Progress;

verus! {

/// The entries among `entries` whose progress is `progress`, in the order in
/// which they stand.
pub open spec fn with_progress(entries: Seq<Progress>, progress: i64) -> Seq<Progress>
    decreases entries.len(),
{
    if entries.len() == 0 {
        entries
    } else {
        let before = with_progress(entries.drop_last(), progress);
        if entries.last().progress == progress {
            before.push(entries.last())
        } else {
            before
        }
    }
}

/// Whether no entry stands before one of greater progress.
pub open spec fn furthest_first(entries: Seq<Progress>) -> bool {
    forall|i: int, j: int|
        0 <= i < j < entries.len() ==> entries[i].progress >= entries[j].progress
}

/// Whether `ranked` holds the entries of `given` with the furthest first,
/// those of equal progress in the order in which they were given.
pub open spec fn ranked_from(ranked: Seq<Progress>, given: Seq<Progress>) -> bool {
    &&& furthest_first(ranked)
    &&& ranked.len() == given.len()
    &&& forall|progress: i64| #[trigger]
        with_progress(ranked, progress) == with_progress(given, progress)
}

/// `slice::sort_by_key` of std, with `std::cmp::Reverse` of an entry's
/// progress as its key. Trusted: the sort is stable, so afterwards the
/// entries stand with the furthest first, there are as many as before, and
/// those of each progress are the ones that were there, in the order in
/// which they stood.
#[verifier::external_body]
pub(crate) fn rank(entries: &mut Vec<Progress>)
    ensures
        ranked_from(final(entries)@, old(entries)@),
{
    entries.sort_by_key(|p| Reverse(p.progress));
}

} // verus!
