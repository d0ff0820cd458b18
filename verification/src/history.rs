//! A look back over a habit's records: the streak that ends with the last
//! done day, and plain counts of the records.

use vstd::prelude::*;
use crate::targets::entries_of;
use crate::targets::tally;
use crate::targets::only_if;
use crate::targets::Entry;
use crate::targets::Target;
use crate::targets::TargetDetails;
use crate::targets::TargetType;
use crate::targets::MAX_RECORDS;

verus! {

/// The position of the last done day among the first `n` records, and -1
/// where there is none.
pub open spec fn last_done(records: Seq<TargetDetails>, n: int) -> int
    decreases n,
{
    if n <= 0 {
        -1
    } else if records[n - 1].target_type == TargetType::Done {
        n - 1
    } else {
        last_done(records, n - 1)
    }
}

/// Whether a record can stand in a streak.
pub open spec fn keeps_streak(record: TargetDetails, allow_skip: bool) -> bool {
    record.target_type == TargetType::Done || (allow_skip && record.target_type
        == TargetType::Skip)
}

/// What a walk over records has gathered: the records of the streak and the
/// days failed.
pub struct Walk {
    pub streak: Seq<TargetDetails>,
    pub failed: int,
}

/// The day of the record before position `i` of the walk, which starts
/// after a record of the day `start`.
pub open spec fn day_before(walk: Seq<TargetDetails>, start: int, i: int) -> int {
    if i <= 0 {
        start
    } else {
        walk[i - 1].date as int
    }
}

/// What the first `n` steps of the walk gather. A record of the day before
/// the last one seen joins the streak where it can stand in one; any other
/// adds the days between the two, less one, to the days failed.
pub open spec fn walked(walk: Seq<TargetDetails>, start: int, allow_skip: bool, n: int) -> Walk
    decreases n,
{
    if n <= 0 {
        Walk { streak: Seq::empty(), failed: 0 }
    } else {
        let before = walked(walk, start, allow_skip, n - 1);
        let record = walk[n - 1];
        let gap = day_before(walk, start, n - 1) - record.date;
        if gap == 1 && keeps_streak(record, allow_skip) {
            Walk { streak: before.streak.push(record), failed: before.failed }
        } else {
            Walk { streak: before.streak, failed: before.failed + (gap - 1) }
        }
    }
}

/// The records other than the last done day, from the latest back to the
/// first.
pub open spec fn way_back(records: Seq<TargetDetails>) -> Seq<TargetDetails> {
    records.remove(last_done(records, records.len() as int)).reverse()
}

/// The last done day is a done day among the records.
proof fn lemma_last_done(records: Seq<TargetDetails>, n: int)
    requires
        0 <= n <= records.len(),
    ensures
        -1 <= last_done(records, n) < n,
        last_done(records, n) >= 0 ==> records[last_done(records, n)].target_type
            == TargetType::Done,
        forall|i: int|
            last_done(records, n) < i < n ==> records[i].target_type != TargetType::Done,
    decreases n,
{
    if n > 0 && records[n - 1].target_type != TargetType::Done {
        lemma_last_done(records, n - 1);
    }
}

/// The position of the last done day, if there is one.
pub fn last_done_position(targets: &Vec<TargetDetails>) -> (position: Option<usize>)
    ensures
        position is Some <==> last_done(targets@, targets.len() as int) >= 0,
        position matches Some(at) ==> at == last_done(targets@, targets.len() as int),
{
    let mut at: usize = targets.len();
    while at > 0
        invariant
            at <= targets.len(),
            last_done(targets@, targets.len() as int) == last_done(targets@, at as int),
        decreases at,
    {
        at -= 1;
        if targets[at].target_type == TargetType::Done {
            return Some(at);
        }
    }
    None
}

impl Target {
    /// The streak that ends with the last done day, that day first, and the
    /// days failed, as a walk from the latest record back to the first
    /// finds them.
    pub fn get_streak_and_failures(targets: Vec<TargetDetails>, allow_skip: bool) -> (result: (
        Vec<TargetDetails>,
        i64,
    ))
        requires
            targets.len() <= MAX_RECORDS,
            last_done(targets@, targets.len() as int) >= 0,
        ensures
            ({
                let at = last_done(targets@, targets.len() as int);
                let walk = walked(
                    way_back(targets@),
                    targets@[at].date as int,
                    allow_skip,
                    targets.len() - 1,
                );
                &&& result.0@ == seq![targets@[at]] + walk.streak
                &&& result.1 == walk.failed
            }),
    {
        let n: usize = targets.len();
        let at: usize = match last_done_position(&targets) {
            Some(at) => at,
            None => 0,
        };
        proof {
            lemma_last_done(targets@, n as int);
        }
        let mut rest: Vec<TargetDetails> = Vec::new();
        let mut k: usize = n;
        while k > 0
            invariant
                k <= n,
                at < n,
                n == targets.len(),
                rest@.len() == (if k <= at {
                    n - k - 1
                } else {
                    n - k
                }),
                forall|j: int|
                    0 <= j < rest@.len() ==> #[trigger] rest@[j] == (if j < n - 1 - at {
                        targets@[n - 1 - j]
                    } else {
                        targets@[n - 2 - j]
                    }),
            decreases k,
        {
            k -= 1;
            if k != at {
                rest.push(targets[k].duplicate());
            }
        }
        assert(rest@ =~= way_back(targets@));
        let mut streak_targets: Vec<TargetDetails> = Vec::new();
        streak_targets.push(targets[at].duplicate());
        let start: i32 = targets[at].date;
        let mut prev_date: i32 = start;
        let mut failed_days: i64 = 0;
        let mut i: usize = 0;
        while i < rest.len()
            invariant
                i <= rest.len(),
                rest@.len() == n - 1,
                n <= MAX_RECORDS,
                at < n,
                n == targets.len(),
                start == targets@[at as int].date,
                prev_date == day_before(rest@, start as int, i as int),
                streak_targets@ == seq![targets@[at as int]] + walked(
                    rest@,
                    start as int,
                    allow_skip,
                    i as int,
                ).streak,
                failed_days == walked(rest@, start as int, allow_skip, i as int).failed,
                -i * 0x1_0000_0000 <= failed_days <= i * 0x1_0000_0000,
            decreases rest.len() - i,
        {
            let target = &rest[i];
            let date: i32 = target.date;
            let gap: i64 = prev_date as i64 - date as i64;
            if gap == 1 && (target.target_type == TargetType::Done || allow_skip
                && target.target_type == TargetType::Skip) {
                streak_targets.push(target.duplicate());
                assert(streak_targets@ =~= seq![targets@[at as int]] + walked(
                    rest@,
                    start as int,
                    allow_skip,
                    i + 1,
                ).streak);
            } else {
                failed_days += gap - 1;
            }
            prev_date = date;
            i += 1;
        }
        (streak_targets, failed_days)
    }

    /// The number of done days.
    pub fn get_completed(targets: &Vec<TargetDetails>) -> (completed: i32)
        requires
            targets.len() <= MAX_RECORDS,
        ensures
            completed == tally(entries_of(targets@), is_done()),
    {
        let ghost entries = entries_of(targets@);
        let mut completed: i32 = 0;
        let mut i: usize = 0;
        assert(entries.take(0) =~= Seq::<Entry>::empty());
        while i < targets.len()
            invariant
                i <= targets.len() <= MAX_RECORDS,
                entries == entries_of(targets@),
                completed == tally(entries.take(i as int), is_done()),
                0 <= completed <= i,
            decreases targets.len() - i,
        {
            proof {
                let upto = entries.take(i as int + 1);
                assert(upto.drop_last() =~= entries.take(i as int));
                assert(upto.last() == targets@[i as int]@);
            }
            if targets[i].target_type == TargetType::Done {
                completed += 1;
            }
            i += 1;
        }
        assert(entries.take(targets.len() as int) =~= entries);
        completed
    }

    /// The number of days for which something was logged.
    pub fn get_total(targets: &Vec<TargetDetails>) -> (total: i32)
        requires
            targets.len() <= MAX_RECORDS,
        ensures
            total == tally(entries_of(targets@), is_logged()),
    {
        let ghost entries = entries_of(targets@);
        let mut total: i32 = 0;
        let mut i: usize = 0;
        assert(entries.take(0) =~= Seq::<Entry>::empty());
        while i < targets.len()
            invariant
                i <= targets.len() <= MAX_RECORDS,
                entries == entries_of(targets@),
                total == tally(entries.take(i as int), is_logged()),
                0 <= total <= i,
            decreases targets.len() - i,
        {
            proof {
                let upto = entries.take(i as int + 1);
                assert(upto.drop_last() =~= entries.take(i as int));
                assert(upto.last() == targets@[i as int]@);
            }
            if targets[i].target_type != TargetType::Empty {
                total += 1;
            }
            i += 1;
        }
        assert(entries.take(targets.len() as int) =~= entries);
        total
    }

    /// The number of skipped days.
    pub fn get_skipped(targets: &Vec<TargetDetails>) -> (skipped: i32)
        requires
            targets.len() <= MAX_RECORDS,
        ensures
            skipped == tally(entries_of(targets@), is_skipped()),
    {
        let ghost entries = entries_of(targets@);
        let mut skipped: i32 = 0;
        let mut i: usize = 0;
        assert(entries.take(0) =~= Seq::<Entry>::empty());
        while i < targets.len()
            invariant
                i <= targets.len() <= MAX_RECORDS,
                entries == entries_of(targets@),
                skipped == tally(entries.take(i as int), is_skipped()),
                0 <= skipped <= i,
            decreases targets.len() - i,
        {
            proof {
                let upto = entries.take(i as int + 1);
                assert(upto.drop_last() =~= entries.take(i as int));
                assert(upto.last() == targets@[i as int]@);
            }
            if targets[i].target_type == TargetType::Skip {
                skipped += 1;
            }
            i += 1;
        }
        assert(entries.take(targets.len() as int) =~= entries);
        skipped
    }
}

/// 1 for a done day, 0 for any other.
pub open spec fn is_done() -> spec_fn(Entry) -> int {
    |e: Entry| only_if(e.kind == TargetType::Done, 1)
}

/// 1 for a day for which something was logged, 0 for an empty one.
pub open spec fn is_logged() -> spec_fn(Entry) -> int {
    |e: Entry| only_if(e.kind != TargetType::Empty, 1)
}

/// 1 for a skipped day, 0 for any other.
pub open spec fn is_skipped() -> spec_fn(Entry) -> int {
    |e: Entry| only_if(e.kind == TargetType::Skip, 1)
}

} // verus!
