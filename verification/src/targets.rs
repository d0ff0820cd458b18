//! Daily records of a habit and the statistics derived from them.
//!
//! The statistics are defined by a single pass over the records in the order
//! given: `statistics_of` states what that pass yields, one record at a time,
//! and `Target::calculate_statistics` computes exactly that.

use vstd::prelude::*;
use crate::calendar::EPOCH_DAY;

verus! {

/// What was logged for a day.
#[derive(Debug, Clone, Copy, PartialEq, Eq, Structural)]
pub enum TargetType {
    /// The habit was done.
    Done,
    /// The day was skipped on purpose.
    Skip,
    /// Nothing was logged.
    Empty,
}

/// One day's record of a habit, as handed to the engine.
#[derive(Debug, Clone)]
pub struct TargetDetails {
    pub id: String,
    pub habit_id: String,
    /// The calendar day of the record, in days from 1970-01-01.
    pub date: i32,
    /// When the record was written, in seconds from 1970-01-01T00:00:00Z.
    pub create_date: i64,
    pub target_type: TargetType,
    /// The amount logged for the day.
    pub value: i32,
}

/// What the statistics read from a record.
pub struct Entry {
    pub date: int,
    pub kind: TargetType,
    pub value: int,
}

impl View for TargetDetails {
    type V = Entry;

    open spec fn view(&self) -> Entry {
        Entry { date: self.date as int, kind: self.target_type, value: self.value as int }
    }
}

impl TargetDetails {
    /// The stored record as the engine takes it.
    pub fn parse(target: &Target) -> (details: Self)
        requires
            target.id is Some,
        ensures
            Some(details.id) == target.id,
            details.habit_id == target.habit_id,
            details.date == target.date,
            details.create_date == target.create_date,
            details.target_type == target.target_type,
            details.value == target.value,
    {
        TargetDetails {
            id: match &target.id {
                Some(id) => id.clone(),
                None => String::new(),
            },
            habit_id: target.habit_id.clone(),
            date: target.date,
            create_date: target.create_date,
            target_type: target.target_type,
            value: target.value,
        }
    }

    /// A record equal to this one.
    pub fn duplicate(&self) -> (copy: Self)
        ensures
            copy == *self,
    {
        TargetDetails {
            id: self.id.clone(),
            habit_id: self.habit_id.clone(),
            date: self.date,
            create_date: self.create_date,
            target_type: self.target_type,
            value: self.value,
        }
    }
}

/// The entries of a list of records, in the same order.
pub open spec fn entries_of(targets: Seq<TargetDetails>) -> Seq<Entry> {
    targets.map_values(|t: TargetDetails| t@)
}

/// The settings of one computation.
pub struct Rules {
    /// Whether a skipped day keeps a streak alive.
    pub allow_skip: bool,
    /// Whether a done day must reach the goal to count as completed.
    pub allow_partial_completion: bool,
    pub daily_goal: int,
    /// The day on which the statistics are computed.
    pub today: int,
}

/// The statistics as mathematical integers.
pub struct Summary {
    pub current_streak_start_date: Option<int>,
    pub max_streak_count: int,
    pub prev_streak_count: int,
    pub current_streak_count: int,
    pub current_streak_count_this_week: int,
    pub current_streak_values: int,
    pub current_streak_values_this_week: int,
    pub failed_count: int,
    pub failed_count_this_week: int,
    pub skipped_count: int,
    pub skipped_count_this_week: int,
    pub total_count: int,
    pub total_count_this_week: int,
    pub total_values_count: int,
    pub total_values_count_this_week: int,
    pub completed_count: int,
    pub completed_count_this_week: int,
    pub completed_values: int,
    pub completed_values_this_week: int,
    pub completed_today: bool,
}

/// The statistics of no records at all.
pub open spec fn empty_summary() -> Summary {
    Summary {
        current_streak_start_date: None,
        max_streak_count: 0,
        prev_streak_count: 0,
        current_streak_count: 0,
        current_streak_count_this_week: 0,
        current_streak_values: 0,
        current_streak_values_this_week: 0,
        failed_count: 0,
        failed_count_this_week: 0,
        skipped_count: 0,
        skipped_count_this_week: 0,
        total_count: 0,
        total_count_this_week: 0,
        total_values_count: 0,
        total_values_count_this_week: 0,
        completed_count: 0,
        completed_count_this_week: 0,
        completed_values: 0,
        completed_values_this_week: 0,
        completed_today: false,
    }
}

/// Whether `date` is one of the seven days that end with `today`.
pub open spec fn in_trailing_week(today: int, date: int) -> bool {
    0 <= today - date < 7
}

/// `value + delta` when `date` lies in the trailing week, else `value`.
pub open spec fn week_gated(value: int, delta: int, date: int, today: int) -> int {
    if in_trailing_week(today, date) {
        value + delta
    } else {
        value
    }
}

/// The larger of two numbers.
pub open spec fn larger(a: int, b: int) -> int {
    if a >= b {
        a
    } else {
        b
    }
}

/// A fresh streak that starts with `e`, on top of the counters of `s`.
pub open spec fn streak_opened(s: Summary, e: Entry, today: int) -> Summary {
    Summary {
        current_streak_count: 1,
        current_streak_values: e.value,
        current_streak_start_date: Some(e.date),
        current_streak_count_this_week: week_gated(0, 1, e.date, today),
        current_streak_values_this_week: week_gated(0, e.value, e.date, today),
        ..s
    }
}

/// The effect on the streak of a record that counts, `days_diff` days after
/// the record before it.
pub open spec fn streak_updated(s: Summary, e: Entry, days_diff: int, today: int) -> Summary {
    let streak = if s.current_streak_start_date is None {
        Summary { max_streak_count: larger(s.max_streak_count, 1), ..streak_opened(s, e, today) }
    } else if days_diff == 1 {
        Summary {
            current_streak_count: s.current_streak_count + 1,
            current_streak_values: s.current_streak_values + e.value,
            current_streak_count_this_week: week_gated(
                s.current_streak_count_this_week,
                1,
                e.date,
                today,
            ),
            current_streak_values_this_week: week_gated(
                s.current_streak_values_this_week,
                e.value,
                e.date,
                today,
            ),
            max_streak_count: larger(s.max_streak_count, s.current_streak_count + 1),
            ..s
        }
    } else {
        Summary {
            failed_count: s.failed_count + (days_diff - 1),
            failed_count_this_week: week_gated(
                s.failed_count_this_week,
                days_diff - 1,
                e.date,
                today,
            ),
            max_streak_count: larger(s.max_streak_count, s.current_streak_count),
            prev_streak_count: s.current_streak_count,
            ..streak_opened(s, e, today)
        }
    };
    Summary {
        total_count: streak.total_count + 1,
        total_count_this_week: week_gated(streak.total_count_this_week, 1, e.date, today),
        ..streak
    }
}

/// Whether a done day with this value counts as completed.
pub open spec fn counts_as_completed(value: int, rules: Rules) -> bool {
    !rules.allow_partial_completion || value >= rules.daily_goal
}

/// The statistics after one more record `e`, where `prev_date` is the day of
/// the record before it.
pub open spec fn after_record(s: Summary, e: Entry, prev_date: int, rules: Rules) -> Summary {
    let days_diff = e.date - prev_date;
    if e.kind == TargetType::Done {
        let marked = Summary {
            completed_today: s.completed_today || e.date == rules.today,
            ..s
        };
        let streak = streak_updated(marked, e, days_diff, rules.today);
        let summed = Summary {
            total_values_count: streak.total_values_count + e.value,
            total_values_count_this_week: week_gated(
                streak.total_values_count_this_week,
                e.value,
                e.date,
                rules.today,
            ),
            ..streak
        };
        if counts_as_completed(e.value, rules) {
            Summary {
                completed_count: summed.completed_count + 1,
                completed_values: summed.completed_values + e.value,
                completed_count_this_week: week_gated(
                    summed.completed_count_this_week,
                    1,
                    e.date,
                    rules.today,
                ),
                completed_values_this_week: week_gated(
                    summed.completed_values_this_week,
                    e.value,
                    e.date,
                    rules.today,
                ),
                ..summed
            }
        } else {
            summed
        }
    } else if rules.allow_skip && e.kind == TargetType::Skip {
        let streak = streak_updated(s, e, days_diff, rules.today);
        Summary {
            skipped_count: streak.skipped_count + 1,
            skipped_count_this_week: week_gated(
                streak.skipped_count_this_week,
                1,
                e.date,
                rules.today,
            ),
            ..streak
        }
    } else if s.current_streak_start_date is Some {
        Summary {
            failed_count: s.failed_count + (days_diff - 1),
            current_streak_count: 0,
            current_streak_start_date: None,
            ..s
        }
    } else {
        s
    }
}

/// The day of the last of `entries`, or 1970-01-01 when there is none.
pub open spec fn last_date(entries: Seq<Entry>) -> int {
    if entries.len() == 0 {
        EPOCH_DAY as int
    } else {
        entries.last().date
    }
}

/// The statistics of `entries`, read in the order given.
pub open spec fn statistics_of(entries: Seq<Entry>, rules: Rules) -> Summary
    decreases entries.len(),
{
    if entries.len() == 0 {
        empty_summary()
    } else {
        let before = entries.drop_last();
        after_record(statistics_of(before, rules), entries.last(), last_date(before), rules)
    }
}

/// The statistics of a habit, derived from its records on demand.
#[derive(Debug, Clone)]
pub struct TargetStatistics {
    pub current_streak_start_date: Option<i32>,
    pub max_streak_count: i64,
    pub prev_streak_count: i64,
    pub current_streak_count: i64,
    pub current_streak_count_this_week: i64,
    pub current_streak_values: i64,
    pub current_streak_values_this_week: i64,
    pub failed_count: i64,
    pub failed_count_this_week: i64,
    pub skipped_count: i64,
    pub skipped_count_this_week: i64,
    pub total_count: i64,
    pub total_count_this_week: i64,
    pub total_values_count: i64,
    pub total_values_count_this_week: i64,
    pub completed_count: i64,
    pub completed_count_this_week: i64,
    pub completed_values: i64,
    pub completed_values_this_week: i64,
    pub completed_today: bool,
}

impl View for TargetStatistics {
    type V = Summary;

    open spec fn view(&self) -> Summary {
        Summary {
            current_streak_start_date: match self.current_streak_start_date {
                Some(d) => Some(d as int),
                None => None,
            },
            max_streak_count: self.max_streak_count as int,
            prev_streak_count: self.prev_streak_count as int,
            current_streak_count: self.current_streak_count as int,
            current_streak_count_this_week: self.current_streak_count_this_week as int,
            current_streak_values: self.current_streak_values as int,
            current_streak_values_this_week: self.current_streak_values_this_week as int,
            failed_count: self.failed_count as int,
            failed_count_this_week: self.failed_count_this_week as int,
            skipped_count: self.skipped_count as int,
            skipped_count_this_week: self.skipped_count_this_week as int,
            total_count: self.total_count as int,
            total_count_this_week: self.total_count_this_week as int,
            total_values_count: self.total_values_count as int,
            total_values_count_this_week: self.total_values_count_this_week as int,
            completed_count: self.completed_count as int,
            completed_count_this_week: self.completed_count_this_week as int,
            completed_values: self.completed_values as int,
            completed_values_this_week: self.completed_values_this_week as int,
            completed_today: self.completed_today,
        }
    }
}

/// The most records one computation takes.
pub const MAX_RECORDS: usize = 0x7fff_ffff;

/// Whether every counter of `s` is what `n` records can at most amount to:
/// counts up to `n`, sums of values up to `n` times the largest value, and
/// failed days up to `n` times the widest gap between two days.
pub open spec fn within_records(s: Summary, n: int) -> bool {
    &&& 0 <= s.max_streak_count <= n
    &&& 0 <= s.prev_streak_count <= n
    &&& 0 <= s.current_streak_count <= n
    &&& 0 <= s.current_streak_count_this_week <= n
    &&& 0 <= s.skipped_count <= n
    &&& 0 <= s.skipped_count_this_week <= n
    &&& 0 <= s.total_count <= n
    &&& 0 <= s.total_count_this_week <= n
    &&& 0 <= s.completed_count <= n
    &&& 0 <= s.completed_count_this_week <= n
    &&& -n * 0x8000_0000 <= s.current_streak_values <= n * 0x8000_0000
    &&& -n * 0x8000_0000 <= s.current_streak_values_this_week <= n * 0x8000_0000
    &&& -n * 0x8000_0000 <= s.total_values_count <= n * 0x8000_0000
    &&& -n * 0x8000_0000 <= s.total_values_count_this_week <= n * 0x8000_0000
    &&& -n * 0x8000_0000 <= s.completed_values <= n * 0x8000_0000
    &&& -n * 0x8000_0000 <= s.completed_values_this_week <= n * 0x8000_0000
    &&& -n * 0x1_0000_0000 <= s.failed_count <= n * 0x1_0000_0000
    &&& -n * 0x1_0000_0000 <= s.failed_count_this_week <= n * 0x1_0000_0000
}

impl TargetStatistics {
    /// The statistics of no records: every counter zero, no streak open.
    pub fn new() -> (stats: Self)
        ensures
            stats@ == empty_summary(),
    {
        Self {
            current_streak_start_date: None,
            max_streak_count: 0,
            prev_streak_count: 0,
            current_streak_count: 0,
            current_streak_count_this_week: 0,
            current_streak_values: 0,
            current_streak_values_this_week: 0,
            failed_count: 0,
            failed_count_this_week: 0,
            skipped_count: 0,
            skipped_count_this_week: 0,
            total_count: 0,
            total_count_this_week: 0,
            total_values_count: 0,
            total_values_count_this_week: 0,
            completed_count: 0,
            completed_count_this_week: 0,
            completed_values: 0,
            completed_values_this_week: 0,
            completed_today: false,
        }
    }

    /// Takes a record that counts into the streak: opens a streak when none
    /// is open, extends the open one when the record follows the last by one
    /// day, and otherwise closes it, counts the days missed and opens a new
    /// one.
    pub fn update_streak(&mut self, target: &TargetDetails, days_diff: i64, today: i32)
        requires
            within_records(old(self)@, MAX_RECORDS - 1),
            -0x1_0000_0000 <= days_diff - 1 <= 0x1_0000_0000,
        ensures
            final(self)@ == streak_updated(old(self)@, target@, days_diff as int, today as int),
    {
        let value: i64 = target.value as i64;
        if self.current_streak_start_date.is_none() {
            self.current_streak_count = 1;
            self.current_streak_values = value;
            self.current_streak_start_date = Some(target.date);
            self.current_streak_count_this_week = Target::check_prev_week(0, 1, target.date, today);
            self.current_streak_values_this_week = Target::check_prev_week(
                0,
                value,
                target.date,
                today,
            );
            self.max_streak_count = larger_of(self.max_streak_count, self.current_streak_count);
        } else if days_diff == 1 {
            self.current_streak_count += 1;
            self.current_streak_values += value;
            self.current_streak_count_this_week = Target::check_prev_week(
                self.current_streak_count_this_week,
                1,
                target.date,
                today,
            );
            self.current_streak_values_this_week = Target::check_prev_week(
                self.current_streak_values_this_week,
                value,
                target.date,
                today,
            );
            self.max_streak_count = larger_of(self.max_streak_count, self.current_streak_count);
        } else {
            self.failed_count += days_diff - 1;
            self.failed_count_this_week = Target::check_prev_week(
                self.failed_count_this_week,
                days_diff - 1,
                target.date,
                today,
            );
            self.max_streak_count = larger_of(self.max_streak_count, self.current_streak_count);
            self.prev_streak_count = self.current_streak_count;
            self.current_streak_count = 1;
            self.current_streak_values = value;
            self.current_streak_start_date = Some(target.date);
            self.current_streak_count_this_week = Target::check_prev_week(0, 1, target.date, today);
            self.current_streak_values_this_week = Target::check_prev_week(
                0,
                value,
                target.date,
                today,
            );
        }
        self.total_count += 1;
        self.total_count_this_week = Target::check_prev_week(
            self.total_count_this_week,
            1,
            target.date,
            today,
        );
    }

    /// Takes one more record into the statistics, where `prev_date` is the
    /// day of the record before it (1970-01-01 for the first).
    pub fn add_record(
        &mut self,
        target: &TargetDetails,
        prev_date: i32,
        allow_skip: bool,
        allow_partial_completion: bool,
        daily_goal: i32,
        today: i32,
    )
        requires
            within_records(old(self)@, MAX_RECORDS - 1),
        ensures
            final(self)@ == after_record(
                old(self)@,
                target@,
                prev_date as int,
                rules_of(allow_skip, allow_partial_completion, daily_goal, today),
            ),
    {
        let date: i32 = target.date;
        let days_diff: i64 = date as i64 - prev_date as i64;
        let value: i64 = target.value as i64;
        if target.target_type == TargetType::Done {
            if date == today {
                self.completed_today = true;
            }
            self.update_streak(target, days_diff, today);
            self.total_values_count += value;
            self.total_values_count_this_week = Target::check_prev_week(
                self.total_values_count_this_week,
                value,
                date,
                today,
            );
            if !allow_partial_completion || target.value >= daily_goal {
                self.completed_count += 1;
                self.completed_values += value;
                self.completed_count_this_week = Target::check_prev_week(
                    self.completed_count_this_week,
                    1,
                    date,
                    today,
                );
                self.completed_values_this_week = Target::check_prev_week(
                    self.completed_values_this_week,
                    value,
                    date,
                    today,
                );
            }
        } else if allow_skip && target.target_type == TargetType::Skip {
            self.update_streak(target, days_diff, today);
            self.skipped_count += 1;
            self.skipped_count_this_week = Target::check_prev_week(
                self.skipped_count_this_week,
                1,
                date,
                today,
            );
        } else {
            if self.current_streak_start_date.is_some() {
                self.failed_count += days_diff - 1;
                self.current_streak_count = 0;
                self.current_streak_start_date = None;
            }
        }
    }
}

fn larger_of(a: i64, b: i64) -> (m: i64)
    ensures
        m == larger(a as int, b as int),
{
    if a >= b {
        a
    } else {
        b
    }
}

/// One day's record of a habit, as it is stored.
#[derive(Debug, Clone)]
pub struct Target {
    pub id: Option<String>,
    pub habit_id: String,
    /// The calendar day of the record, in days from 1970-01-01.
    pub date: i32,
    /// When the record was written, in seconds from 1970-01-01T00:00:00Z.
    pub create_date: i64,
    pub target_type: TargetType,
    pub value: i32,
    pub deleted: bool,
}

/// What a user enters to log a day.
#[derive(Debug, Clone)]
pub struct TargetData {
    pub id: Option<String>,
    pub date: i32,
    pub target_type: TargetType,
    pub habit_id: String,
    pub value: i32,
}

impl Target {
    /// The record to store for what was entered, written at the time `now`.
    pub fn new(data: &TargetData, now: i64) -> (target: Self)
        ensures
            target.id == data.id,
            target.habit_id == data.habit_id,
            target.date == data.date,
            target.create_date == now,
            target.target_type == data.target_type,
            target.value == data.value,
            !target.deleted,
    {
        Target {
            id: match &data.id {
                Some(id) => Some(id.clone()),
                None => None,
            },
            habit_id: data.habit_id.clone(),
            date: data.date,
            create_date: now,
            target_type: data.target_type,
            value: data.value,
            deleted: false,
        }
    }

    /// Adds `delta` to `value` when `date` is one of the seven days that end
    /// with `today`, and leaves `value` as it is otherwise.
    pub fn check_prev_week(value: i64, delta: i64, date: i32, today: i32) -> (gated: i64)
        requires
            i64::MIN <= value + delta <= i64::MAX,
        ensures
            gated == week_gated(value as int, delta as int, date as int, today as int),
    {
        let days_diff: i64 = today as i64 - date as i64;
        if days_diff < 7 && days_diff >= 0 {
            return value + delta;
        }
        value
    }

    /// The statistics of `targets`, read in the order given, as seen on the
    /// day `today`.
    ///
    /// The records are meant to come in ascending order of their days, one
    /// per day; the result is defined for any list.
    pub fn calculate_statistics(
        targets: Vec<TargetDetails>,
        allow_skip: bool,
        allow_partial_completion: bool,
        daily_goal: i32,
        today: i32,
    ) -> (stats: TargetStatistics)
        requires
            targets.len() <= MAX_RECORDS,
        ensures
            stats@ == statistics_of(
                entries_of(targets@),
                rules_of(allow_skip, allow_partial_completion, daily_goal, today),
            ),
            targets.len() == 0 ==> stats@ == empty_summary(),
            stats.max_streak_count >= stats.current_streak_count,
            stats.max_streak_count >= stats.prev_streak_count,
            chronological(entries_of(targets@)) && values_non_negative(entries_of(targets@))
                ==> week_within_all_time(stats@),
    {
        let ghost rules = rules_of(allow_skip, allow_partial_completion, daily_goal, today);
        let ghost entries = entries_of(targets@);
        let mut statistics = TargetStatistics::new();
        let mut prev_date: i32 = EPOCH_DAY;
        let n: usize = targets.len();
        let mut i: usize = 0;
        assert(entries.take(0) =~= Seq::<Entry>::empty());
        while i < n
            invariant
                n == targets.len(),
                n <= MAX_RECORDS,
                i <= n,
                entries == entries_of(targets@),
                rules == rules_of(allow_skip, allow_partial_completion, daily_goal, today),
                statistics@ == statistics_of(entries.take(i as int), rules),
                prev_date == last_date(entries.take(i as int)),
                within_records(statistics@, i as int),
            decreases n - i,
        {
            let target = &targets[i];
            proof {
                let upto = entries.take(i as int + 1);
                assert(upto.drop_last() =~= entries.take(i as int));
                assert(upto.last() == target@);
                lemma_within_more_records(statistics@, i as int, MAX_RECORDS - 1);
                lemma_record_within(statistics@, target@, prev_date as int, rules, i as int);
            }
            statistics.add_record(
                target,
                prev_date,
                allow_skip,
                allow_partial_completion,
                daily_goal,
                today,
            );
            prev_date = target.date;
            i += 1;
        }
        proof {
            assert(entries.take(n as int) =~= entries);
            lemma_longest_streak_dominates(entries, rules);
            if chronological(entries) && values_non_negative(entries) {
                lemma_week_within_all_time(entries, rules);
            }
        }
        statistics
    }
}

/// Counters that `n` records can amount to, `m` records can amount to as
/// well when `m` is larger.
proof fn lemma_within_more_records(s: Summary, n: int, m: int)
    requires
        within_records(s, n),
        n <= m,
    ensures
        within_records(s, m),
{
}

/// One more record, with a day and a value of 32 bits, keeps the counters
/// within what one record more can amount to.
proof fn lemma_record_within(s: Summary, e: Entry, prev_date: int, rules: Rules, n: int)
    requires
        within_records(s, n),
        0 <= n,
        i32::MIN <= e.date <= i32::MAX,
        i32::MIN <= e.value <= i32::MAX,
        i32::MIN <= prev_date <= i32::MAX,
    ensures
        within_records(after_record(s, e, prev_date, rules), n + 1),
{
}

/// The settings of a computation, from the arguments of
/// `Target::calculate_statistics`.
pub open spec fn rules_of(
    allow_skip: bool,
    allow_partial_completion: bool,
    daily_goal: i32,
    today: i32,
) -> Rules {
    Rules {
        allow_skip,
        allow_partial_completion,
        daily_goal: daily_goal as int,
        today: today as int,
    }
}

/// Whether the streak counters of `s` fit together: a streak is open exactly
/// when its count is positive, and neither the current nor the previous
/// streak is longer than the longest.
pub open spec fn streak_coherent(s: Summary) -> bool {
    &&& s.current_streak_start_date is None ==> s.current_streak_count == 0
    &&& s.current_streak_start_date is Some ==> s.current_streak_count >= 1
    &&& s.prev_streak_count >= 0
    &&& s.max_streak_count >= s.current_streak_count
    &&& s.max_streak_count >= s.prev_streak_count
}

/// For every list of records, in any order and under any settings, the
/// longest streak is at least as long as the current streak and as the
/// streak before it.
pub proof fn lemma_longest_streak_dominates(entries: Seq<Entry>, rules: Rules)
    ensures
        streak_coherent(statistics_of(entries, rules)),
        statistics_of(entries, rules).max_streak_count >= statistics_of(
            entries,
            rules,
        ).current_streak_count,
        statistics_of(entries, rules).max_streak_count >= statistics_of(
            entries,
            rules,
        ).prev_streak_count,
    decreases entries.len(),
{
    if entries.len() > 0 {
        lemma_longest_streak_dominates(entries.drop_last(), rules);
    }
}

/// Whether the records come in ascending order of their days, one per day.
pub open spec fn chronological(entries: Seq<Entry>) -> bool {
    forall|i: int, j: int| 0 <= i < j < entries.len() ==> entries[i].date < entries[j].date
}

/// Whether no record holds a negative value.
pub open spec fn values_non_negative(entries: Seq<Entry>) -> bool {
    forall|i: int| 0 <= i < entries.len() ==> entries[i].value >= 0
}

/// Whether each counter of the trailing week is at most its counterpart over
/// all time. For the length of the current streak this is asked only while
/// the streak is open.
pub open spec fn week_within_all_time(s: Summary) -> bool {
    &&& 0 <= s.failed_count_this_week <= s.failed_count
    &&& 0 <= s.skipped_count_this_week <= s.skipped_count
    &&& 0 <= s.total_count_this_week <= s.total_count
    &&& 0 <= s.total_values_count_this_week <= s.total_values_count
    &&& 0 <= s.completed_count_this_week <= s.completed_count
    &&& 0 <= s.completed_values_this_week <= s.completed_values
    &&& 0 <= s.current_streak_values_this_week <= s.current_streak_values
    &&& 0 <= s.current_streak_count_this_week
    &&& s.current_streak_start_date is Some ==> s.current_streak_count_this_week
        <= s.current_streak_count
}

/// For records in ascending order of their days, one per day and none with a
/// negative value, every counter of the trailing week is at most its
/// counterpart over all time: failed, skipped, total and completed days, the
/// sums of values, and the values of the current streak. The length of the
/// current streak within the week is at most its length while the streak is
/// open.
pub proof fn lemma_week_within_all_time(entries: Seq<Entry>, rules: Rules)
    requires
        chronological(entries),
        values_non_negative(entries),
    ensures
        week_within_all_time(statistics_of(entries, rules)),
    decreases entries.len(),
{
    if entries.len() > 0 {
        let before = entries.drop_last();
        lemma_week_within_all_time(before, rules);
        lemma_longest_streak_dominates(before, rules);
        if before.len() > 0 {
            assert(before.last() == entries[entries.len() - 2]);
            assert(entries.last().date - last_date(before) >= 1);
        }
    }
}

/// Under the same conditions, the length of the current streak within the
/// trailing week is at most its length over all time, unless the streak was
/// closed by a record that does not count while some of its days lay in the
/// trailing week: closing sets the length to zero and leaves the week's
/// share as it was.
pub proof fn lemma_streak_week_within_all_time(entries: Seq<Entry>, rules: Rules)
    requires
        chronological(entries),
        values_non_negative(entries),
        statistics_of(entries, rules).current_streak_start_date is Some || statistics_of(
            entries,
            rules,
        ).current_streak_count_this_week == 0,
    ensures
        statistics_of(entries, rules).current_streak_count_this_week <= statistics_of(
            entries,
            rules,
        ).current_streak_count,
{
    lemma_week_within_all_time(entries, rules);
    lemma_longest_streak_dominates(entries, rules);
}

/// Whether a record counts toward streaks and totals: a done day, or a
/// skipped day where skipping is allowed.
pub open spec fn counts(e: Entry, rules: Rules) -> bool {
    e.kind == TargetType::Done || (rules.allow_skip && e.kind == TargetType::Skip)
}

/// The sum of `weight` over the records.
pub open spec fn tally(entries: Seq<Entry>, weight: spec_fn(Entry) -> int) -> int
    decreases entries.len(),
{
    if entries.len() == 0 {
        0
    } else {
        tally(entries.drop_last(), weight) + weight(entries.last())
    }
}

/// `amount` when `condition` holds, else nothing.
pub open spec fn only_if(condition: bool, amount: int) -> int {
    if condition {
        amount
    } else {
        0
    }
}

/// The plain counters are sums over the records, whatever their order: the
/// total counts the records that count, the skipped days the allowed skips,
/// the completed days the done days that reach the goal or need not, and the
/// sums of values add up the done days' values. Each counter of the trailing
/// week sums over the records of the trailing week alone.
pub proof fn lemma_counters_are_tallies(entries: Seq<Entry>, rules: Rules)
    ensures
        ({
            let s = statistics_of(entries, rules);
            let done = |e: Entry| e.kind == TargetType::Done;
            let skipped = |e: Entry| e.kind != TargetType::Done && counts(e, rules);
            let completed = |e: Entry| done(e) && counts_as_completed(e.value, rules);
            let recent = |e: Entry| in_trailing_week(rules.today, e.date);
            &&& s.total_count == tally(entries, |e: Entry| only_if(counts(e, rules), 1))
            &&& s.total_count_this_week == tally(
                entries,
                |e: Entry| only_if(counts(e, rules) && recent(e), 1),
            )
            &&& s.skipped_count == tally(entries, |e: Entry| only_if(skipped(e), 1))
            &&& s.skipped_count_this_week == tally(
                entries,
                |e: Entry| only_if(skipped(e) && recent(e), 1),
            )
            &&& s.completed_count == tally(entries, |e: Entry| only_if(completed(e), 1))
            &&& s.completed_count_this_week == tally(
                entries,
                |e: Entry| only_if(completed(e) && recent(e), 1),
            )
            &&& s.total_values_count == tally(entries, |e: Entry| only_if(done(e), e.value))
            &&& s.total_values_count_this_week == tally(
                entries,
                |e: Entry| only_if(done(e) && recent(e), e.value),
            )
            &&& s.completed_values == tally(entries, |e: Entry| only_if(completed(e), e.value))
            &&& s.completed_values_this_week == tally(
                entries,
                |e: Entry| only_if(completed(e) && recent(e), e.value),
            )
            &&& s.completed_today == exists|i: int|
                0 <= i < entries.len() && done(entries[i]) && entries[i].date == rules.today
        }),
    decreases entries.len(),
{
    if entries.len() > 0 {
        let before = entries.drop_last();
        lemma_counters_are_tallies(before, rules);
        let s = statistics_of(entries, rules);
        let b = statistics_of(before, rules);
        let done = |e: Entry| e.kind == TargetType::Done;
        if b.completed_today {
            let i = choose|i: int|
                0 <= i < before.len() && done(before[i]) && before[i].date == rules.today;
            assert(done(entries[i]) && entries[i].date == rules.today);
        }
        if s.completed_today && !b.completed_today {
            let last = entries.len() - 1;
            assert(done(entries[last]) && entries[last].date == rules.today);
        }
        if exists|i: int|
            0 <= i < entries.len() && done(entries[i]) && entries[i].date == rules.today {
            let i = choose|i: int|
                0 <= i < entries.len() && done(entries[i]) && entries[i].date == rules.today;
            if i < before.len() {
                assert(done(before[i]) && before[i].date == rules.today);
            }
        }
    }
}

/// A single record of a day done today, whatever its value and the
/// settings, completes today and opens a streak of one day.
pub proof fn lemma_done_today(e: Entry, rules: Rules)
    requires
        e.kind == TargetType::Done,
        e.date == rules.today,
    ensures
        statistics_of(seq![e], rules).completed_today,
        statistics_of(seq![e], rules).current_streak_count == 1,
{
    assert(seq![e].drop_last() =~= Seq::<Entry>::empty());
    assert(seq![e].last() == e);
    assert(statistics_of(Seq::<Entry>::empty(), rules) == empty_summary());
}

/// Whether every record counts toward streaks and totals.
pub open spec fn all_count(entries: Seq<Entry>, rules: Rules) -> bool {
    forall|i: int| 0 <= i < entries.len() ==> counts(#[trigger] entries[i], rules)
}

/// The number of records at the end of the list that follow one another
/// day by day.
pub open spec fn trailing_run(entries: Seq<Entry>) -> int
    decreases entries.len(),
{
    if entries.len() == 0 {
        0
    } else if entries.len() == 1 {
        1
    } else if entries.last().date - entries[entries.len() - 2].date == 1 {
        trailing_run(entries.drop_last()) + 1
    } else {
        1
    }
}

/// The longest run of records that follow one another day by day.
pub open spec fn longest_run(entries: Seq<Entry>) -> int
    decreases entries.len(),
{
    if entries.len() == 0 {
        0
    } else {
        larger(longest_run(entries.drop_last()), trailing_run(entries))
    }
}

/// Where every record counts, the streaks are the runs of records that
/// follow one another day by day: the current streak is the run at the end
/// of the list and starts on the day of that run's first record, the streak
/// before it is the run that ends where the current one starts, the longest
/// streak is the longest run, and the failed days are the days from the
/// first record to the last on which nothing was logged.
pub proof fn lemma_streaks_are_runs(entries: Seq<Entry>, rules: Rules)
    requires
        all_count(entries, rules),
    ensures
        ({
            let s = statistics_of(entries, rules);
            let n = entries.len() as int;
            let run = trailing_run(entries);
            &&& 0 <= run <= n
            &&& n > 0 ==> run >= 1
            &&& s.current_streak_count == run
            &&& s.max_streak_count == longest_run(entries)
            &&& s.prev_streak_count == trailing_run(entries.take(n - run))
            &&& n == 0 ==> s.current_streak_start_date is None && s.failed_count == 0
            &&& n > 0 ==> s.current_streak_start_date == Some(entries[n - run].date)
            &&& n > 0 ==> s.failed_count == entries.last().date - entries[0].date + 1 - n
        }),
    decreases entries.len(),
{
    let n = entries.len() as int;
    if n == 0 {
        assert(entries.take(0) =~= entries);
    } else {
        let before = entries.drop_last();
        assert forall|i: int| 0 <= i < before.len() implies counts(
            #[trigger] before[i],
            rules,
        ) by {
            assert(before[i] == entries[i]);
        }
        lemma_streaks_are_runs(before, rules);
        let run = trailing_run(entries);
        let run_before = trailing_run(before);
        assert(counts(entries[n - 1], rules));
        if n == 1 {
            assert(entries.take(0) =~= before);
        } else {
            assert(before.last() == entries[n - 2]);
            assert(before[0] == entries[0]);
            if entries.last().date - entries[n - 2].date == 1 {
                assert(entries.take(n - run) =~= before.take(n - 1 - run_before));
                assert(entries[n - run] == before[n - 1 - run_before]);
            } else {
                assert(entries.take(n - 1) =~= before);
            }
        }
    }
}

/// What is wrong with a list of records that the statistics are not meant
/// for: at `position` stands the first record that holds a negative value
/// or does not come on a later day than the record before it.
#[derive(Debug, Clone, Copy, PartialEq, Eq, Structural)]
pub struct PreconditionViolation {
    pub position: usize,
}

/// Whether the record at position `i` holds a negative value or does not
/// come on a later day than the record before it.
pub open spec fn out_of_line(entries: Seq<Entry>, i: int) -> bool {
    entries[i].value < 0 || (i > 0 && entries[i].date <= entries[i - 1].date)
}

/// Records of which none is out of line are in ascending order of their
/// days, one per day, and hold no negative value.
proof fn lemma_in_line(entries: Seq<Entry>, n: int)
    requires
        0 <= n <= entries.len(),
        forall|i: int| 0 <= i < n ==> !out_of_line(entries, i),
    ensures
        chronological(entries.take(n)),
        values_non_negative(entries.take(n)),
    decreases n,
{
    if n > 0 {
        lemma_in_line(entries, n - 1);
        let upto = entries.take(n);
        let before = entries.take(n - 1);
        assert(!out_of_line(entries, n - 1));
        assert forall|i: int, j: int| 0 <= i < j < upto.len() implies upto[i].date
            < upto[j].date by {
            if j < n - 1 {
                assert(before[i].date < before[j].date);
            } else if i < n - 2 {
                assert(before[i].date < before[n - 2].date);
            }
        }
        assert forall|i: int| 0 <= i < upto.len() implies upto[i].value >= 0 by {
            if i < n - 1 {
                assert(before[i].value >= 0);
            }
        }
    }
}

impl Target {
    /// Whether the records are what the statistics are meant for: in
    /// ascending order of their days, one per day, and none with a negative
    /// value. Where they are not, the first record that breaks this is
    /// named.
    pub fn validate(targets: &Vec<TargetDetails>) -> (checked: Result<(), PreconditionViolation>)
        ensures
            checked is Ok <==> chronological(entries_of(targets@)) && values_non_negative(
                entries_of(targets@),
            ),
            checked matches Err(violation) ==> {
                &&& violation.position < targets.len()
                &&& out_of_line(entries_of(targets@), violation.position as int)
                &&& forall|i: int|
                    0 <= i < violation.position ==> !out_of_line(entries_of(targets@), i)
            },
    {
        let ghost entries = entries_of(targets@);
        let mut i: usize = 0;
        while i < targets.len()
            invariant
                i <= targets.len(),
                entries == entries_of(targets@),
                forall|j: int| 0 <= j < i ==> !out_of_line(entries, j),
            decreases targets.len() - i,
        {
            assert(entries[i as int] == targets@[i as int]@);
            let negative: bool = targets[i].value < 0;
            let mut not_later: bool = false;
            if i > 0 {
                assert(entries[i - 1] == targets@[i - 1]@);
                not_later = targets[i].date <= targets[i - 1].date;
            }
            if negative || not_later {
                assert(out_of_line(entries, i as int));
                proof {
                    if !negative {
                        assert(!(entries[i - 1].date < entries[i as int].date));
                    }
                }
                return Err(PreconditionViolation { position: i });
            }
            i += 1;
        }
        proof {
            lemma_in_line(entries, entries.len() as int);
            assert(entries.take(entries.len() as int) =~= entries);
        }
        Ok(())
    }
}

} // verus!
