//! Streaks as a calendar grid shows them: every record is a hit, and the
//! habit's frequency decides whether one hit carries on from the one before.

use vstd::prelude::*;
use std::collections::HashMap;
use std::collections::HashSet;
use crate::calendar::in_calendar;
use crate::calendar::iso_week_of;
use crate::calendar::month_in_calendar;
use crate::calendar::month_of;
use crate::calendar::week_in_calendar;
use crate::calendar::weekday_from_sunday;
use crate::calendar::weekday_of;
use crate::habit::Cadence;
use crate::habit::Frequency;
use crate::habit::GridTarget;
use crate::habit::Habit;
use crate::targets::larger;

verus! {

broadcast use vstd::std_specs::hash::group_hash_axioms;

/// One logged day of a habit.
#[derive(Debug, Clone, Copy, PartialEq, Eq, Structural)]
pub struct Target {
    pub id: u128,
    pub habit_id: u128,
    pub user_id: u128,
    /// The calendar day of the record, in days from 1970-01-01.
    pub date: i32,
    /// When the record was written, in seconds from 1970-01-01T00:00:00Z.
    pub created_date: i64,
    pub amount: i32,
    pub deleted: bool,
}

/// What a user enters to log a day.
#[derive(Debug, Clone, Copy, PartialEq, Eq, Structural)]
pub struct TargetData {
    pub id: Option<u128>,
    pub date: i32,
    pub habit_id: u128,
    pub amount: i32,
}

/// A logged day that is about to be stored.
#[derive(Debug, Clone, Copy, PartialEq, Eq, Structural)]
pub struct NewTarget {
    pub habit_id: u128,
    pub user_id: u128,
    pub date: i32,
    pub created_date: i64,
    pub amount: i32,
    pub deleted: bool,
}

impl NewTarget {
    /// The record to store for what `user_id` entered, written at the time
    /// `now`.
    pub fn create(data: &TargetData, user_id: u128, now: i64) -> (target: Self)
        ensures
            target == (NewTarget {
                habit_id: data.habit_id,
                user_id,
                date: data.date,
                created_date: now,
                amount: data.amount,
                deleted: false,
            }),
    {
        Self {
            habit_id: data.habit_id,
            user_id,
            date: data.date,
            created_date: now,
            amount: data.amount,
            deleted: false,
        }
    }
}

/// A stored record with what may change of it.
#[derive(Debug, Clone, Copy, PartialEq, Eq, Structural)]
pub struct UpdateTarget {
    pub id: Option<u128>,
    pub habit_id: u128,
    pub user_id: u128,
    pub date: i32,
    pub created_date: i64,
    pub amount: i32,
    pub deleted: bool,
}

/// What is written over a stored record.
#[derive(Debug, Clone, Copy, PartialEq, Eq, Structural)]
pub struct UpdateTargetData {
    pub id: u128,
    pub date: i32,
    pub habit_id: u128,
    pub amount: i32,
}

impl UpdateTargetData {
    /// What to write over the record that `data` names, with the amount
    /// `val`.
    pub fn create(data: &TargetData, val: i32) -> (update: Self)
        requires
            data.id is Some,
        ensures
            Some(update.id) == data.id,
            update.date == data.date,
            update.habit_id == data.habit_id,
            update.amount == val,
    {
        Self {
            id: match data.id {
                Some(id) => id,
                None => 0,
            },
            date: data.date,
            habit_id: data.habit_id,
            amount: val,
        }
    }
}

/// What is stored for a newly logged day.
#[derive(Debug, Clone, Copy, PartialEq, Eq, Structural)]
pub struct NewTargetData {
    pub date: i32,
    pub habit_id: u128,
    pub user_id: u128,
    pub amount: i32,
}

impl NewTargetData {
    /// What to store for what `user_id` entered.
    pub fn create(data: &TargetData, user_id: u128) -> (target: Self)
        ensures
            target == (NewTargetData {
                date: data.date,
                habit_id: data.habit_id,
                user_id,
                amount: data.amount,
            }),
    {
        Self { date: data.date, habit_id: data.habit_id, user_id, amount: data.amount }
    }
}

/// Whether the weekday of `day` is one of `mandatory_days`, which count
/// from Sunday = 0.
pub open spec fn is_mandatory(mandatory_days: Seq<i32>, day: int) -> bool {
    exists|k: int|
        0 <= k < mandatory_days.len() && #[trigger] mandatory_days[k] == weekday_of(day)
}

/// Whether `mandatory_days` names at least one weekday.
pub open spec fn names_a_weekday(mandatory_days: Seq<i32>) -> bool {
    exists|k: int| 0 <= k < mandatory_days.len() && 0 <= #[trigger] mandatory_days[k] < 7
}

/// The first mandatory day from `last_date + offset` on, no later than a
/// week after `last_date`.
pub open spec fn mandatory_from(mandatory_days: Seq<i32>, last_date: int, offset: int) -> int
    decreases 7 - offset,
{
    if offset >= 7 || is_mandatory(mandatory_days, last_date + offset) {
        last_date + offset
    } else {
        mandatory_from(mandatory_days, last_date, offset + 1)
    }
}

/// The first mandatory day after `last_date`.
pub open spec fn next_mandatory_day_of(mandatory_days: Seq<i32>, last_date: int) -> int {
    mandatory_from(mandatory_days, last_date, 1)
}

/// Every weekday comes round within seven days: among the seven days after
/// `last_date`, one is mandatory.
pub proof fn lemma_mandatory_within_week(mandatory_days: Seq<i32>, last_date: int)
    requires
        names_a_weekday(mandatory_days),
    ensures
        exists|offset: int|
            1 <= offset <= 7 && #[trigger] is_mandatory(mandatory_days, last_date + offset),
{
    let k = choose|k: int| 0 <= k < mandatory_days.len() && 0 <= #[trigger] mandatory_days[k] < 7;
    let w = mandatory_days[k] as int;
    let offset = 1 + (w - weekday_of(last_date + 1)) % 7;
    assert(weekday_of(last_date + offset) == w);
    assert(mandatory_days[k] == weekday_of(last_date + offset));
    assert(is_mandatory(mandatory_days, last_date + offset));
}

/// The days of the records, in the same order.
pub open spec fn dates_of(targets: Seq<Target>) -> Seq<int> {
    targets.map_values(|t: Target| t.date as int)
}

/// Whether a hit on `date` carries on the streak of a hit on `last_date`,
/// for a habit that is due on days or at intervals. With all seven weekdays
/// due, it does on the same and on the next day; with fewer, up to the next
/// mandatory day; at intervals, while no more than the interval lies
/// between the two.
pub open spec fn carries_on(cadence: Cadence, last_date: int, date: int) -> bool {
    match cadence {
        Cadence::Daily(days) => if days.len() == 7 {
            date == last_date + 1 || date == last_date
        } else {
            date <= next_mandatory_day_of(days, last_date)
        },
        Cadence::Interval(days) => date - last_date <= days,
        _ => false,
    }
}

/// The position before `i`; the first position stands before itself.
pub open spec fn position_before(i: int) -> int {
    if i <= 0 {
        0
    } else {
        i - 1
    }
}

/// The length of the run of hits that ends at position `i`: one more than
/// at the position before where the hit carries on, and 1 where it does not.
pub open spec fn run_at(cadence: Cadence, dates: Seq<int>, i: int) -> int
    decreases i,
{
    if i <= 0 {
        1
    } else if carries_on(cadence, dates[i - 1], dates[i]) {
        run_at(cadence, dates, i - 1) + 1
    } else {
        1
    }
}

/// The longest run among the first `n` hits, counting a run where its last
/// hit carries on from the one before.
pub open spec fn peak_run(cadence: Cadence, dates: Seq<int>, n: int) -> int
    decreases n,
{
    if n <= 0 {
        0
    } else {
        let i = n - 1;
        let before = peak_run(cadence, dates, i);
        if carries_on(cadence, dates[position_before(i)], dates[i]) {
            larger(before, run_at(cadence, dates, i))
        } else {
            before
        }
    }
}

/// Where a habit is due so many times in a period: the streak so far, the
/// longest seen, and the hits counted in the running period.
pub struct PeriodState {
    pub current: int,
    pub longest: int,
    pub hits: int,
}

/// The state after one more hit. A hit in the period of the one before
/// counts and extends the streak. The first hit of another period starts
/// the streak again at 1 when the count stands short of `required` (unless
/// it stands at nothing), and changes nothing otherwise.
pub open spec fn after_hit(s: PeriodState, same_period: bool, required: int) -> PeriodState {
    if same_period {
        PeriodState {
            current: s.current + 1,
            longest: larger(s.longest, s.current + 1),
            hits: s.hits + 1,
        }
    } else if s.hits < required && s.hits != 0 {
        PeriodState { current: 1, longest: s.longest, hits: 0 }
    } else {
        s
    }
}

/// The state after the first `n` hits, each given by the number of its
/// period.
pub open spec fn period_state(periods: Seq<int>, required: int, n: int) -> PeriodState
    decreases n,
{
    if n <= 0 {
        PeriodState { current: 0, longest: 0, hits: 0 }
    } else {
        let i = n - 1;
        after_hit(
            period_state(periods, required, i),
            periods[i] == periods[position_before(i)],
            required,
        )
    }
}

/// The ISO week numbers of the days.
pub open spec fn weeks_of(dates: Seq<int>) -> Seq<int> {
    dates.map_values(|d: int| iso_week_of(d))
}

/// The month numbers of the days.
pub open spec fn months_of(dates: Seq<int>) -> Seq<int> {
    dates.map_values(|d: int| month_of(d))
}

/// The length of the running streak at position `i` of the hits.
pub open spec fn running_streak(cadence: Cadence, dates: Seq<int>, i: int) -> int {
    match cadence {
        Cadence::Weekly(required) => period_state(weeks_of(dates), required, i + 1).current,
        Cadence::Monthly(required) => period_state(months_of(dates), required, i + 1).current,
        _ => run_at(cadence, dates, i),
    }
}

/// The longest streak that the hits ever reach.
pub open spec fn longest_streak(cadence: Cadence, dates: Seq<int>) -> int {
    match cadence {
        Cadence::Weekly(required) => period_state(
            weeks_of(dates),
            required,
            dates.len() as int,
        ).longest,
        Cadence::Monthly(required) => period_state(
            months_of(dates),
            required,
            dates.len() as int,
        ).longest,
        _ => peak_run(cadence, dates, dates.len() as int),
    }
}

/// The streak that stands after the last hit, and 0 where there is none.
pub open spec fn current_streak(cadence: Cadence, dates: Seq<int>) -> int {
    if dates.len() == 0 {
        0
    } else {
        running_streak(cadence, dates, dates.len() - 1)
    }
}

/// The last position among the first `n` whose day is `date`, and -1 where
/// there is none.
pub open spec fn last_on(dates: Seq<int>, date: int, n: int) -> int
    decreases n,
{
    if n <= 0 {
        -1
    } else if dates[n - 1] == date {
        n - 1
    } else {
        last_on(dates, date, n - 1)
    }
}

/// The computations behind the calendar grid.
pub struct TargetHelper {}

impl TargetHelper {
    /// The first day after `last_date` whose weekday is one of
    /// `mandatory_days`.
    pub fn get_next_mandatory_day(mandatory_days: Vec<i32>, last_date: i32) -> (next: i32)
        requires
            names_a_weekday(mandatory_days@),
            last_date <= i32::MAX - 7,
        ensures
            next == next_mandatory_day_of(mandatory_days@, last_date as int),
            last_date < next <= last_date + 7,
            is_mandatory(mandatory_days@, next as int),
            forall|day: int| last_date < day < next ==> !is_mandatory(mandatory_days@, day),
    {
        let mut mandatory_days_set: HashSet<i32> = HashSet::new();
        let mut k: usize = 0;
        while k < mandatory_days.len()
            invariant
                k <= mandatory_days.len(),
                forall|w: i32|
                    mandatory_days_set@.contains(w) <==> exists|j: int|
                        0 <= j < k && #[trigger] mandatory_days[j] == w,
            decreases mandatory_days.len() - k,
        {
            mandatory_days_set.insert(mandatory_days[k]);
            k += 1;
        }
        proof {
            lemma_mandatory_within_week(mandatory_days@, last_date as int);
        }
        let mut next_mandatory_day: i32 = last_date;
        loop
            invariant
                k == mandatory_days.len(),
                last_date <= next_mandatory_day < last_date + 7,
                last_date <= i32::MAX - 7,
                forall|w: i32|
                    mandatory_days_set@.contains(w) <==> exists|j: int|
                        0 <= j < k && #[trigger] mandatory_days[j] == w,
                forall|day: int|
                    last_date < day <= next_mandatory_day ==> !is_mandatory(mandatory_days@, day),
                exists|offset: int|
                    1 <= offset <= 7 && #[trigger] is_mandatory(
                        mandatory_days@,
                        last_date + offset,
                    ),
                mandatory_from(
                    mandatory_days@,
                    last_date as int,
                    next_mandatory_day - last_date + 1,
                ) == next_mandatory_day_of(mandatory_days@, last_date as int),
            decreases last_date + 7 - next_mandatory_day,
        {
            next_mandatory_day = next_mandatory_day + 1;
            let next_mandatory_day_num: i32 = weekday_from_sunday(next_mandatory_day);
            if mandatory_days_set.contains(&next_mandatory_day_num) {
                return next_mandatory_day;
            }
            proof {
                assert(!is_mandatory(mandatory_days@, next_mandatory_day as int));
                let offset = choose|offset: int|
                    1 <= offset <= 7 && #[trigger] is_mandatory(
                        mandatory_days@,
                        last_date + offset,
                    );
                assert(offset > next_mandatory_day - last_date);
            }
        }
    }

    /// The streaks of a habit that is due `required` times in a period,
    /// where `periods` holds the number of each hit's period (its ISO week,
    /// or its month): the streak that stands after the last hit, the longest
    /// seen, and the running streak at each hit.
    pub fn period_streaks(periods: &Vec<u32>, required: i32) -> (result: (i32, i32, Vec<i32>))
        requires
            periods.len() <= MAX_HITS,
        ensures
            ({
                let numbers = periods@.map_values(|p: u32| p as int);
                let n = periods.len() as int;
                &&& result.0 == period_state(numbers, required as int, n).current
                &&& result.1 == period_state(numbers, required as int, n).longest
                &&& result.2@.len() == n
                &&& forall|i: int|
                    0 <= i < n ==> #[trigger] result.2@[i] == period_state(
                        numbers,
                        required as int,
                        i + 1,
                    ).current
            }),
    {
        let mut running: Vec<i32> = Vec::new();
        if periods.len() == 0 {
            return (0, 0, running);
        }
        let ghost numbers = periods@.map_values(|p: u32| p as int);
        let mut current_streak: i32 = 0;
        let mut longest_streak: i32 = 0;
        let mut current_period: u32 = periods[0];
        let mut current_period_streak: i32 = 0;
        let mut i: usize = 0;
        while i < periods.len()
            invariant
                0 < periods.len() <= MAX_HITS,
                i <= periods.len(),
                numbers == periods@.map_values(|p: u32| p as int),
                current_period == periods[position_before(i as int)],
                period_state(numbers, required as int, i as int) == (PeriodState {
                    current: current_streak as int,
                    longest: longest_streak as int,
                    hits: current_period_streak as int,
                }),
                0 <= current_streak <= i,
                0 <= longest_streak <= i,
                0 <= current_period_streak <= i,
                running@.len() == i,
                forall|j: int|
                    0 <= j < i ==> #[trigger] running@[j] == period_state(
                        numbers,
                        required as int,
                        j + 1,
                    ).current,
            decreases periods.len() - i,
        {
            let period: u32 = periods[i];
            if current_period == period {
                current_period_streak += 1;
                current_streak += 1;
                if current_streak > longest_streak {
                    longest_streak = current_streak;
                }
            } else if current_period_streak < required && current_period_streak != 0 {
                current_period_streak = 0;
                current_streak = 1;
            }
            current_period = period;
            running.push(current_streak);
            i += 1;
        }
        (current_streak, longest_streak, running)
    }

    /// The streaks of `habit` over `targets`, each of which is a hit: the
    /// streak that stands after the last, the longest that the hits ever
    /// reach, and the grid's entries, one for each record, with the running
    /// streak at its position.
    ///
    /// The records are meant to come in ascending order of their days, one
    /// per day; the result is defined for any list. Where several records
    /// share a day, the grid shows the last of them at each of their
    /// positions.
    pub fn calculate_streaks(habit: &Habit, targets: Vec<Target>) -> (result: (
        i32,
        i32,
        Vec<GridTarget>,
    ))
        requires
            targets.len() <= MAX_HITS,
            targets.len() > 0 ==> grid_ready(habit.frequency@, dates_of(targets@)),
        ensures
            result.0 == current_streak(habit.frequency@, dates_of(targets@)),
            result.1 == longest_streak(habit.frequency@, dates_of(targets@)),
            result.2@.len() == targets.len(),
            forall|i: int|
                0 <= i < targets.len() ==> {
                    let entry = #[trigger] result.2@[i];
                    &&& entry.id == shown_at(targets@, i).id
                    &&& entry.date == shown_at(targets@, i).date
                    &&& entry.amount == shown_at(targets@, i).amount
                    &&& entry.current_streak == running_streak(
                        habit.frequency@,
                        dates_of(targets@),
                        i,
                    )
                },
            targets.len() == 0 ==> result.0 == 0 && result.1 == 0,
    {
        if targets.len() == 0 {
            return (0, 0, Vec::new());
        }
        let dates: Vec<i32> = Self::dates(&targets);
        assert forall|i: int| 0 <= i < dates.len() implies in_calendar(
            #[trigger] dates[i] as int,
        ) by {
            assert(dates_of(targets@)[i] == dates[i]);
        }
        let (current_streak, longest_streak, running) = match &habit.frequency {
            Frequency::Daily(frequency) => daily_streaks(frequency, &dates),
            Frequency::Weekly(frequency) => {
                let weeks = weeks(&dates);
                assert(weeks@.map_values(|p: u32| p as int) =~= weeks_of(dates_of(targets@)));
                Self::period_streaks(&weeks, *frequency)
            },
            Frequency::Monthly(frequency) => {
                let months = months(&dates);
                assert(months@.map_values(|p: u32| p as int) =~= months_of(dates_of(targets@)));
                Self::period_streaks(&months, *frequency)
            },
            Frequency::Interval(frequency) => interval_streaks(*frequency, &dates),
        };
        let grid_targets = annotate(&targets, &running);
        (current_streak, longest_streak, grid_targets)
    }

    /// The days of the records, in the same order.
    pub fn dates(targets: &Vec<Target>) -> (dates: Vec<i32>)
        ensures
            days_of(dates@) == dates_of(targets@),
            dates@.len() == targets.len(),
            forall|i: int| 0 <= i < targets.len() ==> #[trigger] dates@[i] == targets@[i].date,
    {
        let mut dates: Vec<i32> = Vec::new();
        let mut i: usize = 0;
        while i < targets.len()
            invariant
                i <= targets.len(),
                dates@.len() == i,
                forall|j: int| 0 <= j < i ==> #[trigger] dates@[j] == targets@[j].date,
            decreases targets.len() - i,
        {
            dates.push(targets[i].date);
            i += 1;
        }
        assert(days_of(dates@) =~= dates_of(targets@));
        dates
    }
}

/// Whether the grid can be computed: every record's day is a day of the
/// calendar, and a habit that is due on weekdays names at least one.
pub open spec fn grid_ready(cadence: Cadence, dates: Seq<int>) -> bool {
    &&& forall|i: int| 0 <= i < dates.len() ==> in_calendar(#[trigger] dates[i])
    &&& cadence matches Cadence::Daily(days) ==> names_a_weekday(days)
}

/// The ISO week number of each day.
fn weeks(dates: &Vec<i32>) -> (weeks: Vec<u32>)
    requires
        forall|i: int| 0 <= i < dates.len() ==> in_calendar(#[trigger] dates[i] as int),
    ensures
        weeks@.len() == dates.len(),
        forall|i: int|
            0 <= i < dates.len() ==> #[trigger] weeks@[i] == iso_week_of(dates[i] as int),
{
    let mut weeks: Vec<u32> = Vec::new();
    let mut i: usize = 0;
    while i < dates.len()
        invariant
            i <= dates.len(),
            forall|j: int| 0 <= j < dates.len() ==> in_calendar(#[trigger] dates[j] as int),
            weeks@.len() == i,
            forall|j: int| 0 <= j < i ==> #[trigger] weeks@[j] == iso_week_of(dates[j] as int),
        decreases dates.len() - i,
    {
        weeks.push(week_in_calendar(dates[i]));
        i += 1;
    }
    weeks
}

/// The month number of each day.
fn months(dates: &Vec<i32>) -> (months: Vec<u32>)
    requires
        forall|i: int| 0 <= i < dates.len() ==> in_calendar(#[trigger] dates[i] as int),
    ensures
        months@.len() == dates.len(),
        forall|i: int| 0 <= i < dates.len() ==> #[trigger] months@[i] == month_of(dates[i] as int),
{
    let mut months: Vec<u32> = Vec::new();
    let mut i: usize = 0;
    while i < dates.len()
        invariant
            i <= dates.len(),
            forall|j: int| 0 <= j < dates.len() ==> in_calendar(#[trigger] dates[j] as int),
            months@.len() == i,
            forall|j: int| 0 <= j < i ==> #[trigger] months@[j] == month_of(dates[j] as int),
        decreases dates.len() - i,
    {
        months.push(month_in_calendar(dates[i]));
        i += 1;
    }
    months
}

/// The most hits one grid takes.
pub const MAX_HITS: usize = 0x7fff_ffff;

/// The days as mathematical integers.
pub open spec fn days_of(dates: Seq<i32>) -> Seq<int> {
    dates.map_values(|d: i32| d as int)
}

/// The streaks of a habit that is due on the weekdays `frequency`: the
/// streak after the last hit, the longest, and the running streak at each
/// hit.
fn daily_streaks(frequency: &Vec<i32>, dates: &Vec<i32>) -> (result: (i32, i32, Vec<i32>))
    requires
        0 < dates.len() <= MAX_HITS,
        names_a_weekday(frequency@),
        forall|i: int| 0 <= i < dates.len() ==> #[trigger] dates[i] <= i32::MAX - 7,
    ensures
        ({
            let cadence = Cadence::Daily(frequency@);
            let n = dates.len() as int;
            &&& result.0 == run_at(cadence, days_of(dates@), n - 1)
            &&& result.1 == peak_run(cadence, days_of(dates@), n)
            &&& result.2@.len() == n
            &&& forall|i: int|
                0 <= i < n ==> #[trigger] result.2@[i] == run_at(cadence, days_of(dates@), i)
        }),
{
    let ghost cadence = Cadence::Daily(frequency@);
    let ghost days = days_of(dates@);
    let mut running: Vec<i32> = Vec::new();
    let mut current_streak: i32 = 0;
    let mut longest_streak: i32 = 0;
    let mut last_date: i32 = dates[0];
    let mut next_mandatory_day: i32 = TargetHelper::get_next_mandatory_day(
        copy_of(frequency),
        last_date,
    );
    let calc_full_week: bool = frequency.len() == 7;
    let mut i: usize = 0;
    while i < dates.len()
        invariant
            0 < dates.len() <= MAX_HITS,
            i <= dates.len(),
            names_a_weekday(frequency@),
            forall|j: int| 0 <= j < dates.len() ==> #[trigger] dates[j] <= i32::MAX - 7,
            cadence == Cadence::Daily(frequency@),
            days == days_of(dates@),
            calc_full_week == (frequency@.len() == 7),
            last_date == dates[position_before(i as int)],
            next_mandatory_day == next_mandatory_day_of(frequency@, last_date as int),
            next_mandatory_day > last_date,
            i > 0 ==> current_streak == run_at(cadence, days, i - 1),
            i == 0 ==> current_streak == 0,
            longest_streak == peak_run(cadence, days, i as int),
            current_streak <= longest_streak <= i,
            0 <= current_streak,
            i > 0 ==> 1 <= current_streak,
            running@.len() == i,
            forall|j: int| 0 <= j < i ==> #[trigger] running@[j] == run_at(cadence, days, j),
        decreases dates.len() - i,
    {
        let date: i32 = dates[i];
        assert(days[i as int] == date);
        assert(days[position_before(i as int)] == last_date);
        if (calc_full_week && (date == last_date + 1 || last_date == date)) || (!calc_full_week
            && date <= next_mandatory_day) {
            current_streak += 1;
            if current_streak > longest_streak {
                longest_streak = current_streak;
            }
        } else {
            if current_streak > longest_streak {
                longest_streak = current_streak;
            }
            current_streak = 1;
        }
        last_date = date;
        next_mandatory_day = TargetHelper::get_next_mandatory_day(copy_of(frequency), last_date);
        running.push(current_streak);
        i += 1;
    }
    (current_streak, longest_streak, running)
}

/// The streaks of a habit that is due at least once in every `frequency`
/// days: the streak after the last hit, the longest, and the running streak
/// at each hit.
fn interval_streaks(frequency: i32, dates: &Vec<i32>) -> (result: (i32, i32, Vec<i32>))
    requires
        0 < dates.len() <= MAX_HITS,
    ensures
        ({
            let cadence = Cadence::Interval(frequency as int);
            let n = dates.len() as int;
            &&& result.0 == run_at(cadence, days_of(dates@), n - 1)
            &&& result.1 == peak_run(cadence, days_of(dates@), n)
            &&& result.2@.len() == n
            &&& forall|i: int|
                0 <= i < n ==> #[trigger] result.2@[i] == run_at(cadence, days_of(dates@), i)
        }),
{
    let ghost cadence = Cadence::Interval(frequency as int);
    let ghost days = days_of(dates@);
    let mut running: Vec<i32> = Vec::new();
    let mut current_streak: i32 = 0;
    let mut longest_streak: i32 = 0;
    let mut last_date: i32 = dates[0];
    let mut i: usize = 0;
    while i < dates.len()
        invariant
            0 < dates.len() <= MAX_HITS,
            i <= dates.len(),
            cadence == Cadence::Interval(frequency as int),
            days == days_of(dates@),
            last_date == dates[position_before(i as int)],
            i > 0 ==> current_streak == run_at(cadence, days, i - 1),
            i == 0 ==> current_streak == 0,
            longest_streak == peak_run(cadence, days, i as int),
            0 <= current_streak <= i,
            0 <= longest_streak <= i,
            running@.len() == i,
            forall|j: int| 0 <= j < i ==> #[trigger] running@[j] == run_at(cadence, days, j),
        decreases dates.len() - i,
    {
        let date: i32 = dates[i];
        assert(days[i as int] == date);
        assert(days[position_before(i as int)] == last_date);
        if crate::calendar::days_between(last_date, date) <= frequency as i64 {
            current_streak += 1;
            if current_streak > longest_streak {
                longest_streak = current_streak;
            }
        } else {
            current_streak = 1;
        }
        last_date = date;
        running.push(current_streak);
        i += 1;
    }
    (current_streak, longest_streak, running)
}

/// The record that the grid shows at position `i`: the last one logged for
/// the day of the record at `i`.
pub open spec fn shown_at(targets: Seq<Target>, i: int) -> Target {
    targets[last_on(dates_of(targets), targets[i].date as int, targets.len() as int)]
}

/// The last position of a day that occurs among the first `n` is one of
/// them, holds that day, and comes no earlier than any other that does.
proof fn lemma_last_on(dates: Seq<int>, date: int, n: int, i: int)
    requires
        0 <= i < n <= dates.len(),
        dates[i] == date,
    ensures
        i <= last_on(dates, date, n) < n,
        dates[last_on(dates, date, n)] == date,
    decreases n,
{
    if dates[n - 1] != date {
        lemma_last_on(dates, date, n - 1, i);
    }
}

/// The grid's entries: at each position the record shown there, with the
/// running streak of that position.
fn annotate(targets: &Vec<Target>, running: &Vec<i32>) -> (grid: Vec<GridTarget>)
    requires
        running.len() == targets.len(),
    ensures
        grid@.len() == targets.len(),
        forall|i: int|
            0 <= i < targets.len() ==> #[trigger] grid@[i] == (GridTarget {
                id: shown_at(targets@, i).id,
                date: shown_at(targets@, i).date,
                amount: shown_at(targets@, i).amount,
                current_streak: running@[i],
            }),
{
    let ghost dates = dates_of(targets@);
    let n: usize = targets.len();
    let mut grid_targets_map: HashMap<i32, usize> = HashMap::new();
    let mut k: usize = 0;
    while k < n
        invariant
            n == targets.len(),
            k <= n,
            dates == dates_of(targets@),
            forall|d: i32|
                grid_targets_map@.contains_key(d) <==> #[trigger] last_on(dates, d as int, k as int)
                    >= 0,
            forall|d: i32|
                grid_targets_map@.contains_key(d) ==> grid_targets_map@[d] == #[trigger] last_on(
                    dates,
                    d as int,
                    k as int,
                ),
        decreases n - k,
    {
        let ghost before = grid_targets_map@;
        grid_targets_map.insert(targets[k].date, k);
        proof {
            assert(dates[k as int] == targets[k as int].date);
            assert forall|d: i32|
                (grid_targets_map@.contains_key(d) <==> #[trigger] last_on(
                    dates,
                    d as int,
                    k + 1,
                ) >= 0) && (grid_targets_map@.contains_key(d) ==> grid_targets_map@[d] == last_on(
                    dates,
                    d as int,
                    k + 1,
                )) by {
                if d != targets[k as int].date {
                    assert(before.contains_key(d) <==> last_on(dates, d as int, k as int) >= 0);
                }
            }
        }
        k += 1;
    }
    let mut grid_targets: Vec<GridTarget> = Vec::new();
    let mut i: usize = 0;
    while i < n
        invariant
            n == targets.len(),
            n == running.len(),
            i <= n,
            dates == dates_of(targets@),
            forall|d: i32|
                grid_targets_map@.contains_key(d) <==> #[trigger] last_on(dates, d as int, n as int)
                    >= 0,
            forall|d: i32|
                grid_targets_map@.contains_key(d) ==> grid_targets_map@[d] == #[trigger] last_on(
                    dates,
                    d as int,
                    n as int,
                ),
            grid_targets@.len() == i,
            forall|j: int|
                0 <= j < i ==> #[trigger] grid_targets@[j] == (GridTarget {
                    id: shown_at(targets@, j).id,
                    date: shown_at(targets@, j).date,
                    amount: shown_at(targets@, j).amount,
                    current_streak: running@[j],
                }),
        decreases n - i,
    {
        let date: i32 = targets[i].date;
        proof {
            lemma_last_on(dates, date as int, n as int, i as int);
        }
        let found = grid_targets_map.get(&date);
        assert(found.is_some());
        if found.is_some() {
            let at: usize = *found.unwrap();
            let target = &targets[at];
            grid_targets.push(
                GridTarget {
                    id: target.id,
                    date: target.date,
                    amount: target.amount,
                    current_streak: running[i],
                },
            );
        }
        i += 1;
    }
    grid_targets
}

/// A copy of the weekdays.
fn copy_of(days: &Vec<i32>) -> (copy: Vec<i32>)
    ensures
        copy@ == days@,
{
    let copy = days.clone();
    assert(copy@ =~= days@);
    copy
}

/// Whether each hit comes on the day after the one before.
pub open spec fn day_after_day(dates: Seq<int>) -> bool {
    forall|i: int| 0 < i < dates.len() ==> #[trigger] dates[i] == dates[i - 1] + 1
}

/// With all seven weekdays due and a hit on each day in a row, the running
/// streak at a hit is its place in the row, and the longest run among the
/// first `n` hits is `n`.
pub proof fn lemma_unbroken_run(days: Seq<i32>, dates: Seq<int>, n: int)
    requires
        days.len() == 7,
        day_after_day(dates),
        0 <= n <= dates.len(),
    ensures
        n > 0 ==> run_at(Cadence::Daily(days), dates, n - 1) == n,
        peak_run(Cadence::Daily(days), dates, n) == n,
    decreases n,
{
    if n > 0 {
        lemma_unbroken_run(days, dates, n - 1);
        if n > 1 {
            assert(dates[n - 1] == dates[n - 2] + 1);
        }
    }
}

/// With all seven weekdays due and a hit on each day in a row, the longest
/// streak and the streak that stands at the end are the number of hits.
pub proof fn lemma_daily_hits_in_a_row(days: Seq<i32>, dates: Seq<int>)
    requires
        days.len() == 7,
        day_after_day(dates),
    ensures
        longest_streak(Cadence::Daily(days), dates) == dates.len(),
        current_streak(Cadence::Daily(days), dates) == dates.len(),
        forall|i: int|
            0 <= i < dates.len() ==> #[trigger] running_streak(Cadence::Daily(days), dates, i) == i
                + 1,
{
    lemma_unbroken_run(days, dates, dates.len() as int);
    assert forall|i: int| 0 <= i < dates.len() implies #[trigger] running_streak(
        Cadence::Daily(days),
        dates,
        i,
    ) == i + 1 by {
        lemma_unbroken_run(days, dates, i + 1);
    }
}

/// With all seven weekdays due, a hit that comes more than a day after the
/// one before it starts the running streak again at 1.
pub proof fn lemma_daily_gap_starts_again(days: Seq<i32>, dates: Seq<int>, i: int)
    requires
        days.len() == 7,
        0 < i < dates.len(),
        dates[i] > dates[i - 1] + 1,
    ensures
        running_streak(Cadence::Daily(days), dates, i) == 1,
{
}

/// The first mandatory day from an offset on is no earlier than that offset.
proof fn lemma_mandatory_from_later(mandatory_days: Seq<i32>, last_date: int, offset: int)
    ensures
        mandatory_from(mandatory_days, last_date, offset) >= last_date + offset,
    decreases 7 - offset,
{
    if !(offset >= 7 || is_mandatory(mandatory_days, last_date + offset)) {
        lemma_mandatory_from_later(mandatory_days, last_date, offset + 1);
    }
}

/// Where the first hit counts as carrying on, the longest run among the
/// first `n` hits is the highest that the running streak reaches among
/// them.
proof fn lemma_peak_is_highest(cadence: Cadence, dates: Seq<int>, n: int)
    requires
        0 < n <= dates.len(),
        carries_on(cadence, dates[0], dates[0]),
    ensures
        peak_run(cadence, dates, n) >= 1,
        forall|i: int|
            0 <= i < n ==> #[trigger] run_at(cadence, dates, i) <= peak_run(cadence, dates, n),
        exists|i: int|
            0 <= i < n && #[trigger] run_at(cadence, dates, i) == peak_run(cadence, dates, n),
    decreases n,
{
    if n == 1 {
        assert(peak_run(cadence, dates, 0) == 0);
        assert(run_at(cadence, dates, 0) == peak_run(cadence, dates, 1));
    } else {
        lemma_peak_is_highest(cadence, dates, n - 1);
        let before = peak_run(cadence, dates, n - 1);
        let at = choose|i: int| 0 <= i < n - 1 && #[trigger] run_at(cadence, dates, i) == before;
        if peak_run(cadence, dates, n) == before {
            assert(run_at(cadence, dates, at) == peak_run(cadence, dates, n));
        } else {
            assert(run_at(cadence, dates, n - 1) == peak_run(cadence, dates, n));
        }
    }
}

/// The longest streak of a habit that is due so many times in a period is
/// the highest that the running streak reaches.
proof fn lemma_period_longest_is_highest(periods: Seq<int>, required: int, n: int)
    requires
        0 < n <= periods.len(),
    ensures
        period_state(periods, required, n).current >= 1,
        period_state(periods, required, n).longest >= period_state(periods, required, n).current,
        forall|i: int|
            0 <= i < n ==> (#[trigger] period_state(periods, required, i + 1)).current
                <= period_state(periods, required, n).longest,
        exists|i: int|
            0 <= i < n && (#[trigger] period_state(periods, required, i + 1)).current
                == period_state(periods, required, n).longest,
    decreases n,
{
    if n == 1 {
        assert(period_state(periods, required, 0).current == 0);
        assert(period_state(periods, required, 0int + 1).current == period_state(
            periods,
            required,
            1,
        ).longest);
    } else {
        lemma_period_longest_is_highest(periods, required, n - 1);
        let before = period_state(periods, required, n - 1);
        let at = choose|i: int|
            0 <= i < n - 1 && (#[trigger] period_state(periods, required, i + 1)).current
                == before.longest;
        if period_state(periods, required, n).longest == before.longest {
            assert(period_state(periods, required, at + 1).current == period_state(
                periods,
                required,
                n,
            ).longest);
        } else {
            assert(period_state(periods, required, (n - 1) + 1).current == period_state(
                periods,
                required,
                n,
            ).longest);
        }
        assert(before.longest <= period_state(periods, required, n).longest);
        assert forall|i: int| 0 <= i < n implies (#[trigger] period_state(
            periods,
            required,
            i + 1,
        )).current <= period_state(periods, required, n).longest by {
            if i < n - 1 {
                assert(period_state(periods, required, i + 1).current <= before.longest);
            }
        }
    }
}

/// The longest streak is the highest value that the running streak reaches
/// at any hit: no running streak is longer, and one is as long. This holds
/// for every frequency but an interval below zero, at which no hit carries
/// on and the longest streak stays 0.
pub proof fn lemma_longest_is_highest(cadence: Cadence, dates: Seq<int>)
    requires
        dates.len() > 0,
        cadence matches Cadence::Interval(days) ==> days >= 0,
    ensures
        forall|i: int|
            0 <= i < dates.len() ==> #[trigger] running_streak(cadence, dates, i) <= longest_streak(
                cadence,
                dates,
            ),
        exists|i: int|
            0 <= i < dates.len() && #[trigger] running_streak(cadence, dates, i) == longest_streak(
                cadence,
                dates,
            ),
        current_streak(cadence, dates) <= longest_streak(cadence, dates),
{
    let n = dates.len() as int;
    match cadence {
        Cadence::Weekly(required) => {
            lemma_period_longest_is_highest(weeks_of(dates), required, n);
            let at = choose|i: int|
                0 <= i < n && (#[trigger] period_state(weeks_of(dates), required, i + 1)).current
                    == period_state(weeks_of(dates), required, n).longest;
            assert(running_streak(cadence, dates, at) == longest_streak(cadence, dates));
            assert forall|i: int| 0 <= i < n implies #[trigger] running_streak(cadence, dates, i)
                <= longest_streak(cadence, dates) by {
                assert(period_state(weeks_of(dates), required, i + 1).current <= period_state(
                    weeks_of(dates),
                    required,
                    n,
                ).longest);
            }
        },
        Cadence::Monthly(required) => {
            lemma_period_longest_is_highest(months_of(dates), required, n);
            let at = choose|i: int|
                0 <= i < n && (#[trigger] period_state(months_of(dates), required, i + 1)).current
                    == period_state(months_of(dates), required, n).longest;
            assert(running_streak(cadence, dates, at) == longest_streak(cadence, dates));
            assert forall|i: int| 0 <= i < n implies #[trigger] running_streak(cadence, dates, i)
                <= longest_streak(cadence, dates) by {
                assert(period_state(months_of(dates), required, i + 1).current <= period_state(
                    months_of(dates),
                    required,
                    n,
                ).longest);
            }
        },
        Cadence::Daily(days) => {
            lemma_mandatory_from_later(days, dates[0], 1);
            lemma_peak_is_highest(cadence, dates, n);
            let at = choose|i: int|
                0 <= i < n && #[trigger] run_at(cadence, dates, i) == peak_run(cadence, dates, n);
            assert(running_streak(cadence, dates, at) == longest_streak(cadence, dates));
        },
        Cadence::Interval(days) => {
            lemma_peak_is_highest(cadence, dates, n);
            let at = choose|i: int|
                0 <= i < n && #[trigger] run_at(cadence, dates, i) == peak_run(cadence, dates, n);
            assert(running_streak(cadence, dates, at) == longest_streak(cadence, dates));
        },
    }
}

} // verus!
