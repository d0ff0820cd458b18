//! Habits with their statistics, and the achievements that the statistics
//! earn.

use vstd::prelude::*;
use crate::habit::same_text;
use crate::targets::entries_of;
use crate::targets::rules_of;
use crate::targets::statistics_of;
use crate::targets::Summary;
use crate::targets::Target;
use crate::targets::TargetDetails;
use crate::targets::TargetStatistics;
use crate::targets::TargetType;
use crate::targets::MAX_RECORDS;

verus! {

/// How often a habit recurs.
#[derive(Debug, Clone, Copy, PartialEq, Eq, Structural)]
pub enum Periodicity {
    Daily,
    Weekly,
    Monthly,
    Custom,
}

#[derive(Debug, Clone, Copy, PartialEq, Eq, Structural)]
pub enum DayOfTheWeek {
    Sunday,
    Monday,
    Tuesday,
    Wednesday,
    Thursday,
    Friday,
    Saturday,
}

/// The weekdays on which a habit recurs.
#[derive(Debug, Clone)]
pub struct DaysSequence(pub Vec<DayOfTheWeek>);

/// What a habit's goal counts.
#[derive(Debug, Clone, Copy, PartialEq, Eq, Structural)]
pub enum GoalType {
    Times,
    Mins,
}

/// A habit as it is stored.
#[derive(Debug, Clone)]
pub struct Habit {
    pub id: Option<String>,
    pub user_id: String,
    pub title: String,
    pub periodicity: Periodicity,
    pub periodicity_value: Option<DaysSequence>,
    /// When the habit was created, in seconds from 1970-01-01T00:00:00Z.
    pub created_date: i64,
    pub goal: i32,
    pub goal_type: GoalType,
    pub allow_skip: bool,
    pub allow_partial_completion: bool,
    pub allow_over_goal_completion: bool,
    pub can_be_finished: bool,
    pub total_goal: i32,
    pub archived: bool,
    pub deleted: bool,
}

/// What a user enters to set up or change a habit.
#[derive(Debug, Clone)]
pub struct HabitData {
    pub title: String,
    pub periodicity: Periodicity,
    pub periodicity_value: Option<DaysSequence>,
    pub goal: i32,
    pub goal_type: GoalType,
    pub allow_skip: bool,
    pub allow_partial_completion: bool,
    pub allow_over_goal_completion: bool,
    pub can_be_finished: bool,
    pub total_goal: i32,
}

/// A habit with its records and the statistics derived from them.
#[derive(Debug, Clone)]
pub struct HabitDetails {
    pub id: String,
    pub user_id: String,
    pub title: String,
    pub periodicity: Periodicity,
    pub periodicity_value: Option<DaysSequence>,
    pub created_date: i64,
    /// The day of the first record, if there is one.
    pub start_date: Option<i32>,
    pub goal: i32,
    pub goal_type: GoalType,
    pub allow_skip: bool,
    pub allow_partial_completion: bool,
    pub allow_over_goal_completion: bool,
    pub can_be_finished: bool,
    pub total_goal: i32,
    pub statistics: TargetStatistics,
    pub archived: bool,
    pub targets: Vec<TargetDetails>,
}

/// The achievements that a habit can earn.
#[derive(Debug, Clone, Copy, PartialEq, Eq, Structural)]
pub enum HabitsAchievement {
    StreakStarter,
    HabitFormed,
    ConsistencyChampion,
    HabitualHero,
    HabitMaster,
    HabitProdigy,
    HabitLegend,
    SteadyEddie,
    Relentless,
    Unstoppable,
    SurpassingLimits,
    Perseverance,
    ComebackKid,
}

/// The rule by which an achievement is earned.
pub enum Family {
    /// The longest streak reaches the goal.
    StreakThreshold,
    /// The longest streak reaches the goal and no day was ever failed.
    PerfectStreak,
    /// The current streak is at least as long as the one before it.
    SurpassingLimits,
    /// The current streak reaches the goal after some day was failed.
    Comeback,
}

/// The family of each achievement.
pub open spec fn family_of(key: HabitsAchievement) -> Family {
    match key {
        HabitsAchievement::StreakStarter
        | HabitsAchievement::HabitFormed
        | HabitsAchievement::ConsistencyChampion
        | HabitsAchievement::HabitualHero
        | HabitsAchievement::HabitMaster
        | HabitsAchievement::HabitProdigy
        | HabitsAchievement::HabitLegend => Family::StreakThreshold,
        HabitsAchievement::SteadyEddie
        | HabitsAchievement::Relentless
        | HabitsAchievement::Unstoppable => Family::PerfectStreak,
        HabitsAchievement::SurpassingLimits => Family::SurpassingLimits,
        HabitsAchievement::Perseverance | HabitsAchievement::ComebackKid => Family::Comeback,
    }
}

/// The number of days that an achievement asks for, where it asks for one.
pub open spec fn goal_of(key: HabitsAchievement) -> Option<int> {
    match key {
        HabitsAchievement::StreakStarter => Some(3),
        HabitsAchievement::HabitFormed => Some(7),
        HabitsAchievement::ConsistencyChampion => Some(14),
        HabitsAchievement::HabitualHero => Some(30),
        HabitsAchievement::HabitMaster => Some(60),
        HabitsAchievement::HabitProdigy => Some(90),
        HabitsAchievement::HabitLegend => Some(180),
        HabitsAchievement::SteadyEddie => Some(21),
        HabitsAchievement::Relentless => Some(30),
        HabitsAchievement::Unstoppable => Some(60),
        HabitsAchievement::SurpassingLimits => None,
        HabitsAchievement::Perseverance => Some(14),
        HabitsAchievement::ComebackKid => Some(30),
    }
}

/// Whether statistics `s` earn the achievement `key`.
pub open spec fn earned(key: HabitsAchievement, s: Summary) -> bool {
    match family_of(key) {
        Family::StreakThreshold => goal_of(key) matches Some(goal) && s.max_streak_count >= goal,
        Family::PerfectStreak => goal_of(key) matches Some(goal) && s.max_streak_count >= goal
            && s.failed_count == 0,
        Family::SurpassingLimits => s.current_streak_count >= s.prev_streak_count
            && s.prev_streak_count > 0,
        Family::Comeback => goal_of(key) matches Some(goal) && s.current_streak_count >= goal
            && s.failed_count > 0,
    }
}

/// How far statistics `s` have come toward the achievement `key`.
pub open spec fn progress_of(key: HabitsAchievement, s: Summary) -> int {
    match family_of(key) {
        Family::StreakThreshold => s.max_streak_count,
        Family::PerfectStreak => s.completed_count,
        Family::SurpassingLimits => s.current_streak_count,
        Family::Comeback => s.current_streak_count,
    }
}

/// The catalog, in the order in which it is shown.
pub open spec fn catalog() -> Seq<HabitsAchievement> {
    seq![
        HabitsAchievement::StreakStarter,
        HabitsAchievement::HabitFormed,
        HabitsAchievement::ConsistencyChampion,
        HabitsAchievement::HabitualHero,
        HabitsAchievement::HabitMaster,
        HabitsAchievement::HabitProdigy,
        HabitsAchievement::HabitLegend,
        HabitsAchievement::SteadyEddie,
        HabitsAchievement::Relentless,
        HabitsAchievement::Unstoppable,
        HabitsAchievement::SurpassingLimits,
        HabitsAchievement::Perseverance,
        HabitsAchievement::ComebackKid,
    ]
}

/// The name under which an achievement is stored.
pub open spec fn name_of(key: HabitsAchievement) -> Seq<char> {
    match key {
        HabitsAchievement::StreakStarter => "StreakStarter"@,
        HabitsAchievement::HabitFormed => "HabitFormed"@,
        HabitsAchievement::ConsistencyChampion => "ConsistencyChampion"@,
        HabitsAchievement::HabitualHero => "HabitualHero"@,
        HabitsAchievement::HabitMaster => "HabitMaster"@,
        HabitsAchievement::HabitProdigy => "HabitProdigy"@,
        HabitsAchievement::HabitLegend => "HabitLegend"@,
        HabitsAchievement::SteadyEddie => "SteadyEddie"@,
        HabitsAchievement::Relentless => "Relentless"@,
        HabitsAchievement::Unstoppable => "Unstoppable"@,
        HabitsAchievement::SurpassingLimits => "SurpassingLimits"@,
        HabitsAchievement::Perseverance => "Perseverance"@,
        HabitsAchievement::ComebackKid => "ComebackKid"@,
    }
}

/// The achievement that is stored under `name`, if there is one.
pub open spec fn key_named(name: Seq<char>) -> Option<HabitsAchievement> {
    if name == "StreakStarter"@ {
        Some(HabitsAchievement::StreakStarter)
    } else if name == "HabitFormed"@ {
        Some(HabitsAchievement::HabitFormed)
    } else if name == "ConsistencyChampion"@ {
        Some(HabitsAchievement::ConsistencyChampion)
    } else if name == "HabitualHero"@ {
        Some(HabitsAchievement::HabitualHero)
    } else if name == "HabitMaster"@ {
        Some(HabitsAchievement::HabitMaster)
    } else if name == "HabitProdigy"@ {
        Some(HabitsAchievement::HabitProdigy)
    } else if name == "HabitLegend"@ {
        Some(HabitsAchievement::HabitLegend)
    } else if name == "SteadyEddie"@ {
        Some(HabitsAchievement::SteadyEddie)
    } else if name == "Relentless"@ {
        Some(HabitsAchievement::Relentless)
    } else if name == "Unstoppable"@ {
        Some(HabitsAchievement::Unstoppable)
    } else if name == "SurpassingLimits"@ {
        Some(HabitsAchievement::SurpassingLimits)
    } else if name == "Perseverance"@ {
        Some(HabitsAchievement::Perseverance)
    } else if name == "ComebackKid"@ {
        Some(HabitsAchievement::ComebackKid)
    } else {
        None
    }
}

impl HabitsAchievement {
    /// The achievement that is stored under the name `input`.
    pub fn from_str(input: &str) -> (key: Result<HabitsAchievement, ()>)
        ensures
            key is Ok <==> key_named(input@) is Some,
            key matches Ok(found) ==> key_named(input@) == Some(found),
    {
        if same_text(input, "StreakStarter") {
            Ok(HabitsAchievement::StreakStarter)
        } else if same_text(input, "HabitFormed") {
            Ok(HabitsAchievement::HabitFormed)
        } else if same_text(input, "ConsistencyChampion") {
            Ok(HabitsAchievement::ConsistencyChampion)
        } else if same_text(input, "HabitualHero") {
            Ok(HabitsAchievement::HabitualHero)
        } else if same_text(input, "HabitMaster") {
            Ok(HabitsAchievement::HabitMaster)
        } else if same_text(input, "HabitProdigy") {
            Ok(HabitsAchievement::HabitProdigy)
        } else if same_text(input, "HabitLegend") {
            Ok(HabitsAchievement::HabitLegend)
        } else if same_text(input, "SteadyEddie") {
            Ok(HabitsAchievement::SteadyEddie)
        } else if same_text(input, "Relentless") {
            Ok(HabitsAchievement::Relentless)
        } else if same_text(input, "Unstoppable") {
            Ok(HabitsAchievement::Unstoppable)
        } else if same_text(input, "SurpassingLimits") {
            Ok(HabitsAchievement::SurpassingLimits)
        } else if same_text(input, "Perseverance") {
            Ok(HabitsAchievement::Perseverance)
        } else if same_text(input, "ComebackKid") {
            Ok(HabitsAchievement::ComebackKid)
        } else {
            Err(())
        }
    }

    /// The name under which the achievement is stored.
    pub fn to_string(&self) -> (name: String)
        ensures
            name@ == name_of(*self),
    {
        match self {
            Self::StreakStarter => "StreakStarter".to_owned(),
            Self::HabitFormed => "HabitFormed".to_owned(),
            Self::ConsistencyChampion => "ConsistencyChampion".to_owned(),
            Self::HabitualHero => "HabitualHero".to_owned(),
            Self::HabitMaster => "HabitMaster".to_owned(),
            Self::HabitProdigy => "HabitProdigy".to_owned(),
            Self::HabitLegend => "HabitLegend".to_owned(),
            Self::SteadyEddie => "SteadyEddie".to_owned(),
            Self::Relentless => "Relentless".to_owned(),
            Self::Unstoppable => "Unstoppable".to_owned(),
            Self::SurpassingLimits => "SurpassingLimits".to_owned(),
            Self::Perseverance => "Perseverance".to_owned(),
            Self::ComebackKid => "ComebackKid".to_owned(),
        }
    }

    /// The number of days that the achievement asks for, where it asks for
    /// one.
    pub fn goal(&self) -> (goal: Option<i32>)
        ensures
            goal is Some <==> goal_of(*self) is Some,
            goal matches Some(days) ==> goal_of(*self) == Some(days as int),
    {
        match self {
            Self::StreakStarter => Some(3),
            Self::HabitFormed => Some(7),
            Self::ConsistencyChampion => Some(14),
            Self::HabitualHero => Some(30),
            Self::HabitMaster => Some(60),
            Self::HabitProdigy => Some(90),
            Self::HabitLegend => Some(180),
            Self::SteadyEddie => Some(21),
            Self::Relentless => Some(30),
            Self::Unstoppable => Some(60),
            Self::SurpassingLimits => None,
            Self::Perseverance => Some(14),
            Self::ComebackKid => Some(30),
        }
    }

    /// The whole catalog, in the order in which it is shown.
    pub fn get_all() -> (all: Vec<Self>)
        ensures
            all@ == catalog(),
    {
        let all = vec![
            Self::StreakStarter,
            Self::HabitFormed,
            Self::ConsistencyChampion,
            Self::HabitualHero,
            Self::HabitMaster,
            Self::HabitProdigy,
            Self::HabitLegend,
            Self::SteadyEddie,
            Self::Relentless,
            Self::Unstoppable,
            Self::SurpassingLimits,
            Self::Perseverance,
            Self::ComebackKid,
        ];
        assert(all@ =~= catalog());
        all
    }

    /// Whether the statistics earn the achievement, and how far they have
    /// come toward it.
    pub fn evaluate(achievement_key: &HabitsAchievement, statistics: &TargetStatistics) -> (result:
        (bool, i64))
        ensures
            result.0 == earned(*achievement_key, statistics@),
            result.1 == progress_of(*achievement_key, statistics@),
    {
        let mut completed = false;
        match achievement_key {
            HabitsAchievement::StreakStarter
            | HabitsAchievement::HabitFormed
            | HabitsAchievement::ConsistencyChampion
            | HabitsAchievement::HabitualHero
            | HabitsAchievement::HabitMaster
            | HabitsAchievement::HabitProdigy
            | HabitsAchievement::HabitLegend => {
                let goal = achievement_key.goal();
                if goal.is_some() && statistics.max_streak_count >= goal.unwrap() as i64 {
                    completed = true;
                }
                (completed, statistics.max_streak_count)
            },
            HabitsAchievement::SteadyEddie
            | HabitsAchievement::Relentless
            | HabitsAchievement::Unstoppable => {
                let goal = achievement_key.goal();
                if goal.is_some() && statistics.max_streak_count >= goal.unwrap() as i64
                    && statistics.failed_count == 0 {
                    completed = true;
                }
                (completed, statistics.completed_count)
            },
            HabitsAchievement::SurpassingLimits => {
                if statistics.current_streak_count >= statistics.prev_streak_count
                    && statistics.prev_streak_count > 0 {
                    completed = true;
                }
                (completed, statistics.current_streak_count)
            },
            HabitsAchievement::Perseverance | HabitsAchievement::ComebackKid => {
                let goal = achievement_key.goal();
                if goal.is_some() && statistics.current_streak_count >= goal.unwrap() as i64
                    && statistics.failed_count > 0 {
                    completed = true;
                }
                (completed, statistics.current_streak_count)
            },
        }
    }

    /// Whether the habit's statistics earn the achievement, and how far
    /// they have come toward it.
    pub fn check(achievement_key: &HabitsAchievement, habit: HabitDetails) -> (result: (bool, i64))
        ensures
            result.0 == earned(*achievement_key, habit.statistics@),
            result.1 == progress_of(*achievement_key, habit.statistics@),
            *achievement_key == HabitsAchievement::SurpassingLimits ==> (result.0 <==> (
            habit.statistics.current_streak_count >= habit.statistics.prev_streak_count
                && habit.statistics.prev_streak_count > 0)),
    {
        Self::evaluate(achievement_key, &habit.statistics)
    }
}

/// The records among `records` that fall on `day`, where one is given, and
/// that are not skipped days, unless `with_skips`; in the order in which
/// they stand.
pub open spec fn selected(records: Seq<TargetDetails>, day: Option<i32>, with_skips: bool) -> Seq<
    TargetDetails,
>
    decreases records.len(),
{
    if records.len() == 0 {
        records
    } else {
        let before = selected(records.drop_last(), day, with_skips);
        if is_selected(records.last(), day, with_skips) {
            before.push(records.last())
        } else {
            before
        }
    }
}

/// Whether `record` falls on `day`, where one is given, and is not a
/// skipped day, unless `with_skips`.
pub open spec fn is_selected(record: TargetDetails, day: Option<i32>, with_skips: bool) -> bool {
    &&& day matches Some(d) ==> record.date == d
    &&& with_skips || record.target_type != TargetType::Skip
}

/// Whether no record stands before one of an earlier day.
pub open spec fn in_date_order(records: Seq<TargetDetails>) -> bool {
    forall|i: int, j: int| 0 <= i < j < records.len() ==> records[i].date <= records[j].date
}

/// Whether `prepared` holds the records of `given` as the statistics take
/// them: in the order of their days, those of one day in the order in which
/// they were given, and without the skipped days unless `with_skips`.
pub open spec fn prepared_from(
    prepared: Seq<TargetDetails>,
    given: Seq<TargetDetails>,
    with_skips: bool,
) -> bool {
    &&& in_date_order(prepared)
    &&& forall|day: i32| #[trigger]
        selected(prepared, Some(day), true) == selected(given, Some(day), with_skips)
}

/// `slice::sort_by_key` of std, with the day of a record as its key.
/// Trusted: the sort is stable, so afterwards the records stand in the order
/// of their days, there are as many as before, and those of each day are
/// the ones that were there, in the order in which they stood.
#[verifier::external_body]
fn sort_by_date(targets: &mut Vec<TargetDetails>)
    ensures
        in_date_order(final(targets)@),
        final(targets)@.len() == old(targets)@.len(),
        forall|day: i32| #[trigger]
            selected(final(targets)@, Some(day), true) == selected(old(targets)@, Some(day), true),
{
    targets.sort_by_key(|t| t.date);
}

/// Selecting in two steps selects by both.
proof fn lemma_selected_twice(records: Seq<TargetDetails>, day: Option<i32>, with_skips: bool)
    ensures
        selected(selected(records, None, with_skips), day, true) == selected(
            records,
            day,
            with_skips,
        ),
        selected(selected(records, day, true), None, with_skips) == selected(
            records,
            day,
            with_skips,
        ),
    decreases records.len(),
{
    if records.len() > 0 {
        let before = records.drop_last();
        lemma_selected_twice(before, day, with_skips);
        let last = records.last();
        if is_selected(last, None, with_skips) {
            let inner = selected(before, None, with_skips);
            assert(inner.push(last).drop_last() =~= inner);
        }
        if is_selected(last, day, true) {
            let inner = selected(before, day, true);
            assert(inner.push(last).drop_last() =~= inner);
        }
    }
}

/// Each selected record is one of the records, and they keep their order:
/// the selection is in the order of the days where the records are.
proof fn lemma_selected_in_date_order(records: Seq<TargetDetails>, with_skips: bool)
    requires
        in_date_order(records),
    ensures
        in_date_order(selected(records, None, with_skips)),
        forall|i: int|
            0 <= i < selected(records, None, with_skips).len() ==> exists|j: int|
                0 <= j < records.len() && records[j] == #[trigger] selected(
                    records,
                    None,
                    with_skips,
                )[i],
    decreases records.len(),
{
    if records.len() > 0 {
        let before = records.drop_last();
        lemma_selected_in_date_order(before, with_skips);
        let chosen = selected(records, None, with_skips);
        let inner = selected(before, None, with_skips);
        assert forall|i: int| 0 <= i < chosen.len() implies exists|j: int|
            0 <= j < records.len() && records[j] == #[trigger] chosen[i] by {
            if i < inner.len() {
                let j = choose|j: int| 0 <= j < before.len() && before[j] == inner[i];
                assert(records[j] == chosen[i]);
            } else {
                assert(records[records.len() - 1] == chosen[i]);
            }
        }
        assert forall|i: int, k: int| 0 <= i < k < chosen.len() implies chosen[i].date
            <= chosen[k].date by {
            if k >= inner.len() {
                let j = choose|j: int| 0 <= j < before.len() && before[j] == inner[i];
                assert(records[j].date <= records[records.len() - 1].date);
            }
        }
    }
}

/// The records without the skipped days.
fn without_skips(targets: &Vec<TargetDetails>) -> (kept: Vec<TargetDetails>)
    ensures
        kept@ == selected(targets@, None, false),
        kept@.len() <= targets@.len(),
{
    let mut kept: Vec<TargetDetails> = Vec::new();
    let mut i: usize = 0;
    assert(targets@.take(0) =~= Seq::<TargetDetails>::empty());
    while i < targets.len()
        invariant
            i <= targets.len(),
            kept@ == selected(targets@.take(i as int), None, false),
            kept@.len() <= i,
        decreases targets.len() - i,
    {
        proof {
            let upto = targets@.take(i as int + 1);
            assert(upto.drop_last() =~= targets@.take(i as int));
            assert(upto.last() == targets@[i as int]);
        }
        if targets[i].target_type != TargetType::Skip {
            kept.push(targets[i].duplicate());
        }
        i += 1;
    }
    assert(targets@.take(targets.len() as int) =~= targets@);
    kept
}

impl Habit {
    /// The habit to store for what `user_id` entered, created at the time
    /// `now`.
    pub fn new(data: &HabitData, user_id: String, now: i64) -> (habit: Self)
        ensures
            habit.id is None,
            habit.user_id == user_id,
            habit.title == data.title,
            habit.periodicity == data.periodicity,
            days_of(habit.periodicity_value) == days_of(data.periodicity_value),
            habit.created_date == now,
            habit.goal == data.goal,
            habit.goal_type == data.goal_type,
            habit.allow_skip == data.allow_skip,
            habit.allow_partial_completion == data.allow_partial_completion,
            habit.allow_over_goal_completion == data.allow_over_goal_completion,
            habit.can_be_finished == data.can_be_finished,
            habit.total_goal == data.total_goal,
            !habit.archived,
            !habit.deleted,
    {
        Habit {
            id: None,
            user_id,
            title: data.title.clone(),
            periodicity: data.periodicity,
            periodicity_value: copy_days(&data.periodicity_value),
            created_date: now,
            goal: data.goal,
            goal_type: data.goal_type,
            allow_skip: data.allow_skip,
            allow_partial_completion: data.allow_partial_completion,
            allow_over_goal_completion: data.allow_over_goal_completion,
            can_be_finished: data.can_be_finished,
            total_goal: data.total_goal,
            archived: false,
            deleted: false,
        }
    }
}

impl HabitDetails {
    /// The habit `h` with its records and statistics as seen on the day
    /// `today`. The records are put in the order of their days, and the
    /// skipped days are left out where the habit does not allow skipping.
    pub fn parse(h: &Habit, targets: Vec<TargetDetails>, today: i32) -> (details: HabitDetails)
        requires
            h.id is Some,
            targets.len() <= MAX_RECORDS,
        ensures
            prepared_from(details.targets@, targets@, h.allow_skip),
            details.statistics@ == statistics_of(
                entries_of(details.targets@),
                rules_of(h.allow_skip, h.allow_partial_completion, h.goal, today),
            ),
            details.start_date == first_day(details.targets@),
            Some(details.id) == h.id,
            Some(details.user_id) == h.id,
            details.title == h.title,
            details.periodicity == h.periodicity,
            days_of(details.periodicity_value) == days_of(h.periodicity_value),
            details.created_date == h.created_date,
            details.goal == h.goal,
            details.goal_type == h.goal_type,
            details.allow_skip == h.allow_skip,
            details.allow_partial_completion == h.allow_partial_completion,
            details.allow_over_goal_completion == h.allow_over_goal_completion,
            details.can_be_finished == h.can_be_finished,
            details.total_goal == h.total_goal,
            details.archived == h.archived,
    {
        let mut sorted = targets;
        sort_by_date(&mut sorted);
        let prepared = if !h.allow_skip {
            without_skips(&sorted)
        } else {
            sorted
        };
        proof {
            assert forall|day: i32| #[trigger]
                selected(prepared@, Some(day), true) == selected(
                    targets@,
                    Some(day),
                    h.allow_skip,
                ) by {
                if !h.allow_skip {
                    lemma_selected_twice(sorted@, Some(day), false);
                    lemma_selected_twice(targets@, Some(day), false);
                }
            }
            if !h.allow_skip {
                lemma_selected_in_date_order(sorted@, false);
            }
        }
        let id = match &h.id {
            Some(id) => id.clone(),
            None => String::new(),
        };
        let user_id = id.clone();
        let statistics = Target::calculate_statistics(
            copy_records(&prepared),
            h.allow_skip,
            h.allow_partial_completion,
            h.goal,
            today,
        );
        HabitDetails {
            id,
            user_id,
            title: h.title.clone(),
            periodicity: h.periodicity,
            periodicity_value: copy_days(&h.periodicity_value),
            created_date: h.created_date,
            start_date: Self::get_start_date(&prepared),
            goal: h.goal,
            goal_type: h.goal_type,
            allow_skip: h.allow_skip,
            allow_partial_completion: h.allow_partial_completion,
            allow_over_goal_completion: h.allow_over_goal_completion,
            can_be_finished: h.can_be_finished,
            total_goal: h.total_goal,
            statistics,
            archived: h.archived,
            targets: prepared,
        }
    }

    /// The day of the first record, if there is one.
    pub fn get_start_date(targets: &Vec<TargetDetails>) -> (start: Option<i32>)
        ensures
            start == first_day(targets@),
    {
        if targets.len() == 0 {
            return None;
        }
        Some(targets[0].date)
    }
}

/// The day of the first record, if there is one.
pub open spec fn first_day(records: Seq<TargetDetails>) -> Option<i32> {
    if records.len() == 0 {
        None
    } else {
        Some(records[0].date)
    }
}

/// A list of records equal to `targets`.
fn copy_records(targets: &Vec<TargetDetails>) -> (copy: Vec<TargetDetails>)
    ensures
        copy@ == targets@,
{
    let mut copy: Vec<TargetDetails> = Vec::new();
    let mut i: usize = 0;
    while i < targets.len()
        invariant
            i <= targets.len(),
            copy@ == targets@.take(i as int),
        decreases targets.len() - i,
    {
        copy.push(targets[i].duplicate());
        assert(targets@.take(i as int).push(targets@[i as int]) =~= targets@.take(i + 1));
        i += 1;
    }
    assert(targets@.take(targets.len() as int) =~= targets@);
    copy
}

/// The weekdays of a sequence, where there is one.
pub open spec fn days_of(days: Option<DaysSequence>) -> Option<Seq<DayOfTheWeek>> {
    match days {
        Some(sequence) => Some(sequence.0@),
        None => None,
    }
}

/// The same weekdays as `days`.
fn copy_days(days: &Option<DaysSequence>) -> (copy: Option<DaysSequence>)
    ensures
        days_of(copy) == days_of(*days),
{
    match days {
        Some(sequence) => {
            let list = sequence.0.clone();
            assert(list@ =~= sequence.0@);
            Some(DaysSequence(list))
        },
        None => None,
    }
}

/// The length of a name and its sixth letter, which tell the names of the
/// catalog apart.
pub open spec fn mark(name: Seq<char>) -> (nat, char) {
    (name.len(), name[5])
}

/// Every achievement is found again under its name: no two names are the
/// same.
pub proof fn lemma_found_under_its_name(key: HabitsAchievement)
    ensures
        key_named(name_of(key)) == Some(key),
{
    assert(mark("StreakStarter"@) == (13nat, 'k')) by {
        reveal_strlit("StreakStarter");
    }
    assert(mark("HabitFormed"@) == (11nat, 'F')) by {
        reveal_strlit("HabitFormed");
    }
    assert(mark("ConsistencyChampion"@) == (19nat, 's')) by {
        reveal_strlit("ConsistencyChampion");
    }
    assert(mark("HabitualHero"@) == (12nat, 'u')) by {
        reveal_strlit("HabitualHero");
    }
    assert(mark("HabitMaster"@) == (11nat, 'M')) by {
        reveal_strlit("HabitMaster");
    }
    assert(mark("HabitProdigy"@) == (12nat, 'P')) by {
        reveal_strlit("HabitProdigy");
    }
    assert(mark("HabitLegend"@) == (11nat, 'L')) by {
        reveal_strlit("HabitLegend");
    }
    assert(mark("SteadyEddie"@) == (11nat, 'y')) by {
        reveal_strlit("SteadyEddie");
    }
    assert(mark("Relentless"@) == (10nat, 't')) by {
        reveal_strlit("Relentless");
    }
    assert(mark("Unstoppable"@) == (11nat, 'p')) by {
        reveal_strlit("Unstoppable");
    }
    assert(mark("SurpassingLimits"@) == (16nat, 's')) by {
        reveal_strlit("SurpassingLimits");
    }
    assert(mark("Perseverance"@) == (12nat, 'v')) by {
        reveal_strlit("Perseverance");
    }
    assert(mark("ComebackKid"@) == (11nat, 'a')) by {
        reveal_strlit("ComebackKid");
    }
}

} // verus!
