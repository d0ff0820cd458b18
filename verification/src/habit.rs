//! Habits and how often they are due.

use vstd::prelude::*;
use crate::habit_target::current_streak;
use crate::habit_target::dates_of;
use crate::habit_target::grid_ready;
use crate::habit_target::longest_streak;
use crate::habit_target::running_streak;
use crate::habit_target::shown_at;
use crate::habit_target::Target;
use crate::habit_target::TargetHelper;
use crate::habit_target::MAX_HITS;

verus! {

/// How often a habit is due.
#[derive(Debug, Clone)]
pub enum Frequency {
    /// On the given weekdays, counted from Sunday = 0.
    Daily(Vec<i32>),
    /// So many times in every ISO week.
    Weekly(i32),
    /// So many times in every calendar month.
    Monthly(i32),
    /// At least once in every so many days.
    Interval(i32),
}

/// A frequency as mathematical values.
pub enum Cadence {
    Daily(Seq<i32>),
    Weekly(int),
    Monthly(int),
    Interval(int),
}

impl View for Frequency {
    type V = Cadence;

    open spec fn view(&self) -> Cadence {
        match self {
            Frequency::Daily(days) => Cadence::Daily(days@),
            Frequency::Weekly(count) => Cadence::Weekly(*count as int),
            Frequency::Monthly(count) => Cadence::Monthly(*count as int),
            Frequency::Interval(days) => Cadence::Interval(*days as int),
        }
    }
}

/// A habit as its owner set it up.
#[derive(Debug, Clone)]
pub struct Habit {
    pub id: u128,
    pub user_id: u128,
    pub name: String,
    /// When the habit was created, in seconds from 1970-01-01T00:00:00Z.
    pub created_date: i64,
    pub goal: i32,
    pub archived: bool,
    pub deleted: bool,
    pub color: String,
    pub icon: String,
    pub amount: i32,
    pub frequency: Frequency,
}

/// A logged day as the calendar grid shows it, with the length that the
/// running streak had on that day.
#[derive(Debug, Clone, Copy, PartialEq, Eq, Structural)]
pub struct GridTarget {
    pub id: u128,
    pub date: i32,
    pub amount: i32,
    pub current_streak: i32,
}

/// The achievements that a habit can earn.
pub type HabitsAchievementEnum = crate::habits::HabitsAchievement;

/// Whether two texts are the same.
pub fn same_text(a: &str, b: &str) -> (same: bool)
    ensures
        same == (a@ == b@),
{
    let left: String = a.to_owned();
    let right: String = b.to_owned();
    left == right
}

/// Whether `amount` is a number of 32 bits.
pub open spec fn fits(amount: i64) -> bool {
    i32::MIN <= amount <= i32::MAX
}

/// The frequency that a kind and its amounts stand for: `daily` with the
/// weekdays on which the habit is due, `weekly`, `monthly` or `interval`
/// with one number; nothing for another kind, for a missing number and for
/// one that is no number of 32 bits.
pub open spec fn decoded(kind: Seq<char>, amounts: Seq<i64>) -> Option<Cadence> {
    if kind == "daily"@ {
        if forall|i: int| 0 <= i < amounts.len() ==> fits(#[trigger] amounts[i]) {
            Some(Cadence::Daily(amounts.map_values(|a: i64| a as i32)))
        } else {
            None
        }
    } else if amounts.len() == 0 || !fits(amounts[0]) {
        None
    } else if kind == "weekly"@ {
        Some(Cadence::Weekly(amounts[0] as int))
    } else if kind == "monthly"@ {
        Some(Cadence::Monthly(amounts[0] as int))
    } else if kind == "interval"@ {
        Some(Cadence::Interval(amounts[0] as int))
    } else {
        None
    }
}

impl Frequency {
    /// Reads a frequency from its kind and amounts as they are stored.
    pub fn decode(frequency_type: &str, frequency_amount: &Vec<i64>) -> (frequency: Option<
        Frequency,
    >)
        ensures
            frequency is Some <==> decoded(frequency_type@, frequency_amount@) is Some,
            frequency matches Some(f) ==> decoded(frequency_type@, frequency_amount@) == Some(f@),
    {
        if same_text(frequency_type, "daily") {
            let mut days: Vec<i32> = Vec::new();
            let mut i: usize = 0;
            while i < frequency_amount.len()
                invariant
                    i <= frequency_amount.len(),
                    frequency_type@ == "daily"@,
                    days@.len() == i,
                    forall|j: int| 0 <= j < i ==> fits(#[trigger] frequency_amount@[j]),
                    forall|j: int| 0 <= j < i ==> #[trigger] days@[j] == frequency_amount@[j],
                decreases frequency_amount.len() - i,
            {
                let amount: i64 = frequency_amount[i];
                if amount < -0x8000_0000 || amount > 0x7fff_ffff {
                    assert(!fits(frequency_amount@[i as int]));
                    return None;
                }
                days.push(amount as i32);
                i += 1;
            }
            assert(days@ =~= frequency_amount@.map_values(|a: i64| a as i32));
            return Some(Frequency::Daily(days));
        }
        if frequency_amount.len() == 0 {
            return None;
        }
        let first: i64 = frequency_amount[0];
        if first < -0x8000_0000 || first > 0x7fff_ffff {
            return None;
        }
        let amount: i32 = first as i32;
        if same_text(frequency_type, "weekly") {
            Some(Frequency::Weekly(amount))
        } else if same_text(frequency_type, "monthly") {
            Some(Frequency::Monthly(amount))
        } else if same_text(frequency_type, "interval") {
            Some(Frequency::Interval(amount))
        } else {
            None
        }
    }

    /// A frequency equal to this one.
    pub fn duplicate(&self) -> (copy: Self)
        ensures
            copy@ == self@,
    {
        match self {
            Frequency::Daily(days) => {
                let list = days.clone();
                assert(list@ =~= days@);
                Frequency::Daily(list)
            },
            Frequency::Weekly(count) => Frequency::Weekly(*count),
            Frequency::Monthly(count) => Frequency::Monthly(*count),
            Frequency::Interval(days) => Frequency::Interval(*days),
        }
    }
}

/// A habit with its records.
#[derive(Debug, Clone)]
pub struct HabitDetails {
    pub id: u128,
    pub user_id: u128,
    pub name: String,
    pub color: String,
    pub icon: String,
    pub amount: i32,
    pub goal: i32,
    pub frequency: Frequency,
    pub created_date: i64,
    pub targets: Vec<Target>,
}

impl HabitDetails {
    /// The habit `h` with its records.
    pub fn parse(h: &Habit, targets: Vec<Target>) -> (details: HabitDetails)
        ensures
            details.id == h.id,
            details.user_id == h.user_id,
            details.name == h.name,
            details.color == h.color,
            details.icon == h.icon,
            details.amount == h.amount,
            details.goal == h.goal,
            details.frequency@ == h.frequency@,
            details.created_date == h.created_date,
            details.targets@ == targets@,
    {
        HabitDetails {
            id: h.id,
            user_id: h.user_id,
            name: h.name.clone(),
            color: h.color.clone(),
            icon: h.icon.clone(),
            amount: h.amount,
            goal: h.goal,
            frequency: h.frequency.duplicate(),
            created_date: h.created_date,
            targets,
        }
    }

    /// The day of the first record, if there is one.
    pub fn get_start_date(targets: &Vec<Target>) -> (start: Option<i32>)
        ensures
            targets.len() == 0 ==> start is None,
            targets.len() > 0 ==> start == Some(targets@[0].date),
    {
        if targets.len() == 0 {
            return None;
        }
        Some(targets[0].date)
    }
}

/// A habit as the calendar grid shows it: its records with their running
/// streaks, the streak that stands, the longest, and the number of records.
#[derive(Debug, Clone)]
pub struct GridHabitDetails {
    pub id: u128,
    pub user_id: u128,
    pub name: String,
    pub color: String,
    pub icon: String,
    pub amount: i32,
    pub goal: i32,
    pub frequency: Frequency,
    pub created_date: i64,
    pub targets: Vec<GridTarget>,
    pub current_streak: i32,
    pub longest_streak: i32,
    pub total_count: i32,
}

impl GridHabitDetails {
    /// The habit `h` with the grid of its records.
    pub fn parse(h: &Habit, targets: Vec<Target>) -> (details: GridHabitDetails)
        requires
            targets.len() <= MAX_HITS,
            targets.len() > 0 ==> grid_ready(h.frequency@, dates_of(targets@)),
        ensures
            details.id == h.id,
            details.user_id == h.user_id,
            details.name == h.name,
            details.color == h.color,
            details.icon == h.icon,
            details.amount == h.amount,
            details.goal == h.goal,
            details.frequency@ == h.frequency@,
            details.created_date == h.created_date,
            details.total_count == targets.len(),
            details.current_streak == current_streak(h.frequency@, dates_of(targets@)),
            details.longest_streak == longest_streak(h.frequency@, dates_of(targets@)),
            details.targets@.len() == targets.len(),
            forall|i: int|
                0 <= i < targets.len() ==> {
                    let entry = #[trigger] details.targets@[i];
                    &&& entry.id == shown_at(targets@, i).id
                    &&& entry.date == shown_at(targets@, i).date
                    &&& entry.amount == shown_at(targets@, i).amount
                    &&& entry.current_streak == running_streak(
                        h.frequency@,
                        dates_of(targets@),
                        i,
                    )
                },
    {
        let total_count: i32 = targets.len() as i32;
        let (current_streak, longest_streak, weekly_targets) = TargetHelper::calculate_streaks(
            h,
            targets,
        );
        GridHabitDetails {
            id: h.id,
            user_id: h.user_id,
            name: h.name.clone(),
            color: h.color.clone(),
            icon: h.icon.clone(),
            amount: h.amount,
            goal: h.goal,
            frequency: h.frequency.duplicate(),
            created_date: h.created_date,
            targets: weekly_targets,
            current_streak,
            longest_streak,
            total_count,
        }
    }
}

/// What a user enters to set up or change a habit.
#[derive(Debug, Clone)]
pub struct HabitData {
    pub name: String,
    pub color: String,
    pub icon: String,
    pub amount: i32,
    pub goal: i32,
    pub frequency: Frequency,
}

/// A habit that is about to be stored.
#[derive(Debug, Clone)]
pub struct NewHabit {
    pub user_id: u128,
    pub name: String,
    pub color: String,
    pub icon: String,
    pub amount: i32,
    pub goal: i32,
    pub frequency: Frequency,
}

impl NewHabit {
    /// The habit to store for what `user_id` entered.
    pub fn create(new_habit: HabitData, user_id: u128) -> (habit: Self)
        ensures
            habit.user_id == user_id,
            habit.name == new_habit.name,
            habit.color == new_habit.color,
            habit.icon == new_habit.icon,
            habit.amount == new_habit.amount,
            habit.goal == new_habit.goal,
            habit.frequency == new_habit.frequency,
    {
        Self {
            user_id,
            name: new_habit.name,
            color: new_habit.color,
            icon: new_habit.icon,
            amount: new_habit.amount,
            goal: new_habit.goal,
            frequency: new_habit.frequency,
        }
    }
}

/// How far a habit has come toward an achievement, as it is stored.
#[derive(Debug, Clone, Copy, PartialEq, Eq, Structural)]
pub struct HabitsAchievement {
    pub id: u128,
    pub user_id: u128,
    pub achievement_id: u128,
    pub habit_id: u128,
    pub progress: i32,
}

/// The progress of a habit toward an achievement, as it is entered.
#[derive(Debug, Clone, Copy, PartialEq, Eq, Structural)]
pub struct HabitsAchievementData {
    pub achievement_id: u128,
    pub habit_id: u128,
    pub progress: i32,
}

/// The progress of a habit toward an achievement that is about to be
/// stored.
#[derive(Debug, Clone, Copy, PartialEq, Eq, Structural)]
pub struct NewHabitsAchievement {
    pub user_id: u128,
    pub achievement_id: u128,
    pub habit_id: u128,
    pub progress: i32,
}

impl NewHabitsAchievement {
    /// What to store for the progress of a habit of `user_id`.
    pub fn create(new_habit_achievement: HabitsAchievementData, user_id: u128) -> (created: Self)
        ensures
            created == (NewHabitsAchievement {
                user_id,
                achievement_id: new_habit_achievement.achievement_id,
                habit_id: new_habit_achievement.habit_id,
                progress: new_habit_achievement.progress,
            }),
    {
        Self {
            user_id,
            achievement_id: new_habit_achievement.achievement_id,
            habit_id: new_habit_achievement.habit_id,
            progress: new_habit_achievement.progress,
        }
    }
}

} // verus!
