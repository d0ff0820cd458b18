//! Achievements as they are stored for each habit, and how they are shown
//! and brought up to date.

use vstd::prelude::*;
use crate::habits::catalog;
use crate::habits::earned;
use crate::habits::progress_of;
use crate::habits::Habit;
use crate::habits::HabitDetails;
use crate::habits::HabitsAchievement;
use crate::ranking::rank;
use crate::ranking::ranked_from;

verus! {

/// What an achievement is earned for.
#[derive(Debug, Clone, Copy, PartialEq, Eq, Structural)]
pub enum AchievementKey {
    Habits(HabitsAchievement),
}

/// The kind of thing that earns achievements.
#[derive(Debug, Clone, Copy, PartialEq, Eq, Structural)]
pub enum AchievementType {
    Habits,
}

/// How far one habit has come toward an achievement.
#[derive(Debug, Clone)]
pub struct Progress {
    pub habit_id: String,
    pub habit_title: String,
    pub progress: i64,
}

/// An achievement of one habit, as it is stored.
#[derive(Debug, Clone)]
pub struct Achievement {
    pub id: Option<String>,
    pub key: AchievementKey,
    pub achievement_type: AchievementType,
    pub user_id: String,
    /// The id of the habit that the achievement belongs to.
    pub origin_ref: String,
    /// When the achievement was earned, in seconds from
    /// 1970-01-01T00:00:00Z.
    pub completed_date: Option<i64>,
    pub completed: bool,
    pub progress: i64,
}

/// An achievement as it is shown: over all habits of a user.
#[derive(Debug, Clone)]
pub struct AchievementResult {
    pub key: AchievementKey,
    pub achievement_type: AchievementType,
    pub completed: bool,
    pub completed_date: Option<i64>,
    pub progress: Vec<Progress>,
}

/// The position of the first habit from `from` on whose id is `id`, and -1
/// where there is none.
pub open spec fn position_of(habits: Seq<Habit>, id: Seq<char>, from: int) -> int
    decreases habits.len() - from,
{
    if from < 0 || from >= habits.len() {
        -1
    } else if has_id(habits[from], id) {
        from
    } else {
        position_of(habits, id, from + 1)
    }
}

/// Whether the habit has the id `id`.
pub open spec fn has_id(habit: Habit, id: Seq<char>) -> bool {
    habit.id matches Some(own) && own@ == id
}

/// Whether the stored achievement is one for `key` whose habit is among
/// `habits`.
pub open spec fn counts_for(
    achievement: Achievement,
    habits: Seq<Habit>,
    key: AchievementKey,
) -> bool {
    achievement.key == key && position_of(habits, achievement.origin_ref@, 0) >= 0
}

/// What is shown of a stored achievement that counts: its progress, under
/// the id and the title of its habit.
pub open spec fn shown_progress(achievement: Achievement, habits: Seq<Habit>) -> Progress {
    let habit = habits[position_of(habits, achievement.origin_ref@, 0)];
    Progress {
        habit_id: habit.id.unwrap(),
        habit_title: habit.title,
        progress: achievement.progress,
    }
}

/// The progress of the stored achievements that count for `key`, in the
/// order in which they are stored.
pub open spec fn progress_for(
    achievements: Seq<Achievement>,
    habits: Seq<Habit>,
    key: AchievementKey,
) -> Seq<Progress>
    decreases achievements.len(),
{
    if achievements.len() == 0 {
        Seq::empty()
    } else {
        let before = progress_for(achievements.drop_last(), habits, key);
        if counts_for(achievements.last(), habits, key) {
            before.push(shown_progress(achievements.last(), habits))
        } else {
            before
        }
    }
}

/// Whether one of the stored achievements that count for `key` is
/// completed, and the date of the last that is.
pub open spec fn completion_for(
    achievements: Seq<Achievement>,
    habits: Seq<Habit>,
    key: AchievementKey,
) -> (bool, Option<i64>)
    decreases achievements.len(),
{
    if achievements.len() == 0 {
        (false, None)
    } else {
        let last = achievements.last();
        if counts_for(last, habits, key) && last.completed {
            (true, last.completed_date)
        } else {
            completion_for(achievements.drop_last(), habits, key)
        }
    }
}

/// The first habit whose id is `id`, if there is one.
fn find_habit<'a>(habits: &'a Vec<Habit>, id: &String) -> (found: Option<&'a Habit>)
    ensures
        found is Some <==> position_of(habits@, id@, 0) >= 0,
        found matches Some(habit) ==> *habit == habits@[position_of(habits@, id@, 0)] && has_id(
            *habit,
            id@,
        ),
{
    let mut i: usize = 0;
    while i < habits.len()
        invariant
            i <= habits.len(),
            position_of(habits@, id@, 0) == position_of(habits@, id@, i as int),
        decreases habits.len() - i,
    {
        let habit = &habits[i];
        let matches = match &habit.id {
            Some(own) => *own == *id,
            None => false,
        };
        if matches {
            return Some(habit);
        }
        i += 1;
    }
    None
}

/// The achievements of the catalog as they are shown, in its order: each
/// with the progress of the habits among `habits` that hold it, the
/// furthest first, and completed where one of them has completed it.
pub fn group_achievements(achievements: Vec<Achievement>, habits: Vec<Habit>) -> (grouped: Vec<
    AchievementResult,
>)
    ensures
        grouped@.len() == catalog().len(),
        forall|k: int|
            0 <= k < catalog().len() ==> {
                let key = AchievementKey::Habits(catalog()[k]);
                let shown = #[trigger] grouped@[k];
                &&& shown.key == key
                &&& shown.achievement_type == AchievementType::Habits
                &&& shown.completed == completion_for(achievements@, habits@, key).0
                &&& shown.completed_date == completion_for(achievements@, habits@, key).1
                &&& ranked_from(shown.progress@, progress_for(achievements@, habits@, key))
            },
{
    let mut grouped_achievements: Vec<AchievementResult> = Vec::new();
    let keys = HabitsAchievement::get_all();
    let mut k: usize = 0;
    while k < keys.len()
        invariant
            keys@ == catalog(),
            k <= keys.len(),
            grouped_achievements@.len() == k,
            forall|j: int|
                0 <= j < k ==> {
                    let key = AchievementKey::Habits(catalog()[j]);
                    let shown = #[trigger] grouped_achievements@[j];
                    &&& shown.key == key
                    &&& shown.achievement_type == AchievementType::Habits
                    &&& shown.completed == completion_for(achievements@, habits@, key).0
                    &&& shown.completed_date == completion_for(achievements@, habits@, key).1
                    &&& ranked_from(shown.progress@, progress_for(achievements@, habits@, key))
                },
        decreases keys.len() - k,
    {
        let achievement_key = keys[k];
        let key = AchievementKey::Habits(achievement_key);
        let mut progress: Vec<Progress> = Vec::new();
        let mut completed = false;
        let mut completed_date: Option<i64> = None;
        let mut i: usize = 0;
        assert(achievements@.take(0) =~= Seq::<Achievement>::empty());
        while i < achievements.len()
            invariant
                i <= achievements.len(),
                progress@ == progress_for(achievements@.take(i as int), habits@, key),
                (completed, completed_date) == completion_for(
                    achievements@.take(i as int),
                    habits@,
                    key,
                ),
            decreases achievements.len() - i,
        {
            let achievement = &achievements[i];
            proof {
                let upto = achievements@.take(i as int + 1);
                assert(upto.drop_last() =~= achievements@.take(i as int));
                assert(upto.last() == *achievement);
            }
            if achievement.key == key {
                if let Some(habit) = find_habit(&habits, &achievement.origin_ref) {
                    if achievement.completed {
                        completed = true;
                        completed_date = achievement.completed_date;
                    }
                    let habit_id = match &habit.id {
                        Some(own) => own.clone(),
                        None => String::new(),
                    };
                    let entry = Progress {
                        habit_id,
                        habit_title: habit.title.clone(),
                        progress: achievement.progress,
                    };
                    progress.push(entry);
                }
            }
            i += 1;
        }
        assert(achievements@.take(achievements.len() as int) =~= achievements@);
        rank(&mut progress);
        grouped_achievements.push(
            AchievementResult {
                key,
                achievement_type: AchievementType::Habits,
                completed_date,
                completed,
                progress,
            },
        );
        k += 1;
    }
    grouped_achievements
}

/// The achievements to store for a new habit `origin_ref` of `user_id`: one
/// for each key of the catalog, in its order, none of them completed and
/// all without progress.
pub fn default_achievements(
    user_id: &String,
    achievement_type: AchievementType,
    origin_ref: &String,
) -> (created: Vec<Achievement>)
    ensures
        created@.len() == catalog().len(),
        forall|k: int|
            0 <= k < catalog().len() ==> {
                let achievement = #[trigger] created@[k];
                &&& achievement.id is None
                &&& achievement.key == AchievementKey::Habits(catalog()[k])
                &&& achievement.achievement_type == achievement_type
                &&& achievement.user_id == *user_id
                &&& achievement.origin_ref == *origin_ref
                &&& achievement.completed_date is None
                &&& !achievement.completed
                &&& achievement.progress == 0
            },
{
    let keys = HabitsAchievement::get_all();
    let mut docs: Vec<Achievement> = Vec::new();
    let mut k: usize = 0;
    while k < keys.len()
        invariant
            keys@ == catalog(),
            k <= keys.len(),
            docs@.len() == k,
            forall|j: int|
                0 <= j < k ==> {
                    let achievement = #[trigger] docs@[j];
                    &&& achievement.id is None
                    &&& achievement.key == AchievementKey::Habits(catalog()[j])
                    &&& achievement.achievement_type == achievement_type
                    &&& achievement.user_id == *user_id
                    &&& achievement.origin_ref == *origin_ref
                    &&& achievement.completed_date is None
                    &&& !achievement.completed
                    &&& achievement.progress == 0
                },
        decreases keys.len() - k,
    {
        docs.push(
            Achievement {
                id: None,
                key: AchievementKey::Habits(keys[k]),
                achievement_type,
                user_id: user_id.clone(),
                origin_ref: origin_ref.clone(),
                completed_date: None,
                completed: false,
                progress: 0,
            },
        );
        k += 1;
    }
    docs
}

/// What is to be stored of an achievement after its habit has changed.
#[derive(Debug, Clone, Copy, PartialEq, Eq, Structural)]
pub struct AchievementUpdate {
    pub completed: bool,
    pub completed_date: Option<i64>,
    pub progress: i64,
}

/// What follows for a stored achievement from the statistics of its habit.
#[derive(Debug, Clone, Copy, PartialEq, Eq, Structural)]
pub struct Assessment {
    /// Whether the achievement has just been earned: the habit earns it
    /// and it was not stored as completed.
    pub newly_completed: bool,
    /// What to store, where the progress has changed.
    pub update: Option<AchievementUpdate>,
}

impl Achievement {
    /// Holds the stored achievement against the statistics of its habit, at
    /// the time `now`.
    pub fn assess(&self, habit: &HabitDetails, now: i64) -> (assessment: Assessment)
        ensures
            ({
                let AchievementKey::Habits(key) = self.key;
                let completed = earned(key, habit.statistics@);
                let progress = progress_of(key, habit.statistics@);
                &&& assessment.newly_completed == (completed && !self.completed)
                &&& assessment.update is Some <==> progress != self.progress
                &&& assessment.update matches Some(update) ==> {
                    &&& update.completed == completed
                    &&& update.progress == progress
                    &&& update.completed_date == if completed {
                        Some(now)
                    } else {
                        None
                    }
                }
            }),
    {
        let AchievementKey::Habits(key) = self.key;
        let (completed, progress) = HabitsAchievement::evaluate(&key, &habit.statistics);
        let newly_completed = completed && !self.completed;
        let update = if progress != self.progress {
            let completed_date = if completed {
                Some(now)
            } else {
                None
            };
            Some(AchievementUpdate { completed, completed_date, progress })
        } else {
            None
        };
        Assessment { newly_completed, update }
    }
}

} // verus!
