use habit_engine::achievements::default_achievements;
use habit_engine::achievements::group_achievements;
use habit_engine::achievements::Achievement;
use habit_engine::achievements::AchievementKey;
use habit_engine::achievements::AchievementType;
use habit_engine::achievements::AchievementUpdate;
use habit_engine::habit::HabitsAchievementEnum;
use habit_engine::habits::GoalType;
use habit_engine::habits::Habit;
use habit_engine::habits::HabitDetails;
use habit_engine::habits::HabitsAchievement;
use habit_engine::habits::Periodicity;
use habit_engine::targets::TargetStatistics;

fn stats(max: i64, prev: i64, current: i64, failed: i64, completed: i64) -> TargetStatistics {
    let mut s = TargetStatistics::new();
    s.max_streak_count = max;
    s.prev_streak_count = prev;
    s.current_streak_count = current;
    s.failed_count = failed;
    s.completed_count = completed;
    s
}

fn stored_habit(id: &str, title: &str) -> Habit {
    Habit {
        id: Some(id.to_string()),
        user_id: "user1".to_string(),
        title: title.to_string(),
        periodicity: Periodicity::Daily,
        periodicity_value: None,
        created_date: 1_640_995_200,
        goal: 1,
        goal_type: GoalType::Times,
        allow_skip: true,
        allow_partial_completion: false,
        allow_over_goal_completion: false,
        can_be_finished: false,
        total_goal: 0,
        archived: false,
        deleted: false,
    }
}

fn details(statistics: TargetStatistics) -> HabitDetails {
    let mut d = HabitDetails::parse(&stored_habit("habit1", "read"), vec![], 19_000);
    d.statistics = statistics;
    d
}

fn stored(
    key: HabitsAchievement,
    habit: &str,
    completed: bool,
    date: Option<i64>,
    progress: i64,
) -> Achievement {
    Achievement {
        id: Some(format!("{}-{:?}", habit, key)),
        key: AchievementKey::Habits(key),
        achievement_type: AchievementType::Habits,
        user_id: "user1".to_string(),
        origin_ref: habit.to_string(),
        completed_date: date,
        completed,
        progress,
    }
}

#[test]
fn catalog_has_thirteen_keys_in_order() {
    let all = HabitsAchievement::get_all();
    assert_eq!(all.len(), 13);
    assert_eq!(all[0], HabitsAchievement::StreakStarter);
    assert_eq!(all[6], HabitsAchievement::HabitLegend);
    assert_eq!(all[7], HabitsAchievement::SteadyEddie);
    assert_eq!(all[10], HabitsAchievement::SurpassingLimits);
    assert_eq!(all[12], HabitsAchievement::ComebackKid);
}

#[test]
fn goals_of_the_catalog() {
    assert_eq!(HabitsAchievement::StreakStarter.goal(), Some(3));
    assert_eq!(HabitsAchievement::HabitFormed.goal(), Some(7));
    assert_eq!(HabitsAchievement::ConsistencyChampion.goal(), Some(14));
    assert_eq!(HabitsAchievement::HabitualHero.goal(), Some(30));
    assert_eq!(HabitsAchievement::HabitMaster.goal(), Some(60));
    assert_eq!(HabitsAchievement::HabitProdigy.goal(), Some(90));
    assert_eq!(HabitsAchievement::HabitLegend.goal(), Some(180));
    assert_eq!(HabitsAchievement::SteadyEddie.goal(), Some(21));
    assert_eq!(HabitsAchievement::Relentless.goal(), Some(30));
    assert_eq!(HabitsAchievement::Unstoppable.goal(), Some(60));
    assert_eq!(HabitsAchievement::SurpassingLimits.goal(), None);
    assert_eq!(HabitsAchievement::Perseverance.goal(), Some(14));
    assert_eq!(HabitsAchievement::ComebackKid.goal(), Some(30));
}

#[test]
fn streak_threshold_goes_by_the_longest_streak() {
    let key = HabitsAchievement::HabitFormed;
    assert_eq!(HabitsAchievement::evaluate(&key, &stats(6, 0, 6, 0, 6)), (false, 6));
    assert_eq!(HabitsAchievement::evaluate(&key, &stats(7, 0, 7, 0, 7)), (true, 7));
    assert_eq!(HabitsAchievement::evaluate(&key, &stats(9, 9, 1, 4, 10)), (true, 9));
    let legend = HabitsAchievement::HabitLegend;
    assert_eq!(HabitsAchievement::evaluate(&legend, &stats(179, 0, 179, 0, 179)), (false, 179));
    assert_eq!(HabitsAchievement::evaluate(&legend, &stats(180, 0, 180, 0, 180)), (true, 180));
}

#[test]
fn perfect_streak_needs_no_failed_day() {
    let key = HabitsAchievement::SteadyEddie;
    assert_eq!(HabitsAchievement::evaluate(&key, &stats(21, 0, 21, 0, 19)), (true, 19));
    assert_eq!(HabitsAchievement::evaluate(&key, &stats(21, 3, 21, 1, 22)), (false, 22));
    assert_eq!(HabitsAchievement::evaluate(&key, &stats(20, 0, 20, 0, 20)), (false, 20));
}

#[test]
fn surpassing_limits_needs_a_broken_streak() {
    let key = HabitsAchievement::SurpassingLimits;
    assert_eq!(HabitsAchievement::evaluate(&key, &stats(5, 0, 5, 0, 5)), (false, 5));
    assert_eq!(HabitsAchievement::evaluate(&key, &stats(5, 3, 3, 1, 8)), (true, 3));
    assert_eq!(HabitsAchievement::evaluate(&key, &stats(5, 3, 4, 1, 8)), (true, 4));
    assert_eq!(HabitsAchievement::evaluate(&key, &stats(5, 3, 2, 1, 8)), (false, 2));
}

#[test]
fn comeback_needs_a_failed_day() {
    let key = HabitsAchievement::Perseverance;
    assert_eq!(HabitsAchievement::evaluate(&key, &stats(14, 0, 14, 0, 14)), (false, 14));
    assert_eq!(HabitsAchievement::evaluate(&key, &stats(14, 2, 14, 1, 16)), (true, 14));
    assert_eq!(HabitsAchievement::evaluate(&key, &stats(14, 2, 13, 1, 15)), (false, 13));
    let kid = HabitsAchievement::ComebackKid;
    assert_eq!(HabitsAchievement::evaluate(&kid, &stats(30, 2, 29, 1, 31)), (false, 29));
    assert_eq!(HabitsAchievement::evaluate(&kid, &stats(30, 2, 30, 1, 32)), (true, 30));
}

#[test]
fn check_reads_the_statistics_of_the_habit() {
    let habit = details(stats(8, 2, 3, 1, 10));
    assert_eq!(HabitsAchievement::check(&HabitsAchievement::HabitFormed, habit.clone()), (true, 8));
    assert_eq!(
        HabitsAchievement::check(&HabitsAchievement::SurpassingLimits, habit.clone()),
        (true, 3)
    );
    assert_eq!(HabitsAchievement::check(&HabitsAchievement::SteadyEddie, habit), (false, 10));
}

#[test]
fn names_are_found_again() {
    for key in HabitsAchievement::get_all() {
        let name = key.to_string();
        assert_eq!(name, format!("{:?}", key));
        assert_eq!(HabitsAchievementEnum::from_str(&name), Ok(key));
    }
    assert_eq!(HabitsAchievement::from_str("streakStarter"), Err(()));
    assert_eq!(HabitsAchievement::from_str(""), Err(()));
    assert_eq!(HabitsAchievement::from_str("HabitFormed "), Err(()));
}

#[test]
fn grouped_achievements_follow_the_catalog() {
    let grouped = group_achievements(vec![], vec![]);
    assert_eq!(grouped.len(), 13);
    for (shown, key) in grouped.iter().zip(HabitsAchievement::get_all()) {
        assert_eq!(shown.key, AchievementKey::Habits(key));
        assert_eq!(shown.achievement_type, AchievementType::Habits);
        assert!(!shown.completed);
        assert_eq!(shown.completed_date, None);
        assert!(shown.progress.is_empty());
    }
}

#[test]
fn grouped_progress_is_ranked_with_the_furthest_first() {
    let key = HabitsAchievement::StreakStarter;
    let achievements = vec![
        stored(key, "a", false, None, 1),
        stored(key, "b", true, Some(111), 3),
        stored(HabitsAchievement::HabitFormed, "a", false, None, 9),
        stored(key, "gone", true, Some(999), 50),
        stored(key, "c", false, None, 3),
        stored(key, "d", true, Some(222), 7),
        stored(key, "e", false, None, 1),
    ];
    let habits = vec![
        stored_habit("a", "read"),
        stored_habit("b", "run"),
        stored_habit("c", "swim"),
        stored_habit("d", "write"),
        stored_habit("e", "cook"),
        stored_habit("a", "shadowed"),
    ];
    let grouped = group_achievements(achievements, habits);
    let shown = &grouped[0];
    assert!(shown.completed);
    assert_eq!(shown.completed_date, Some(222));
    let listed: Vec<(String, String, i64)> = shown
        .progress
        .iter()
        .map(|p| (p.habit_id.clone(), p.habit_title.clone(), p.progress))
        .collect();
    assert_eq!(
        listed,
        vec![
            ("d".to_string(), "write".to_string(), 7),
            ("b".to_string(), "run".to_string(), 3),
            ("c".to_string(), "swim".to_string(), 3),
            ("a".to_string(), "read".to_string(), 1),
            ("e".to_string(), "cook".to_string(), 1),
        ]
    );
    assert_eq!(grouped[1].progress.len(), 1);
    assert_eq!(grouped[1].progress[0].progress, 9);
    assert!(!grouped[1].completed);
    assert!(grouped[2].progress.is_empty());
}

#[test]
fn assessment_tells_what_has_just_been_earned() {
    let habit = details(stats(7, 0, 7, 0, 7));
    let key = HabitsAchievement::HabitFormed;
    let assessment = stored(key, "habit1", false, None, 6).assess(&habit, 1_700_000_000);
    assert!(assessment.newly_completed);
    assert_eq!(
        assessment.update,
        Some(AchievementUpdate {
            completed: true,
            completed_date: Some(1_700_000_000),
            progress: 7
        })
    );
    let unchanged = stored(key, "habit1", true, Some(5), 7).assess(&habit, 1_700_000_000);
    assert!(!unchanged.newly_completed);
    assert_eq!(unchanged.update, None);
    let earned_before = stored(key, "habit1", true, Some(5), 6).assess(&habit, 1_700_000_000);
    assert!(!earned_before.newly_completed);
    assert!(earned_before.update.is_some());
    let short = stored(HabitsAchievement::HabitLegend, "habit1", false, None, 2)
        .assess(&habit, 1_700_000_000);
    assert!(!short.newly_completed);
    assert_eq!(
        short.update,
        Some(AchievementUpdate { completed: false, completed_date: None, progress: 7 })
    );
    let same_progress = stored(key, "habit1", false, None, 7).assess(&habit, 1_700_000_000);
    assert!(same_progress.newly_completed);
    assert_eq!(same_progress.update, None);
}

#[test]
fn a_new_habit_gets_the_whole_catalog() {
    let created =
        default_achievements(&"user1".to_string(), AchievementType::Habits, &"habit1".to_string());
    assert_eq!(created.len(), 13);
    for (achievement, key) in created.iter().zip(HabitsAchievement::get_all()) {
        assert_eq!(achievement.id, None);
        assert_eq!(achievement.key, AchievementKey::Habits(key));
        assert_eq!(achievement.achievement_type, AchievementType::Habits);
        assert_eq!(achievement.user_id, "user1");
        assert_eq!(achievement.origin_ref, "habit1");
        assert_eq!(achievement.completed_date, None);
        assert!(!achievement.completed);
        assert_eq!(achievement.progress, 0);
    }
}
