use chrono::NaiveDate;
use habit_engine::habit::Frequency;
use habit_engine::habit::GridHabitDetails;
use habit_engine::habit::same_text;
use habit_engine::habit_target::Target as Hit;
use habit_engine::habits::DayOfTheWeek;
use habit_engine::habits::DaysSequence;
use habit_engine::habits::GoalType;
use habit_engine::habits::Habit;
use habit_engine::habits::HabitDetails;
use habit_engine::habits::Periodicity;
use habit_engine::history::last_done_position;
use habit_engine::targets::Target;
use habit_engine::targets::TargetData;
use habit_engine::targets::TargetDetails;
use habit_engine::targets::TargetType;

fn day(year: i32, month: u32, day_of_month: u32) -> i32 {
    NaiveDate::from_ymd_opt(year, month, day_of_month).unwrap().to_epoch_days()
}

fn record(id: &str, date: i32, target_type: TargetType, value: i32) -> TargetDetails {
    TargetDetails {
        id: id.to_string(),
        habit_id: "habit1".to_string(),
        date,
        create_date: 1_640_995_200,
        target_type,
        value,
    }
}

fn stored_habit(allow_skip: bool, allow_partial_completion: bool, goal: i32) -> Habit {
    Habit {
        id: Some("habit1".to_string()),
        user_id: "user1".to_string(),
        title: "read".to_string(),
        periodicity: Periodicity::Custom,
        periodicity_value: Some(DaysSequence(vec![DayOfTheWeek::Monday, DayOfTheWeek::Friday])),
        created_date: 1_640_995_200,
        goal,
        goal_type: GoalType::Mins,
        allow_skip,
        allow_partial_completion,
        allow_over_goal_completion: true,
        can_be_finished: true,
        total_goal: 500,
        archived: false,
        deleted: false,
    }
}

fn ids(records: &[TargetDetails]) -> Vec<String> {
    records.iter().map(|r| r.id.clone()).collect()
}

#[test]
fn parse_puts_the_records_in_the_order_of_their_days() {
    let targets = vec![
        record("c", day(2022, 1, 3), TargetType::Done, 10),
        record("a", day(2022, 1, 1), TargetType::Done, 20),
        record("b2", day(2022, 1, 2), TargetType::Skip, 0),
        record("b3", day(2022, 1, 2), TargetType::Done, 30),
        record("b1", day(2022, 1, 2), TargetType::Empty, 0),
    ];
    let details = HabitDetails::parse(&stored_habit(true, false, 0), targets, day(2022, 1, 3));
    assert_eq!(ids(&details.targets), vec!["a", "b2", "b3", "b1", "c"]);
    assert_eq!(details.start_date, Some(day(2022, 1, 1)));
}

#[test]
fn parse_leaves_out_skipped_days_where_skipping_is_not_allowed() {
    let targets = vec![
        record("d", day(2022, 1, 4), TargetType::Done, 10),
        record("c", day(2022, 1, 3), TargetType::Skip, 0),
        record("b", day(2022, 1, 2), TargetType::Done, 20),
        record("a", day(2022, 1, 1), TargetType::Skip, 0),
    ];
    let details = HabitDetails::parse(&stored_habit(false, false, 0), targets, day(2022, 1, 4));
    assert_eq!(ids(&details.targets), vec!["b", "d"]);
    assert_eq!(details.start_date, Some(day(2022, 1, 2)));
    assert_eq!(details.statistics.total_count, 2);
    assert_eq!(details.statistics.skipped_count, 0);
    assert_eq!(details.statistics.failed_count, 1);
    assert_eq!(details.statistics.current_streak_count, 1);
    assert_eq!(details.statistics.prev_streak_count, 1);
    assert!(details.statistics.completed_today);
}

#[test]
fn parse_computes_the_statistics_of_the_ordered_records() {
    let targets = vec![
        record("c", day(2022, 1, 3), TargetType::Done, 50),
        record("b", day(2022, 1, 2), TargetType::Skip, 0),
        record("a", day(2022, 1, 1), TargetType::Done, 100),
    ];
    let details = HabitDetails::parse(&stored_habit(true, true, 100), targets, day(2022, 1, 9));
    assert_eq!(details.statistics.current_streak_count, 3);
    assert_eq!(details.statistics.max_streak_count, 3);
    assert_eq!(details.statistics.total_count, 3);
    assert_eq!(details.statistics.skipped_count, 1);
    assert_eq!(details.statistics.completed_count, 1);
    assert_eq!(details.statistics.completed_values, 100);
    assert_eq!(details.statistics.total_values_count, 150);
    assert_eq!(details.statistics.total_count_this_week, 1);
    assert_eq!(details.statistics.current_streak_start_date, Some(day(2022, 1, 1)));
    assert!(!details.statistics.completed_today);
}

#[test]
fn parse_carries_the_habit_over() {
    let habit = stored_habit(true, true, 30);
    let details = HabitDetails::parse(&habit, vec![], day(2022, 1, 9));
    assert_eq!(details.id, "habit1");
    assert_eq!(details.user_id, "habit1");
    assert_eq!(details.title, "read");
    assert_eq!(details.periodicity, Periodicity::Custom);
    assert_eq!(
        details.periodicity_value.unwrap().0,
        vec![DayOfTheWeek::Monday, DayOfTheWeek::Friday]
    );
    assert_eq!(details.created_date, 1_640_995_200);
    assert_eq!(details.start_date, None);
    assert_eq!(details.goal, 30);
    assert_eq!(details.goal_type, GoalType::Mins);
    assert!(details.allow_skip);
    assert!(details.allow_partial_completion);
    assert!(details.allow_over_goal_completion);
    assert!(details.can_be_finished);
    assert_eq!(details.total_goal, 500);
    assert!(!details.archived);
    assert!(details.targets.is_empty());
    assert_eq!(details.statistics.total_count, 0);
}

#[test]
fn start_date_is_the_day_of_the_first_record() {
    assert_eq!(HabitDetails::get_start_date(&vec![]), None);
    let targets =
        vec![record("a", 5, TargetType::Done, 1), record("b", 3, TargetType::Done, 1)];
    assert_eq!(HabitDetails::get_start_date(&targets), Some(5));
}

#[test]
fn stored_record_and_its_details() {
    let data = TargetData {
        id: Some("t1".to_string()),
        date: day(2022, 1, 5),
        target_type: TargetType::Skip,
        habit_id: "habit1".to_string(),
        value: 12,
    };
    let target = Target::new(&data, 1_641_400_000);
    assert_eq!(target.id, Some("t1".to_string()));
    assert_eq!(target.habit_id, "habit1");
    assert_eq!(target.date, day(2022, 1, 5));
    assert_eq!(target.create_date, 1_641_400_000);
    assert_eq!(target.target_type, TargetType::Skip);
    assert_eq!(target.value, 12);
    assert!(!target.deleted);
    let details = TargetDetails::parse(&target);
    assert_eq!(details.id, "t1");
    assert_eq!(details.habit_id, "habit1");
    assert_eq!(details.date, day(2022, 1, 5));
    assert_eq!(details.create_date, 1_641_400_000);
    assert_eq!(details.target_type, TargetType::Skip);
    assert_eq!(details.value, 12);
    let copy = details.duplicate();
    assert_eq!(copy.id, "t1");
    assert_eq!(copy.value, 12);
}

#[test]
fn streak_back_from_the_last_done_day() {
    let targets = vec![
        record("1", day(2022, 1, 1), TargetType::Done, 1),
        record("2", day(2022, 1, 2), TargetType::Done, 1),
        record("3", day(2022, 1, 3), TargetType::Done, 1),
    ];
    let (streak, failed) = Target::get_streak_and_failures(targets, false);
    assert_eq!(ids(&streak), vec!["3", "2", "1"]);
    assert_eq!(failed, 0);
}

#[test]
fn streak_back_counts_the_days_between() {
    let targets = vec![
        record("1", day(2022, 1, 1), TargetType::Done, 1),
        record("2", day(2022, 1, 2), TargetType::Done, 1),
        record("5", day(2022, 1, 5), TargetType::Done, 1),
    ];
    let (streak, failed) = Target::get_streak_and_failures(targets, false);
    assert_eq!(ids(&streak), vec!["5", "1"]);
    assert_eq!(failed, 2);
}

#[test]
fn streak_back_with_skips_and_records_after_the_last_done_day() {
    let targets = vec![
        record("1", day(2022, 1, 1), TargetType::Done, 1),
        record("2", day(2022, 1, 2), TargetType::Done, 1),
        record("4", day(2022, 1, 4), TargetType::Skip, 0),
        record("5", day(2022, 1, 5), TargetType::Done, 1),
        record("6", day(2022, 1, 6), TargetType::Done, 1),
        record("7", day(2022, 1, 7), TargetType::Skip, 0),
    ];
    let (streak, failed) = Target::get_streak_and_failures(targets.clone(), true);
    assert_eq!(ids(&streak), vec!["6", "4", "1"]);
    assert_eq!(failed, 0);
    let (streak, failed) = Target::get_streak_and_failures(targets, false);
    assert_eq!(ids(&streak), vec!["6", "1"]);
    assert_eq!(failed, 0);
}

#[test]
fn last_done_position_finds_the_last_done_day() {
    assert_eq!(last_done_position(&vec![]), None);
    let targets = vec![
        record("1", 1, TargetType::Done, 1),
        record("2", 2, TargetType::Done, 1),
        record("3", 3, TargetType::Skip, 1),
    ];
    assert_eq!(last_done_position(&targets), Some(1));
    assert_eq!(last_done_position(&vec![record("1", 1, TargetType::Empty, 0)]), None);
}

#[test]
fn plain_counts_of_records() {
    let targets = vec![
        record("1", 1, TargetType::Done, 1),
        record("2", 2, TargetType::Skip, 1),
        record("3", 3, TargetType::Empty, 1),
        record("4", 4, TargetType::Done, 1),
        record("5", 5, TargetType::Skip, 1),
        record("6", 6, TargetType::Done, 1),
    ];
    assert_eq!(Target::get_completed(&targets), 3);
    assert_eq!(Target::get_total(&targets), 5);
    assert_eq!(Target::get_skipped(&targets), 2);
    assert_eq!(Target::get_completed(&vec![]), 0);
    assert_eq!(Target::get_total(&vec![]), 0);
    assert_eq!(Target::get_skipped(&vec![]), 0);
}

#[test]
fn frequency_is_read_from_kind_and_amounts() {
    assert!(matches!(
        Frequency::decode("daily", &vec![0, 2, 4]),
        Some(Frequency::Daily(days)) if days == vec![0, 2, 4]
    ));
    assert!(matches!(
        Frequency::decode("daily", &vec![]),
        Some(Frequency::Daily(days)) if days.is_empty()
    ));
    assert!(matches!(Frequency::decode("weekly", &vec![3]), Some(Frequency::Weekly(3))));
    assert!(matches!(Frequency::decode("monthly", &vec![10, 7]), Some(Frequency::Monthly(10))));
    assert!(matches!(Frequency::decode("interval", &vec![-2]), Some(Frequency::Interval(-2))));
    assert!(Frequency::decode("weekly", &vec![]).is_none());
    assert!(Frequency::decode("yearly", &vec![1]).is_none());
    assert!(Frequency::decode("Daily", &vec![1]).is_none());
    assert!(Frequency::decode("weekly", &vec![i64::from(i32::MAX) + 1]).is_none());
    assert!(Frequency::decode("daily", &vec![1, i64::from(i32::MIN) - 1]).is_none());
    assert!(matches!(
        Frequency::decode("interval", &vec![i64::from(i32::MAX)]),
        Some(Frequency::Interval(i32::MAX))
    ));
}

#[test]
fn same_text_compares_texts() {
    assert!(same_text("daily", "daily"));
    assert!(!same_text("daily", "dail"));
    assert!(same_text("", ""));
}

#[test]
fn grid_habit_carries_habit_and_grid() {
    let habit = habit_engine::habit::Habit {
        id: 1,
        user_id: 2,
        name: "read".to_string(),
        created_date: 1_640_995_200,
        goal: 3,
        archived: false,
        deleted: false,
        color: "#ffffff".to_string(),
        icon: "book".to_string(),
        amount: 4,
        frequency: Frequency::Interval(2),
    };
    let hit = |id: u128, date: i32| Hit {
        id,
        habit_id: 1,
        user_id: 2,
        date,
        created_date: 0,
        amount: 5,
        deleted: false,
    };
    let targets = vec![hit(7, 10), hit(8, 12), hit(9, 15)];
    let details = GridHabitDetails::parse(&habit, targets.clone());
    assert_eq!((details.id, details.user_id), (1, 2));
    assert_eq!(details.name, "read");
    assert_eq!(details.color, "#ffffff");
    assert_eq!(details.icon, "book");
    assert_eq!((details.amount, details.goal), (4, 3));
    assert!(matches!(details.frequency, Frequency::Interval(2)));
    assert_eq!(details.created_date, 1_640_995_200);
    assert_eq!(details.total_count, 3);
    assert_eq!(details.current_streak, 1);
    assert_eq!(details.longest_streak, 2);
    let running: Vec<i32> = details.targets.iter().map(|g| g.current_streak).collect();
    assert_eq!(running, vec![1, 2, 1]);
    let plain = habit_engine::habit::HabitDetails::parse(&habit, targets.clone());
    assert_eq!(plain.targets, targets);
    assert_eq!(plain.name, "read");
    assert_eq!(habit_engine::habit::HabitDetails::get_start_date(&targets), Some(10));
    assert_eq!(habit_engine::habit::HabitDetails::get_start_date(&vec![]), None);
}
