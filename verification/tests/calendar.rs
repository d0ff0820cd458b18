use chrono::Datelike;
use chrono::NaiveDate;
use habit_engine::calendar::days_between;
use habit_engine::calendar::iso_week;
use habit_engine::calendar::month;
use habit_engine::calendar::weekday_from_sunday;
use habit_engine::calendar::EPOCH_DAY;
use habit_engine::calendar::MAX_DAY;
use habit_engine::calendar::MIN_DAY;

#[test]
fn epoch_day_is_the_first_of_january_1970() {
    assert_eq!(NaiveDate::from_ymd_opt(1970, 1, 1).unwrap().to_epoch_days(), EPOCH_DAY);
}

#[test]
fn calendar_range_is_that_of_the_dates() {
    assert_eq!(NaiveDate::MIN.to_epoch_days(), MIN_DAY);
    assert_eq!(NaiveDate::MAX.to_epoch_days(), MAX_DAY);
}

#[test]
fn iso_week_of_known_days() {
    assert_eq!(iso_week(NaiveDate::from_ymd_opt(2022, 1, 3).unwrap().to_epoch_days()), Some(1));
    assert_eq!(iso_week(NaiveDate::from_ymd_opt(2022, 1, 10).unwrap().to_epoch_days()), Some(2));
    assert_eq!(iso_week(NaiveDate::from_ymd_opt(2021, 1, 3).unwrap().to_epoch_days()), Some(53));
    assert_eq!(iso_week(NaiveDate::from_ymd_opt(2022, 1, 1).unwrap().to_epoch_days()), Some(52));
    assert_eq!(iso_week(0), Some(1));
}

#[test]
fn month_of_known_days() {
    assert_eq!(month(0), Some(1));
    assert_eq!(month(NaiveDate::from_ymd_opt(2022, 3, 15).unwrap().to_epoch_days()), Some(3));
    assert_eq!(month(NaiveDate::from_ymd_opt(2024, 2, 29).unwrap().to_epoch_days()), Some(2));
    assert_eq!(month(NaiveDate::from_ymd_opt(1969, 12, 31).unwrap().to_epoch_days()), Some(12));
    assert_eq!(month(-1), Some(12));
}

#[test]
fn weeks_and_months_exist_exactly_within_the_calendar() {
    assert!(iso_week(MIN_DAY).is_some());
    assert!(iso_week(MAX_DAY).is_some());
    assert!(month(MIN_DAY).is_some());
    assert!(month(MAX_DAY).is_some());
    assert_eq!(iso_week(MIN_DAY - 1), None);
    assert_eq!(iso_week(MAX_DAY + 1), None);
    assert_eq!(month(MIN_DAY - 1), None);
    assert_eq!(month(MAX_DAY + 1), None);
    assert_eq!(iso_week(i32::MAX), None);
    assert_eq!(month(i32::MIN), None);
}

#[test]
fn weeks_and_months_stay_in_their_ranges() {
    let mut d = -800_000;
    while d < 800_000 {
        let w = iso_week(d).unwrap();
        let m = month(d).unwrap();
        assert!(1 <= w && w <= 53);
        assert!(1 <= m && m <= 12);
        d += 97;
    }
}

#[test]
fn weekday_agrees_with_the_calendar() {
    let mut d = -100_000;
    while d <= 100_000 {
        let date = NaiveDate::from_epoch_days(d).unwrap();
        assert_eq!(weekday_from_sunday(d), date.weekday().num_days_from_sunday() as i32);
        d += 1;
    }
    for d in [MIN_DAY, MIN_DAY + 1, MAX_DAY - 1, MAX_DAY] {
        let date = NaiveDate::from_epoch_days(d).unwrap();
        assert_eq!(weekday_from_sunday(d), date.weekday().num_days_from_sunday() as i32);
    }
}

#[test]
fn weekday_of_known_days() {
    assert_eq!(weekday_from_sunday(0), 4);
    assert_eq!(weekday_from_sunday(-1), 3);
    assert_eq!(weekday_from_sunday(-4), 0);
    assert_eq!(weekday_from_sunday(-5), 6);
    assert_eq!(weekday_from_sunday(3), 0);
    assert_eq!(weekday_from_sunday(i32::MAX), (((i32::MAX as i64) + 4) % 7) as i32);
    assert_eq!(weekday_from_sunday(i32::MIN), ((((i32::MIN as i64) + 4) % 7 + 7) % 7) as i32);
}

#[test]
fn days_between_is_the_difference() {
    assert_eq!(days_between(3, 10), 7);
    assert_eq!(days_between(10, 3), -7);
    assert_eq!(days_between(i32::MIN, i32::MAX), 4_294_967_295);
    assert_eq!(days_between(i32::MAX, i32::MIN), -4_294_967_295);
}
