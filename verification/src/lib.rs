//! Streak and progress engine for a habit tracker.
//!
//! Given a habit's configuration and its history of daily records, the
//! library derives statistics (streaks, failures, skips, trailing-week
//! rollups), frequency-aware streak annotations for calendar grids, and the
//! state of a fixed catalog of achievements. Calendar days are plain day
//! numbers counted from 1970-01-01, and "today" is always an explicit input.
//!
//! - [`calendar`]: day numbers, weekdays, ISO weeks and months.
//! - [`targets`]: daily records and the statistics of a habit.
//! - [`history`]: the streak counted back from the last done day, and plain
//!   counts.
//! - [`habits`]: habits with their statistics, and the achievements.
//! - [`achievements`]: stored achievements, grouped for display and brought
//!   up to date.
//! - [`ranking`]: the order in which progress is shown.
//! - [`habit`], [`habit_target`]: habits with a frequency, and their streaks
//!   on the calendar grid.

pub mod achievements;
pub mod calendar;
pub mod habit;
pub mod habit_target;
pub mod habits;
pub mod history;
pub mod ranking;
pub mod targets;
