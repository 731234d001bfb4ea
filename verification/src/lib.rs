//! Renders a five-field cron schedule as an English sentence.
//!
//! Each of the five cron fields (minute, hour, day-of-month, month, weekday)
//! is classified into one of the supported pattern shapes (wildcard, literal,
//! comma list, hyphen range, slash step), validated against the field's
//! numeric bounds, and rendered as a phrase fragment; the five fragments
//! concatenated in order form the sentence.

pub mod days;
pub mod field;
pub mod hours;
pub mod laws;
pub mod minutes;
pub mod months;
pub mod numeral;
pub mod pattern;
pub mod scan;
pub mod schedule;
pub mod weekdays;

pub use days::describe_days;
pub use field::DescribeError;
pub use field::ErrorKind;
pub use field::FieldKind;
pub use hours::describe_hours;
pub use minutes::describe_minutes;
pub use months::describe_months;
pub use schedule::describe_schedule;
pub use weekdays::describe_weekdays;
