use cronplan::describe_days;
use cronplan::DescribeError;
use cronplan::ErrorKind;
use cronplan::FieldKind;
use cronplan::describe_hours;
use cronplan::describe_minutes;
use cronplan::describe_months;
use cronplan::describe_weekdays;

#[test]
fn minutes_literal() {
    let result = "1";
    assert_eq!(describe_minutes(Option::from(result)).unwrap(), "At minute 1");
}

#[test]
fn minutes_list() {
    let result = "12,30,48";
    assert_eq!(describe_minutes(Option::from(result)).unwrap(), "At minute 12, 30, 48");
}

#[test]
fn minutes_range() {
    let result = "5-10";
    assert_eq!(describe_minutes(Option::from(result)).unwrap(), "At every hour from 5 through 10");
}

#[test]
fn minutes_steps() {
    let result = "6/24";
    assert_eq!(
        describe_minutes(Option::from(result)).unwrap(),
        "At every 24th minute from 6 through 59"
    );
}

#[test]
fn hours_literal() {
    let result = "2";
    assert_eq!(describe_hours(Option::from(result)).unwrap(), " at hour 2");
}

#[test]
fn hours_list() {
    let result = "12,16,0";
    assert_eq!(describe_hours(Option::from(result)).unwrap(), " at hours 12, 16, 0");
}

#[test]
fn hours_range() {
    let result = "5-10";
    assert_eq!(describe_hours(Option::from(result)).unwrap(), "At every hour from 5 through 10");
}

#[test]
fn hours_steps() {
    let result = "12/5";
    assert_eq!(
        describe_hours(Option::from(result)),
        Err(DescribeError { kind: ErrorKind::InvalidRange, field: FieldKind::Hour })
    );
}

#[test]
fn hours_steps_ascending() {
    let result = "5/12";
    assert_eq!(
        describe_hours(Option::from(result)).unwrap(),
        "At every 12nd hour from 5 through 23"
    );
}

#[test]
fn days_literal() {
    let result = "2";
    assert_eq!(describe_days(Option::from(result)).unwrap(), " on day-of-month 2");
}

#[test]
fn days_list() {
    let result = "4,8,12";
    assert_eq!(describe_days(Option::from(result)).unwrap(), " on day-of-month 4, 8, 12");
}

#[test]
fn days_range() {
    let result = "5-10";
    assert_eq!(
        describe_days(Option::from(result)).unwrap(),
        " on every day-of-month from 5 through 10"
    );
}

#[test]
fn days_steps() {
    let result = "1/5";
    assert_eq!(
        describe_days(Option::from(result)).unwrap(),
        " on every 5th day-of-month from 1 through 31"
    );
}

#[test]
fn months_literal() {
    let result = "2";
    assert_eq!(describe_months(Option::from(result)).unwrap(), " in 2");
}

#[test]
fn months_list() {
    let result = "4,8,12";
    assert_eq!(describe_months(Option::from(result)).unwrap(), " in 4, 8, 12");
}

#[test]
fn months_range() {
    let result = "5-10";
    assert_eq!(describe_months(Option::from(result)).unwrap(), " in every month from 5 through 10");
}

#[test]
fn months_steps() {
    let result = "1/5";
    assert_eq!(
        describe_months(Option::from(result)).unwrap(),
        " in every 5th month from 1 through December"
    );
}

#[test]
fn weekdays_literal() {
    let result = "6";
    assert_eq!(describe_weekdays(Option::from(result)).unwrap(), " on 6");
}

#[test]
fn weekdays_list() {
    let result = "1,3,5";
    assert_eq!(describe_weekdays(Option::from(result)).unwrap(), " on 1, 3, 5");
}

#[test]
fn weekdays_range() {
    let result = "2-4";
    assert_eq!(
        describe_weekdays(Option::from(result)).unwrap(),
        " on every day-of-week from 2 through 4"
    );
}

#[test]
fn weekdays_steps() {
    let result = "5/6";
    assert_eq!(
        describe_weekdays(Option::from(result)).unwrap(),
        "on every 6th day-of-week from 5 through Sunday"
    );
}
