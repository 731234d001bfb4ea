use cronplan::describe_days;
use cronplan::describe_hours;
use cronplan::describe_minutes;
use cronplan::describe_months;
use cronplan::describe_weekdays;
use cronplan::DescribeError;
use cronplan::ErrorKind;
use cronplan::FieldKind;

fn err(kind: ErrorKind, field: FieldKind) -> DescribeError {
    DescribeError { kind, field }
}

#[test]
fn minutes_invalid_negative_minute() {
    let result = "-1";
    assert_eq!(
        describe_minutes(Option::from(result)),
        Err(err(ErrorKind::OutOfRange, FieldKind::Minute))
    );
}

#[test]
fn minutes_invalid_positive_minute() {
    let result = "60";
    assert_eq!(
        describe_minutes(Option::from(result)),
        Err(err(ErrorKind::OutOfRange, FieldKind::Minute))
    );
}

#[test]
fn hours_invalid_negative_minute() {
    let result = "-1";
    assert_eq!(
        describe_hours(Option::from(result)),
        Err(err(ErrorKind::OutOfRange, FieldKind::Hour))
    );
}

#[test]
fn hours_invalid_positive_minute() {
    let result = "60";
    assert_eq!(
        describe_hours(Option::from(result)),
        Err(err(ErrorKind::OutOfRange, FieldKind::Hour))
    );
}

#[test]
fn days_invalid_negative_minute() {
    let result = "0";
    assert_eq!(
        describe_days(Option::from(result)),
        Err(err(ErrorKind::OutOfRange, FieldKind::Day))
    );
}

#[test]
fn days_invalid_positive_minute() {
    let result = "32";
    assert_eq!(
        describe_days(Option::from(result)),
        Err(err(ErrorKind::OutOfRange, FieldKind::Day))
    );
}

#[test]
fn months_invalid_negative_minute() {
    let result = "0";
    assert_eq!(
        describe_months(Option::from(result)),
        Err(err(ErrorKind::OutOfRange, FieldKind::Month))
    );
}

#[test]
fn months_invalid_positive_minute() {
    let result = "13";
    assert_eq!(
        describe_months(Option::from(result)),
        Err(err(ErrorKind::OutOfRange, FieldKind::Month))
    );
}

#[test]
fn weekdays_invalid_negative_minute() {
    let result = "-1";
    assert_eq!(
        describe_weekdays(Option::from(result)),
        Err(err(ErrorKind::OutOfRange, FieldKind::Weekday))
    );
}

#[test]
fn weekdays_invalid_positive_minute() {
    let result = "7";
    assert_eq!(
        describe_weekdays(Option::from(result)),
        Err(err(ErrorKind::OutOfRange, FieldKind::Weekday))
    );
}

#[test]
fn out_of_range_message_mentions_field() {
    let e = describe_minutes(Some("-1")).unwrap_err();
    assert_eq!(e.message(), "invalid minute");
    assert!(e.message().contains("minute"));
    let e = describe_days(Some("0")).unwrap_err();
    assert_eq!(e.message(), "invalid day of month");
}

#[test]
fn list_member_out_of_bounds_fails_whole_field() {
    assert_eq!(
        describe_minutes(Some("5,60,7")),
        Err(err(ErrorKind::OutOfRange, FieldKind::Minute))
    );
    assert_eq!(
        describe_weekdays(Some("1,7")),
        Err(err(ErrorKind::OutOfRange, FieldKind::Weekday))
    );
}

#[test]
fn list_non_integer_member_is_parse_error() {
    assert_eq!(
        describe_minutes(Some("1,x,3")),
        Err(err(ErrorKind::ParseError, FieldKind::Minute))
    );
    assert_eq!(describe_hours(Some("2,")), Err(err(ErrorKind::ParseError, FieldKind::Hour)));
}

#[test]
fn descending_or_equal_range_is_invalid() {
    assert_eq!(describe_minutes(Some("10-5")), Err(err(ErrorKind::InvalidRange, FieldKind::Minute)));
    assert_eq!(describe_hours(Some("5-5")), Err(err(ErrorKind::InvalidRange, FieldKind::Hour)));
}

#[test]
fn descending_or_equal_step_is_invalid() {
    assert_eq!(describe_minutes(Some("24/6")), Err(err(ErrorKind::InvalidRange, FieldKind::Minute)));
    assert_eq!(describe_days(Some("5/5")), Err(err(ErrorKind::InvalidRange, FieldKind::Day)));
}

#[test]
fn repeated_separator_is_malformed() {
    assert_eq!(
        describe_minutes(Some("1-2-3")),
        Err(err(ErrorKind::MalformedPattern, FieldKind::Minute))
    );
    assert_eq!(
        describe_hours(Some("1/2/3")),
        Err(err(ErrorKind::MalformedPattern, FieldKind::Hour))
    );
}

#[test]
fn unrecognized_text_is_unsupported() {
    assert_eq!(
        describe_minutes(Some("abc")),
        Err(err(ErrorKind::UnsupportedFormat, FieldKind::Minute))
    );
    assert_eq!(describe_months(Some("")), Err(err(ErrorKind::UnsupportedFormat, FieldKind::Month)));
}

#[test]
fn range_endpoint_out_of_bounds() {
    assert_eq!(describe_hours(Some("5-24")), Err(err(ErrorKind::OutOfRange, FieldKind::Hour)));
    assert_eq!(describe_days(Some("0-10")), Err(err(ErrorKind::OutOfRange, FieldKind::Day)));
}

#[test]
fn step_endpoint_out_of_bounds() {
    assert_eq!(describe_minutes(Some("6/60")), Err(err(ErrorKind::OutOfRange, FieldKind::Minute)));
}
