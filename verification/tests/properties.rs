use cronplan::describe_days;
use cronplan::describe_hours;
use cronplan::describe_minutes;
use cronplan::describe_months;
use cronplan::describe_schedule;
use cronplan::describe_weekdays;

#[test]
fn omitted_field_renders_empty_for_every_kind() {
    assert_eq!(describe_minutes(None).unwrap(), "");
    assert_eq!(describe_hours(None).unwrap(), "");
    assert_eq!(describe_days(None).unwrap(), "");
    assert_eq!(describe_months(None).unwrap(), "");
    assert_eq!(describe_weekdays(None).unwrap(), "");
}

#[test]
fn wildcard_speaks_only_for_minutes() {
    assert_eq!(describe_minutes(Some("*")).unwrap(), "At every minute");
    assert_eq!(describe_hours(Some("*")).unwrap(), "");
    assert_eq!(describe_days(Some("*")).unwrap(), "");
    assert_eq!(describe_months(Some("*")).unwrap(), "");
    assert_eq!(describe_weekdays(Some("*")).unwrap(), "");
}

#[test]
fn literal_bounds_succeed_and_one_past_fails() {
    assert_eq!(describe_minutes(Some("0")).unwrap(), "At minute 0");
    assert_eq!(describe_minutes(Some("59")).unwrap(), "At minute 59");
    assert!(describe_minutes(Some("-1")).is_err());
    assert!(describe_minutes(Some("60")).is_err());
    assert_eq!(describe_days(Some("1")).unwrap(), " on day-of-month 1");
    assert_eq!(describe_days(Some("31")).unwrap(), " on day-of-month 31");
    assert!(describe_days(Some("0")).is_err());
    assert!(describe_days(Some("32")).is_err());
    assert_eq!(describe_months(Some("1")).unwrap(), " in 1");
    assert_eq!(describe_months(Some("12")).unwrap(), " in 12");
    assert!(describe_months(Some("0")).is_err());
    assert!(describe_months(Some("13")).is_err());
    assert_eq!(describe_hours(Some("0")).unwrap(), " at hour 0");
    assert_eq!(describe_hours(Some("23")).unwrap(), " at hour 23");
    assert!(describe_hours(Some("24")).is_err());
    assert_eq!(describe_weekdays(Some("0")).unwrap(), " on 0");
    assert_eq!(describe_weekdays(Some("6")).unwrap(), " on 6");
    assert!(describe_weekdays(Some("7")).is_err());
}

#[test]
fn literal_keeps_the_token_as_written() {
    assert_eq!(describe_minutes(Some("07")).unwrap(), "At minute 07");
    assert_eq!(describe_minutes(Some("+5")).unwrap(), "At minute +5");
}

#[test]
fn list_renders_prefix_once() {
    assert_eq!(describe_hours(Some("1,2,3")).unwrap(), " at hours 1, 2, 3");
    assert_eq!(describe_minutes(Some("0,59")).unwrap(), "At minute 0, 59");
}

#[test]
fn ordinal_suffix_follows_last_digit() {
    assert_eq!(
        describe_minutes(Some("1/21")).unwrap(),
        "At every 21st minute from 1 through 59"
    );
    assert_eq!(
        describe_minutes(Some("1/22")).unwrap(),
        "At every 22nd minute from 1 through 59"
    );
    assert_eq!(
        describe_minutes(Some("1/23")).unwrap(),
        "At every 23rd minute from 1 through 59"
    );
    assert_eq!(
        describe_minutes(Some("1/24")).unwrap(),
        "At every 24th minute from 1 through 59"
    );
    assert_eq!(describe_days(Some("1/11")).unwrap(), " on every 11st day-of-month from 1 through 31");
}

#[test]
fn schedule_concatenates_fragments_in_field_order() {
    let r = describe_schedule(Some("1"), Some("12,16,0"), Some("2"), Some("2"), Some("6"));
    assert_eq!(r.unwrap(), "At minute 1 at hours 12, 16, 0 on day-of-month 2 in 2 on 6");
}

#[test]
fn schedule_aborts_on_first_failing_field() {
    let r = describe_schedule(Some("1"), Some("24"), Some("2"), Some("2"), Some("6"));
    assert!(r.is_err());
    let e = r.unwrap_err();
    assert_eq!(e.message(), "invalid hour");
}

#[test]
fn schedule_of_wildcards_speaks_only_the_minute() {
    let r = describe_schedule(Some("*"), Some("*"), Some("*"), Some("*"), Some("*"));
    assert_eq!(r.unwrap(), "At every minute");
}
