//! Describing a whole five-field schedule: the five fragments concatenated
//! in minute, hour, day, month, weekday order, aborting on the first field
//! that fails.

use vstd::prelude::*;
use vstd::string::StringExecFns;

use crate::days::describe_days;
use crate::field::DescribeError;
use crate::field::ErrorKind;
use crate::field::FieldKind;
use crate::hours::describe_hours;
use crate::minutes::describe_minutes;
use crate::months::describe_months;
use crate::pattern::opt_view;
use crate::pattern::spec_describe_field;
use crate::weekdays::describe_weekdays;

verus! {

/// The outcome of describing a whole schedule: the five fields' fragments
/// concatenated with no separator, or the first field's error.
pub open spec fn spec_describe_schedule(
    minutes: Option<Seq<char>>,
    hours: Option<Seq<char>>,
    days: Option<Seq<char>>,
    months: Option<Seq<char>>,
    weekdays: Option<Seq<char>>,
) -> Result<Seq<char>, DescribeError> {
    match spec_describe_field(FieldKind::Minute, minutes) {
        Err(e) => Err(DescribeError { kind: e, field: FieldKind::Minute }),
        Ok(f1) => match spec_describe_field(FieldKind::Hour, hours) {
            Err(e) => Err(DescribeError { kind: e, field: FieldKind::Hour }),
            Ok(f2) => match spec_describe_field(FieldKind::Day, days) {
                Err(e) => Err(DescribeError { kind: e, field: FieldKind::Day }),
                Ok(f3) => match spec_describe_field(FieldKind::Month, months) {
                    Err(e) => Err(DescribeError { kind: e, field: FieldKind::Month }),
                    Ok(f4) => match spec_describe_field(FieldKind::Weekday, weekdays) {
                        Err(e) => Err(DescribeError { kind: e, field: FieldKind::Weekday }),
                        Ok(f5) => Ok(f1 + f2 + f3 + f4 + f5),
                    },
                },
            },
        },
    }
}

/// Describes a five-field cron schedule, field fragments concatenated in
/// fixed order with no separator; any field's failure aborts the whole
/// operation with that field's error.
pub fn describe_schedule(
    minutes: Option<&str>,
    hours: Option<&str>,
    days: Option<&str>,
    months: Option<&str>,
    weekdays: Option<&str>,
) -> (r: Result<String, DescribeError>)
    ensures
        (r matches Ok(s) ==> spec_describe_schedule(
            opt_view(minutes),
            opt_view(hours),
            opt_view(days),
            opt_view(months),
            opt_view(weekdays),
        ) == Ok::<Seq<char>, DescribeError>(s@)),
        (r matches Err(e) ==> spec_describe_schedule(
            opt_view(minutes),
            opt_view(hours),
            opt_view(days),
            opt_view(months),
            opt_view(weekdays),
        ) == Err::<Seq<char>, DescribeError>(e)),
{
    let mut out = match describe_minutes(minutes) {
        Ok(f) => f,
        Err(e) => {
            return Err(e);
        },
    };
    let f2 = match describe_hours(hours) {
        Ok(f) => f,
        Err(e) => {
            return Err(e);
        },
    };
    let f3 = match describe_days(days) {
        Ok(f) => f,
        Err(e) => {
            return Err(e);
        },
    };
    let f4 = match describe_months(months) {
        Ok(f) => f,
        Err(e) => {
            return Err(e);
        },
    };
    let f5 = match describe_weekdays(weekdays) {
        Ok(f) => f,
        Err(e) => {
            return Err(e);
        },
    };
    out.append(f2.as_str());
    out.append(f3.as_str());
    out.append(f4.as_str());
    out.append(f5.as_str());
    Ok(out)
}

} // verus!
