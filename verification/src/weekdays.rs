//! The weekday field: bounds `[0, 6]`.

use vstd::prelude::*;

use crate::field::DescribeError;
use crate::field::FieldKind;
use crate::pattern::describe_field;
use crate::pattern::field_result_matches;
use crate::pattern::opt_view;

verus! {

/// Describes the weekday field of a cron schedule.
pub fn describe_weekdays(weekdays: Option<&str>) -> (r: Result<String, DescribeError>)
    ensures
        field_result_matches(FieldKind::Weekday, opt_view(weekdays), r),
{
    describe_field(weekdays, FieldKind::Weekday)
}

} // verus!
