//! The day-of-month field: bounds `[1, 31]`.

use vstd::prelude::*;

use crate::field::DescribeError;
use crate::field::FieldKind;
use crate::pattern::describe_field;
use crate::pattern::field_result_matches;
use crate::pattern::opt_view;

verus! {

/// Describes the day-of-month field of a cron schedule.
pub fn describe_days(days: Option<&str>) -> (r: Result<String, DescribeError>)
    ensures
        field_result_matches(FieldKind::Day, opt_view(days), r),
{
    describe_field(days, FieldKind::Day)
}

} // verus!
