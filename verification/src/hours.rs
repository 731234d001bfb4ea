//! The hour field: bounds `[0, 23]`.

use vstd::prelude::*;

use crate::field::DescribeError;
use crate::field::FieldKind;
use crate::pattern::describe_field;
use crate::pattern::field_result_matches;
use crate::pattern::opt_view;

verus! {

/// Describes the hour field of a cron schedule.
pub fn describe_hours(hours: Option<&str>) -> (r: Result<String, DescribeError>)
    ensures
        field_result_matches(FieldKind::Hour, opt_view(hours), r),
{
    describe_field(hours, FieldKind::Hour)
}

} // verus!
