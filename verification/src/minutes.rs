//! The minute field: bounds `[0, 59]`.

use vstd::prelude::*;

use crate::field::DescribeError;
use crate::field::FieldKind;
use crate::pattern::describe_field;
use crate::pattern::field_result_matches;
use crate::pattern::opt_view;

verus! {

/// Describes the minute field of a cron schedule.
pub fn describe_minutes(minutes: Option<&str>) -> (r: Result<String, DescribeError>)
    ensures
        field_result_matches(FieldKind::Minute, opt_view(minutes), r),
{
    describe_field(minutes, FieldKind::Minute)
}

} // verus!
