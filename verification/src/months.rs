//! The month field: bounds `[1, 12]`.

use vstd::prelude::*;

use crate::field::DescribeError;
use crate::field::FieldKind;
use crate::pattern::describe_field;
use crate::pattern::field_result_matches;
use crate::pattern::opt_view;

verus! {

/// Describes the month field of a cron schedule.
pub fn describe_months(months: Option<&str>) -> (r: Result<String, DescribeError>)
    ensures
        field_result_matches(FieldKind::Month, opt_view(months), r),
{
    describe_field(months, FieldKind::Month)
}

} // verus!
