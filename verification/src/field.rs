//! Field kinds: the five cron fields, their numeric bounds, and the error
//! taxonomy shared by every describe operation.

use vstd::prelude::*;
use vstd::string::StringExecFns;

verus! {

/// One of the five fields of a cron schedule expression.
#[derive(Clone, Copy, Debug, PartialEq, Eq, Structural)]
pub enum FieldKind {
    Minute,
    Hour,
    Day,
    Month,
    Weekday,
}

/// Why describing a single field failed.
#[derive(Clone, Copy, Debug, PartialEq, Eq, Structural)]
pub enum ErrorKind {
    /// A parsed numeric value violates the field's bounds.
    OutOfRange,
    /// A token expected to be an integer is not one.
    ParseError,
    /// Range or step end-points fail `end > start`.
    InvalidRange,
    /// More than one separator of the relevant kind was found.
    MalformedPattern,
    /// The raw field string matches none of the recognized shapes.
    UnsupportedFormat,
}

/// An error from describing one field, tagged with the field it came from.
#[derive(Clone, Copy, Debug, PartialEq, Eq, Structural)]
pub struct DescribeError {
    pub kind: ErrorKind,
    pub field: FieldKind,
}

/// The smallest value admitted by a field.
pub open spec fn min_of(k: FieldKind) -> int {
    match k {
        FieldKind::Minute => 0,
        FieldKind::Hour => 0,
        FieldKind::Day => 1,
        FieldKind::Month => 1,
        FieldKind::Weekday => 0,
    }
}

/// The largest value admitted by a field.
pub open spec fn max_of(k: FieldKind) -> int {
    match k {
        FieldKind::Minute => 59,
        FieldKind::Hour => 23,
        FieldKind::Day => 31,
        FieldKind::Month => 12,
        FieldKind::Weekday => 6,
    }
}

/// Whether `v` lies within the bounds of field `k`.
pub open spec fn in_bounds(k: FieldKind, v: int) -> bool {
    min_of(k) <= v <= max_of(k)
}

/// The bounds of field `k`, as a `(min, max)` pair.
pub fn bounds(k: FieldKind) -> (r: (i32, i32))
    ensures
        r.0 as int == min_of(k),
        r.1 as int == max_of(k),
{
    match k {
        FieldKind::Minute => (0, 59),
        FieldKind::Hour => (0, 23),
        FieldKind::Day => (1, 31),
        FieldKind::Month => (1, 12),
        FieldKind::Weekday => (0, 6),
    }
}

/// Whether `v` lies within the bounds of field `k`.
pub fn validate(k: FieldKind, v: i32) -> (r: bool)
    ensures
        r == in_bounds(k, v as int),
{
    let (lo, hi) = bounds(k);
    lo <= v && v <= hi
}

/// The field's name as it appears in diagnostics.
pub open spec fn field_word(k: FieldKind) -> Seq<char> {
    match k {
        FieldKind::Minute => "minute"@,
        FieldKind::Hour => "hour"@,
        FieldKind::Day => "day of month"@,
        FieldKind::Month => "month"@,
        FieldKind::Weekday => "weekday"@,
    }
}

/// The diagnostic text of an error, always naming the field it came from.
pub open spec fn message_text(e: DescribeError) -> Seq<char> {
    match e.kind {
        ErrorKind::OutOfRange => "invalid "@ + field_word(e.field),
        ErrorKind::ParseError => "not a valid integer in the "@ + field_word(e.field) + " field"@,
        ErrorKind::InvalidRange => "end must be greater than start in the "@ + field_word(e.field)
            + " field"@,
        ErrorKind::MalformedPattern => "only one separator allowed in the "@ + field_word(e.field)
            + " field"@,
        ErrorKind::UnsupportedFormat => "unsupported or invalid format for "@ + field_word(e.field),
    }
}

/// The field's name as it appears in diagnostics.
fn field_word_str(k: FieldKind) -> (r: &'static str)
    ensures
        r@ == field_word(k),
{
    match k {
        FieldKind::Minute => "minute",
        FieldKind::Hour => "hour",
        FieldKind::Day => "day of month",
        FieldKind::Month => "month",
        FieldKind::Weekday => "weekday",
    }
}

impl DescribeError {
    /// Renders the error as a diagnostic line naming the offending field.
    pub fn message(&self) -> (r: String)
        ensures
            r@ == message_text(*self),
    {
        let mut out = String::new();
        match self.kind {
            ErrorKind::OutOfRange => {
                out.append("invalid ");
                out.append(field_word_str(self.field));
                assert(out@ =~= message_text(*self));
            },
            ErrorKind::ParseError => {
                out.append("not a valid integer in the ");
                out.append(field_word_str(self.field));
                out.append(" field");
                assert(out@ =~= message_text(*self));
            },
            ErrorKind::InvalidRange => {
                out.append("end must be greater than start in the ");
                out.append(field_word_str(self.field));
                out.append(" field");
                assert(out@ =~= message_text(*self));
            },
            ErrorKind::MalformedPattern => {
                out.append("only one separator allowed in the ");
                out.append(field_word_str(self.field));
                out.append(" field");
                assert(out@ =~= message_text(*self));
            },
            ErrorKind::UnsupportedFormat => {
                out.append("unsupported or invalid format for ");
                out.append(field_word_str(self.field));
                assert(out@ =~= message_text(*self));
            },
        }
        out
    }
}

} // verus!
