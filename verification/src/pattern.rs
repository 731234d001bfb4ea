//! Pattern classification and rendering: classifies one raw cron field
//! string into a shape (wildcard, literal, list, range, step), validates its
//! values against the field's bounds, and renders the description fragment.

use vstd::prelude::*;
use vstd::string::StrSliceExecFns;
use vstd::string::StringExecFns;

use crate::field::DescribeError;
use crate::field::ErrorKind;
use crate::field::FieldKind;
use crate::field::in_bounds;
use crate::field::min_of;
use crate::field::validate;
use crate::numeral::dec_int;
use crate::numeral::dec_nat;
use crate::numeral::int_str_val;
use crate::numeral::parse_i32;
use crate::numeral::parses_as_i32;
use crate::numeral::push_u32;
use crate::scan::count_char;
use crate::scan::count_of;
use crate::scan::has_char;
use crate::scan::lemma_split_count;
use crate::scan::split_char;
use crate::scan::split_on;

verus! {

/// The prefix spoken before a single literal value.
pub open spec fn literal_prefix(k: FieldKind) -> Seq<char> {
    match k {
        FieldKind::Minute => "At minute "@,
        FieldKind::Hour => " at hour "@,
        FieldKind::Day => " on day-of-month "@,
        FieldKind::Month => " in "@,
        FieldKind::Weekday => " on "@,
    }
}

/// The prefix spoken once before a comma list of values.
pub open spec fn list_prefix(k: FieldKind) -> Seq<char> {
    match k {
        FieldKind::Minute => "At minute "@,
        FieldKind::Hour => " at hours "@,
        FieldKind::Day => " on day-of-month "@,
        FieldKind::Month => " in "@,
        FieldKind::Weekday => " on "@,
    }
}

/// The prefix spoken before a hyphen range.
pub open spec fn range_prefix(k: FieldKind) -> Seq<char> {
    match k {
        FieldKind::Minute => "At every hour from "@,
        FieldKind::Hour => "At every hour from "@,
        FieldKind::Day => " on every day-of-month from "@,
        FieldKind::Month => " in every month from "@,
        FieldKind::Weekday => " on every day-of-week from "@,
    }
}

/// The prefix spoken before a slash step.
pub open spec fn step_prefix(k: FieldKind) -> Seq<char> {
    match k {
        FieldKind::Minute => "At every "@,
        FieldKind::Hour => "At every "@,
        FieldKind::Day => " on every "@,
        FieldKind::Month => " in every "@,
        FieldKind::Weekday => "on every "@,
    }
}

/// The singular label noun of the field.
pub open spec fn label_of(k: FieldKind) -> Seq<char> {
    match k {
        FieldKind::Minute => "minute"@,
        FieldKind::Hour => "hour"@,
        FieldKind::Day => "day-of-month"@,
        FieldKind::Month => "month"@,
        FieldKind::Weekday => "day-of-week"@,
    }
}

/// The display text of the field's upper bound.
pub open spec fn upper_text(k: FieldKind) -> Seq<char> {
    match k {
        FieldKind::Minute => "59"@,
        FieldKind::Hour => "23"@,
        FieldKind::Day => "31"@,
        FieldKind::Month => "December"@,
        FieldKind::Weekday => "Sunday"@,
    }
}

/// What a `*` field renders as: only the minute wildcard is spoken, since it
/// anchors the sentence; every other field's wildcard is silent.
pub open spec fn wildcard_text(k: FieldKind) -> Seq<char> {
    match k {
        FieldKind::Minute => "At every minute"@,
        _ => Seq::<char>::empty(),
    }
}

/// The English ordinal suffix of `v`, decided by `v % 10` alone.
pub open spec fn ordinal_suffix(v: int) -> Seq<char> {
    if v % 10 == 1 {
        "st"@
    } else if v % 10 == 2 {
        "nd"@
    } else if v % 10 == 3 {
        "rd"@
    } else {
        "th"@
    }
}

/// The fragment for a literal: the prefix, then the raw token as written.
pub open spec fn render_literal(k: FieldKind, s: Seq<char>) -> Seq<char> {
    literal_prefix(k) + s
}

/// The values of a list, comma-space joined.
pub open spec fn list_items(vs: Seq<int>) -> Seq<char>
    decreases vs.len(),
{
    if vs.len() == 0 {
        Seq::<char>::empty()
    } else if vs.len() == 1 {
        dec_int(vs[0])
    } else {
        list_items(vs.drop_last()) + ", "@ + dec_int(vs.last())
    }
}

/// The fragment for a comma list: the prefix once, then the joined values.
pub open spec fn render_list(k: FieldKind, vs: Seq<int>) -> Seq<char> {
    list_prefix(k) + list_items(vs)
}

/// The fragment for a range from `a` through `b`.
pub open spec fn render_range(k: FieldKind, a: int, b: int) -> Seq<char> {
    range_prefix(k) + dec_int(a) + " through "@ + dec_int(b)
}

/// The fragment for a step: the second token is the ordinal-suffixed value,
/// and the upper end of the phrase is the field's own upper-bound text.
pub open spec fn render_step(k: FieldKind, a: int, b: int) -> Seq<char> {
    step_prefix(k) + dec_int(b) + ordinal_suffix(b) + " "@ + label_of(k) + " from "@ + dec_int(a)
        + " through "@ + upper_text(k)
}

/// The outcome for a comma-list field: every token must parse, then every
/// value must lie in bounds, and the values render comma-space joined.
pub open spec fn spec_list(k: FieldKind, s: Seq<char>) -> Result<Seq<char>, ErrorKind> {
    let toks = split_on(s, ',');
    if !(forall|i: int| 0 <= i < toks.len() ==> parses_as_i32(#[trigger] toks[i])) {
        Err(ErrorKind::ParseError)
    } else {
        let vs = toks.map_values(|t: Seq<char>| int_str_val(t));
        if !(forall|i: int| 0 <= i < vs.len() ==> in_bounds(k, #[trigger] vs[i])) {
            Err(ErrorKind::OutOfRange)
        } else {
            Ok(render_list(k, vs))
        }
    }
}

/// The outcome for a slash-step field: exactly one `/`, two integer tokens,
/// a strictly ascending pair, both ends in bounds.
pub open spec fn spec_step(k: FieldKind, s: Seq<char>) -> Result<Seq<char>, ErrorKind> {
    if count_of(s, '/') != 1 {
        Err(ErrorKind::MalformedPattern)
    } else {
        let toks = split_on(s, '/');
        if !(parses_as_i32(toks[0]) && parses_as_i32(toks[1])) {
            Err(ErrorKind::ParseError)
        } else {
            let a = int_str_val(toks[0]);
            let b = int_str_val(toks[1]);
            if b <= a {
                Err(ErrorKind::InvalidRange)
            } else if !(in_bounds(k, a) && in_bounds(k, b)) {
                Err(ErrorKind::OutOfRange)
            } else {
                Ok(render_step(k, a, b))
            }
        }
    }
}

/// The outcome for a hyphen-range field: exactly one `-`, two integer
/// tokens, a strictly ascending pair, both ends in bounds.
pub open spec fn spec_range(k: FieldKind, s: Seq<char>) -> Result<Seq<char>, ErrorKind> {
    if count_of(s, '-') != 1 {
        Err(ErrorKind::MalformedPattern)
    } else {
        let toks = split_on(s, '-');
        if !(parses_as_i32(toks[0]) && parses_as_i32(toks[1])) {
            Err(ErrorKind::ParseError)
        } else {
            let a = int_str_val(toks[0]);
            let b = int_str_val(toks[1]);
            if b <= a {
                Err(ErrorKind::InvalidRange)
            } else if !(in_bounds(k, a) && in_bounds(k, b)) {
                Err(ErrorKind::OutOfRange)
            } else {
                Ok(render_range(k, a, b))
            }
        }
    }
}

/// The outcome for a single-integer field.
pub open spec fn spec_literal(k: FieldKind, s: Seq<char>) -> Result<Seq<char>, ErrorKind>
    recommends
        parses_as_i32(s),
{
    if !in_bounds(k, int_str_val(s)) {
        Err(ErrorKind::OutOfRange)
    } else {
        Ok(render_literal(k, s))
    }
}

/// Classifies a non-wildcard field string, first match winning: comma list,
/// slash step, single integer, hyphen range; anything else is unsupported.
pub open spec fn spec_classify(k: FieldKind, s: Seq<char>) -> Result<Seq<char>, ErrorKind> {
    if s.contains(',') {
        spec_list(k, s)
    } else if s.contains('/') {
        spec_step(k, s)
    } else if parses_as_i32(s) {
        spec_literal(k, s)
    } else if s.contains('-') {
        spec_range(k, s)
    } else {
        Err(ErrorKind::UnsupportedFormat)
    }
}

/// The full outcome of describing one field: an omitted field is silent, a
/// wildcard speaks the field's wildcard text, anything else is classified.
pub open spec fn spec_describe_field(k: FieldKind, raw: Option<Seq<char>>) -> Result<
    Seq<char>,
    ErrorKind,
> {
    match raw {
        None => Ok(Seq::<char>::empty()),
        Some(s) => {
            if s == "*"@ {
                Ok(wildcard_text(k))
            } else {
                spec_classify(k, s)
            }
        },
    }
}

/// The views of an optional raw field string.
pub open spec fn opt_view(raw: Option<&str>) -> Option<Seq<char>> {
    match raw {
        None => None,
        Some(s) => Some(s@),
    }
}

/// Whether the executable result `r` carries exactly the spec outcome `s`.
pub open spec fn res_matches(r: Result<String, ErrorKind>, s: Result<Seq<char>, ErrorKind>) -> bool {
    match r {
        Ok(o) => s == Ok::<Seq<char>, ErrorKind>(o@),
        Err(e) => s == Err::<Seq<char>, ErrorKind>(e),
    }
}

/// Whether a public describe result `r` matches the field's spec outcome,
/// with any error tagged with the field it came from.
pub open spec fn field_result_matches(
    k: FieldKind,
    raw: Option<Seq<char>>,
    r: Result<String, DescribeError>,
) -> bool {
    match r {
        Ok(o) => spec_describe_field(k, raw) == Ok::<Seq<char>, ErrorKind>(o@),
        Err(e) => e.field == k && spec_describe_field(k, raw) == Err::<Seq<char>, ErrorKind>(
            e.kind,
        ),
    }
}

/// The prefix spoken before a single literal value.
fn literal_prefix_str(k: FieldKind) -> (r: &'static str)
    ensures
        r@ == literal_prefix(k),
{
    match k {
        FieldKind::Minute => "At minute ",
        FieldKind::Hour => " at hour ",
        FieldKind::Day => " on day-of-month ",
        FieldKind::Month => " in ",
        FieldKind::Weekday => " on ",
    }
}

/// The prefix spoken once before a comma list of values.
fn list_prefix_str(k: FieldKind) -> (r: &'static str)
    ensures
        r@ == list_prefix(k),
{
    match k {
        FieldKind::Minute => "At minute ",
        FieldKind::Hour => " at hours ",
        FieldKind::Day => " on day-of-month ",
        FieldKind::Month => " in ",
        FieldKind::Weekday => " on ",
    }
}

/// The prefix spoken before a hyphen range.
fn range_prefix_str(k: FieldKind) -> (r: &'static str)
    ensures
        r@ == range_prefix(k),
{
    match k {
        FieldKind::Minute => "At every hour from ",
        FieldKind::Hour => "At every hour from ",
        FieldKind::Day => " on every day-of-month from ",
        FieldKind::Month => " in every month from ",
        FieldKind::Weekday => " on every day-of-week from ",
    }
}

/// The prefix spoken before a slash step.
fn step_prefix_str(k: FieldKind) -> (r: &'static str)
    ensures
        r@ == step_prefix(k),
{
    match k {
        FieldKind::Minute => "At every ",
        FieldKind::Hour => "At every ",
        FieldKind::Day => " on every ",
        FieldKind::Month => " in every ",
        FieldKind::Weekday => "on every ",
    }
}

/// The singular label noun of the field.
fn label_str(k: FieldKind) -> (r: &'static str)
    ensures
        r@ == label_of(k),
{
    match k {
        FieldKind::Minute => "minute",
        FieldKind::Hour => "hour",
        FieldKind::Day => "day-of-month",
        FieldKind::Month => "month",
        FieldKind::Weekday => "day-of-week",
    }
}

/// The display text of the field's upper bound.
fn upper_str(k: FieldKind) -> (r: &'static str)
    ensures
        r@ == upper_text(k),
{
    match k {
        FieldKind::Minute => "59",
        FieldKind::Hour => "23",
        FieldKind::Day => "31",
        FieldKind::Month => "December",
        FieldKind::Weekday => "Sunday",
    }
}

/// What a `*` field renders as.
fn wildcard_str(k: FieldKind) -> (r: &'static str)
    ensures
        r@ == wildcard_text(k),
{
    proof {
        reveal_strlit("");
    }
    match k {
        FieldKind::Minute => "At every minute",
        FieldKind::Hour => {
            assert(""@ =~= Seq::<char>::empty());
            ""
        },
        FieldKind::Day => {
            assert(""@ =~= Seq::<char>::empty());
            ""
        },
        FieldKind::Month => {
            assert(""@ =~= Seq::<char>::empty());
            ""
        },
        FieldKind::Weekday => {
            assert(""@ =~= Seq::<char>::empty());
            ""
        },
    }
}

/// Whether `s` is exactly the wildcard `*`.
fn is_star(s: &str) -> (b: bool)
    ensures
        b == (s@ == "*"@),
{
    proof {
        reveal_strlit("*");
    }
    let n = s.unicode_len();
    if n == 1 && s.get_char(0) == '*' {
        assert(s@ =~= "*"@);
        true
    } else {
        assert(s@ != "*"@);
        false
    }
}

/// Extending a rendered list by one value appends a comma-space separator
/// and the value, except at the very first value.
proof fn lemma_list_items_push(vs: Seq<int>, m: int)
    requires
        0 <= m < vs.len(),
    ensures
        m == 0 ==> list_items(vs.subrange(0, 1)) == dec_int(vs[0]),
        m > 0 ==> list_items(vs.subrange(0, m + 1)) == list_items(vs.subrange(0, m)) + ", "@
            + dec_int(vs[m]),
{
    let t = vs.subrange(0, m + 1);
    if m == 0 {
        assert(t.len() == 1);
        assert(t[0] == vs[0]);
    } else {
        assert(t.drop_last() =~= vs.subrange(0, m));
        assert(t.last() == vs[m]);
    }
}

/// Describes a comma-list field: parses every token, validates every value
/// left to right, and renders the prefix once before the joined values.
fn describe_value_list(raw: &str, k: FieldKind) -> (r: Result<String, ErrorKind>)
    ensures
        res_matches(r, spec_list(k, raw@)),
{
    let ghost toks = split_on(raw@, ',');
    let parts = split_char(raw, ',');
    let mut vals: Vec<i32> = Vec::new();
    let mut idx: usize = 0;
    while idx < parts.len()
        invariant
            idx <= parts@.len(),
            vals@.len() == idx,
            toks == split_on(raw@, ','),
            parts@.len() == toks.len(),
            forall|j: int| 0 <= j < parts@.len() ==> parts@[j]@ == toks[j],
            forall|j: int| 0 <= j < idx ==> parses_as_i32(#[trigger] toks[j]),
            forall|j: int| 0 <= j < idx ==> (#[trigger] vals@[j]) as int == int_str_val(toks[j]),
        decreases parts@.len() - idx,
    {
        let t: &String = &parts[idx];
        match parse_i32(t.as_str()) {
            None => {
                assert(!parses_as_i32(toks[idx as int]));
                return Err(ErrorKind::ParseError);
            },
            Some(v) => {
                vals.push(v);
            },
        }
        idx = idx + 1;
    }
    let ghost vs = toks.map_values(|t: Seq<char>| int_str_val(t));
    assert(vals@.len() == vs.len());
    assert(forall|j: int| 0 <= j < vs.len() ==> (#[trigger] vals@[j]) as int == vs[j]);
    let mut chk: usize = 0;
    while chk < vals.len()
        invariant
            chk <= vals@.len(),
            vals@.len() == vs.len(),
            toks == split_on(raw@, ','),
            vs == toks.map_values(|t: Seq<char>| int_str_val(t)),
            forall|j: int| 0 <= j < toks.len() ==> parses_as_i32(#[trigger] toks[j]),
            forall|j: int| 0 <= j < vs.len() ==> (#[trigger] vals@[j]) as int == vs[j],
            forall|j: int| 0 <= j < chk ==> in_bounds(k, #[trigger] vs[j]),
        decreases vals@.len() - chk,
    {
        if !validate(k, vals[chk]) {
            assert(!in_bounds(k, vs[chk as int]));
            return Err(ErrorKind::OutOfRange);
        }
        chk = chk + 1;
    }
    let mut out = String::new();
    out.append(list_prefix_str(k));
    assert(out@ =~= list_prefix(k) + list_items(vs.subrange(0, 0)));
    let mut m: usize = 0;
    while m < vals.len()
        invariant
            m <= vals@.len(),
            vals@.len() == vs.len(),
            toks == split_on(raw@, ','),
            vs == toks.map_values(|t: Seq<char>| int_str_val(t)),
            forall|j: int| 0 <= j < toks.len() ==> parses_as_i32(#[trigger] toks[j]),
            forall|j: int| 0 <= j < vs.len() ==> (#[trigger] vals@[j]) as int == vs[j],
            forall|j: int| 0 <= j < vs.len() ==> in_bounds(k, #[trigger] vs[j]),
            out@ == list_prefix(k) + list_items(vs.subrange(0, m as int)),
        decreases vals@.len() - m,
    {
        proof {
            lemma_list_items_push(vs, m as int);
        }
        if m > 0 {
            out.append(", ");
        }
        let v = vals[m];
        assert(v as int == vs[m as int]);
        assert(min_of(k) >= 0);
        push_u32(&mut out, v as u32);
        assert(dec_nat(v as int) == dec_int(vs[m as int]));
        assert(out@ =~= list_prefix(k) + list_items(vs.subrange(0, m + 1)));
        m = m + 1;
    }
    assert(vs.subrange(0, vs.len() as int) =~= vs);
    Ok(out)
}

/// Describes a single-integer field: validates the value and renders the
/// prefix followed by the token exactly as it was written.
fn describe_literal(raw: &str, v: i32, k: FieldKind) -> (r: Result<String, ErrorKind>)
    requires
        parses_as_i32(raw@),
        v as int == int_str_val(raw@),
    ensures
        res_matches(r, spec_literal(k, raw@)),
{
    if !validate(k, v) {
        return Err(ErrorKind::OutOfRange);
    }
    let mut out = String::new();
    out.append(literal_prefix_str(k));
    out.append(raw);
    assert(out@ =~= render_literal(k, raw@));
    Ok(out)
}

/// Describes a slash-step field. The token after the slash is the literal
/// upper value being stepped toward, not an increment.
fn describe_step(raw: &str, k: FieldKind) -> (r: Result<String, ErrorKind>)
    ensures
        res_matches(r, spec_step(k, raw@)),
{
    if count_char(raw, '/') != 1 {
        return Err(ErrorKind::MalformedPattern);
    }
    proof {
        lemma_split_count(raw@, '/');
    }
    let parts = split_char(raw, '/');
    let a = match parse_i32(parts[0].as_str()) {
        None => {
            return Err(ErrorKind::ParseError);
        },
        Some(v) => v,
    };
    let b = match parse_i32(parts[1].as_str()) {
        None => {
            return Err(ErrorKind::ParseError);
        },
        Some(v) => v,
    };
    if b <= a {
        return Err(ErrorKind::InvalidRange);
    }
    if !validate(k, a) {
        return Err(ErrorKind::OutOfRange);
    }
    if !validate(k, b) {
        return Err(ErrorKind::OutOfRange);
    }
    let mut out = String::new();
    out.append(step_prefix_str(k));
    push_u32(&mut out, b as u32);
    let r10 = b % 10;
    if r10 == 1 {
        out.append("st");
    } else if r10 == 2 {
        out.append("nd");
    } else if r10 == 3 {
        out.append("rd");
    } else {
        out.append("th");
    }
    out.append(" ");
    out.append(label_str(k));
    out.append(" from ");
    push_u32(&mut out, a as u32);
    out.append(" through ");
    out.append(upper_str(k));
    assert(out@ =~= render_step(k, a as int, b as int));
    Ok(out)
}

/// Describes a hyphen-range field.
fn describe_range(raw: &str, k: FieldKind) -> (r: Result<String, ErrorKind>)
    ensures
        res_matches(r, spec_range(k, raw@)),
{
    if count_char(raw, '-') != 1 {
        return Err(ErrorKind::MalformedPattern);
    }
    proof {
        lemma_split_count(raw@, '-');
    }
    let parts = split_char(raw, '-');
    let a = match parse_i32(parts[0].as_str()) {
        None => {
            return Err(ErrorKind::ParseError);
        },
        Some(v) => v,
    };
    let b = match parse_i32(parts[1].as_str()) {
        None => {
            return Err(ErrorKind::ParseError);
        },
        Some(v) => v,
    };
    if b <= a {
        return Err(ErrorKind::InvalidRange);
    }
    if !validate(k, a) {
        return Err(ErrorKind::OutOfRange);
    }
    if !validate(k, b) {
        return Err(ErrorKind::OutOfRange);
    }
    let mut out = String::new();
    out.append(range_prefix_str(k));
    push_u32(&mut out, a as u32);
    out.append(" through ");
    push_u32(&mut out, b as u32);
    assert(out@ =~= render_range(k, a as int, b as int));
    Ok(out)
}

/// Classifies a non-wildcard field string by its separators, first match
/// winning, and renders the matching shape.
fn describe_type_by_pattern(raw: &str, k: FieldKind) -> (r: Result<String, ErrorKind>)
    ensures
        res_matches(r, spec_classify(k, raw@)),
{
    if has_char(raw, ',') {
        describe_value_list(raw, k)
    } else if has_char(raw, '/') {
        describe_step(raw, k)
    } else {
        match parse_i32(raw) {
            Some(v) => describe_literal(raw, v, k),
            None => {
                if has_char(raw, '-') {
                    describe_range(raw, k)
                } else {
                    Err(ErrorKind::UnsupportedFormat)
                }
            },
        }
    }
}

/// Describes one field of a cron schedule: an omitted field is silent, `*`
/// speaks the field's wildcard text, and any other string is classified,
/// validated and rendered, or refused with the exact error.
pub fn describe_field(raw: Option<&str>, k: FieldKind) -> (r: Result<String, DescribeError>)
    ensures
        field_result_matches(k, opt_view(raw), r),
{
    match raw {
        None => Ok(String::new()),
        Some(s) => {
            if is_star(s) {
                Ok(String::from_str(wildcard_str(k)))
            } else {
                match describe_type_by_pattern(s, k) {
                    Ok(d) => Ok(d),
                    Err(kind) => Err(DescribeError { kind, field: k }),
                }
            }
        },
    }
}

} // verus!
