//! The library's general laws: what describing a field yields for whole
//! families of inputs, stated over the spec-level outcome and proved once
//! for every field kind and every value.

use vstd::prelude::*;

use crate::field::ErrorKind;
use crate::field::FieldKind;
use crate::field::in_bounds;
use crate::numeral::all_digits;
use crate::numeral::dec_int;
use crate::numeral::int_str_val;
use crate::numeral::is_digit;
use crate::numeral::is_int_str;
use crate::numeral::lemma_dec_int_parses;
use crate::numeral::parses_as_i32;
use crate::pattern::literal_prefix;
use crate::pattern::render_list;
use crate::pattern::render_range;
use crate::pattern::render_step;
use crate::pattern::spec_describe_field;
use crate::scan::count_of;
use crate::scan::lemma_count_pos_contains;
use crate::scan::lemma_no_contains_count_zero;
use crate::scan::lemma_split_no_sep;
use crate::scan::lemma_split_pair;
use crate::scan::split_on;

verus! {

/// An omitted field always renders as the empty fragment.
pub proof fn lemma_omitted_field_is_silent(k: FieldKind)
    ensures
        spec_describe_field(k, None) == Ok::<Seq<char>, ErrorKind>(Seq::<char>::empty()),
{
}

/// The wildcard is spoken only in the minute field, which anchors the
/// sentence; every other field's wildcard renders as the empty fragment.
pub proof fn lemma_wildcard(k: FieldKind)
    ensures
        k is Minute ==> spec_describe_field(k, Some("*"@)) == Ok::<Seq<char>, ErrorKind>(
            "At every minute"@,
        ),
        !(k is Minute) ==> spec_describe_field(k, Some("*"@)) == Ok::<Seq<char>, ErrorKind>(
            Seq::<char>::empty(),
        ),
{
}

/// A string containing any character other than `*` is not the wildcard.
proof fn lemma_contains_excludes_star(s: Seq<char>, c: char)
    requires
        s.contains(c),
        c != '*',
    ensures
        s != "*"@,
{
    reveal_strlit("*");
    if s == "*"@ {
        let i = choose|i: int| 0 <= i < s.len() && s[i] == c;
        assert(s[0] == '*');
    }
}

/// An all-digit string contains no non-digit character.
proof fn lemma_digits_no_char(x: Seq<char>, c: char)
    requires
        all_digits(x),
        !is_digit(c),
    ensures
        !x.contains(c),
{
    if x.contains(c) {
        let i = choose|i: int| 0 <= i < x.len() && x[i] == c;
        assert(is_digit(x[i]));
    }
}

/// A rendered decimal holds nothing but digits and a leading minus sign.
proof fn lemma_dec_int_no_char(v: int, c: char)
    requires
        i32::MIN <= v <= i32::MAX,
        !is_digit(c),
        c != '-',
    ensures
        !dec_int(v).contains(c),
{
    lemma_dec_int_parses(v);
    if dec_int(v).contains(c) {
        let i = choose|i: int| 0 <= i < dec_int(v).len() && dec_int(v)[i] == c;
        assert(is_digit(dec_int(v)[i]) || dec_int(v)[i] == '-');
    }
}

/// Two tokens free of `c` around a separator other than `c` make a string
/// free of `c`.
proof fn lemma_pair_no_char(x: Seq<char>, y: Seq<char>, sep: char, c: char)
    requires
        !x.contains(c),
        !y.contains(c),
        sep != c,
    ensures
        !(x + seq![sep] + y).contains(c),
{
    let s = x + seq![sep] + y;
    if s.contains(c) {
        let i = choose|i: int| 0 <= i < s.len() && s[i] == c;
        if i < x.len() {
            assert(x[i] == c);
            assert(x.contains(c));
        } else if i == x.len() {
            assert(s[i] == sep);
        } else {
            assert(y[i - x.len() - 1] == c);
            assert(y.contains(c));
        }
    }
}

/// A single in-bounds integer renders as the field's literal prefix followed
/// by the value as written; an integer outside the field's bounds is refused
/// as out of range. Both the bounds themselves succeed; one past either
/// bound fails.
pub proof fn lemma_literal_value(k: FieldKind, v: int)
    requires
        i32::MIN <= v <= i32::MAX,
    ensures
        in_bounds(k, v) ==> spec_describe_field(k, Some(dec_int(v))) == Ok::<Seq<char>, ErrorKind>(
            literal_prefix(k) + dec_int(v),
        ),
        !in_bounds(k, v) ==> spec_describe_field(k, Some(dec_int(v))) == Err::<
            Seq<char>,
            ErrorKind,
        >(ErrorKind::OutOfRange),
{
    lemma_dec_int_parses(v);
    lemma_dec_int_no_char(v, ',');
    lemma_dec_int_no_char(v, '/');
    let s = dec_int(v);
    assert(s != "*"@) by {
        reveal_strlit("*");
        if s == "*"@ {
            assert(s[0] == '*');
            assert(is_digit(s[0]) || s[0] == '-');
        }
    }
}

/// The comma-joined decimal forms of a value sequence: the raw text of a
/// list field holding exactly those values.
pub open spec fn comma_joined(vs: Seq<int>) -> Seq<char>
    recommends
        vs.len() >= 1,
    decreases vs.len(),
{
    if vs.len() <= 1 {
        dec_int(vs[0])
    } else {
        dec_int(vs[0]) + seq![','] + comma_joined(vs.drop_first())
    }
}

/// Splitting the comma-joined text recovers each value's decimal form.
proof fn lemma_split_comma_joined(vs: Seq<int>)
    requires
        vs.len() >= 1,
        forall|i: int| 0 <= i < vs.len() ==> i32::MIN <= #[trigger] vs[i] <= i32::MAX,
    ensures
        split_on(comma_joined(vs), ',') == vs.map_values(|v: int| dec_int(v)),
    decreases vs.len(),
{
    if vs.len() == 1 {
        lemma_dec_int_no_char(vs[0], ',');
        lemma_split_no_sep(dec_int(vs[0]), ',');
        assert(split_on(comma_joined(vs), ',') =~~= vs.map_values(|v: int| dec_int(v)));
    } else {
        let s = comma_joined(vs);
        let a = dec_int(vs[0]);
        let rest = comma_joined(vs.drop_first());
        assert(s == a + seq![','] + rest);
        lemma_dec_int_no_char(vs[0], ',');
        let i = a.len() as int;
        assert(s[i] == ',');
        assert(forall|j: int| 0 <= j < i ==> s[j] != ',') by {
            assert(forall|j: int| 0 <= j < a.len() ==> #[trigger] a[j] != ',');
            assert(forall|j: int| 0 <= j < i ==> #[trigger] s[j] == a[j]);
        }
        crate::scan::lemma_split_at_first(s, ',', i);
        assert(s.subrange(0, i) =~= a);
        assert(s.subrange(i + 1, s.len() as int) =~= rest);
        assert(forall|j: int|
            0 <= j < vs.drop_first().len() ==> i32::MIN <= #[trigger] vs.drop_first()[j]
                <= i32::MAX);
        lemma_split_comma_joined(vs.drop_first());
        assert(split_on(s, ',') =~~= vs.map_values(|v: int| dec_int(v))) by {
            let m = vs.drop_first().map_values(|v: int| dec_int(v));
            assert(split_on(s, ',') == seq![a] + m);
            assert(forall|j: int|
                0 <= j < m.len() ==> #[trigger] m[j] == dec_int(vs.drop_first()[j]));
        }
    }
}

/// A comma list with every member in bounds renders the prefix once, then
/// the members comma-space joined; a list with any member out of bounds is
/// refused as out of range, with no partial output.
pub proof fn lemma_list_values(k: FieldKind, vs: Seq<int>)
    requires
        vs.len() >= 2,
        forall|i: int| 0 <= i < vs.len() ==> i32::MIN <= #[trigger] vs[i] <= i32::MAX,
    ensures
        (forall|i: int| 0 <= i < vs.len() ==> in_bounds(k, #[trigger] vs[i]))
            ==> spec_describe_field(k, Some(comma_joined(vs))) == Ok::<Seq<char>, ErrorKind>(
            render_list(k, vs),
        ),
        (exists|i: int| 0 <= i < vs.len() && !in_bounds(k, #[trigger] vs[i]))
            ==> spec_describe_field(k, Some(comma_joined(vs))) == Err::<Seq<char>, ErrorKind>(
            ErrorKind::OutOfRange,
        ),
{
    let s = comma_joined(vs);
    lemma_split_comma_joined(vs);
    let a = dec_int(vs[0]);
    assert(s == a + seq![','] + comma_joined(vs.drop_first()));
    assert(s[a.len() as int] == ',');
    assert(s.contains(','));
    lemma_contains_excludes_star(s, ',');
    let toks = split_on(s, ',');
    assert(toks == vs.map_values(|v: int| dec_int(v)));
    assert forall|i: int| 0 <= i < toks.len() implies parses_as_i32(#[trigger] toks[i]) by {
        lemma_dec_int_parses(vs[i]);
    }
    let ws = toks.map_values(|t: Seq<char>| int_str_val(t));
    assert(ws =~= vs) by {
        assert forall|i: int| 0 <= i < ws.len() implies #[trigger] ws[i] == vs[i] by {
            lemma_dec_int_parses(vs[i]);
        }
    }
}

/// The raw text of a range or step field: start, separator, end.
pub open spec fn pair_text(a: int, b: int, sep: char) -> Seq<char> {
    dec_int(a) + seq![sep] + dec_int(b)
}

/// A hyphen range with a strictly ascending in-bounds pair renders as the
/// range phrase; a descending or equal pair is refused as an invalid range;
/// an ascending pair with either end out of bounds is refused as out of
/// range. Negative end-points are excluded here: their minus signs would add
/// hyphens to the text, which is then refused as a malformed pattern.
pub proof fn lemma_range_values(k: FieldKind, a: int, b: int)
    requires
        0 <= a <= i32::MAX,
        0 <= b <= i32::MAX,
    ensures
        (a < b && in_bounds(k, a) && in_bounds(k, b)) ==> spec_describe_field(
            k,
            Some(pair_text(a, b, '-')),
        ) == Ok::<Seq<char>, ErrorKind>(render_range(k, a, b)),
        b <= a ==> spec_describe_field(k, Some(pair_text(a, b, '-'))) == Err::<
            Seq<char>,
            ErrorKind,
        >(ErrorKind::InvalidRange),
        (a < b && !(in_bounds(k, a) && in_bounds(k, b))) ==> spec_describe_field(
            k,
            Some(pair_text(a, b, '-')),
        ) == Err::<Seq<char>, ErrorKind>(ErrorKind::OutOfRange),
{
    let s = pair_text(a, b, '-');
    let da = dec_int(a);
    let db = dec_int(b);
    lemma_dec_int_parses(a);
    lemma_dec_int_parses(b);
    lemma_dec_int_no_char(a, ',');
    lemma_dec_int_no_char(b, ',');
    lemma_dec_int_no_char(a, '/');
    lemma_dec_int_no_char(b, '/');
    lemma_digits_no_char(da, '-');
    lemma_digits_no_char(db, '-');
    lemma_pair_no_char(da, db, '-', ',');
    lemma_pair_no_char(da, db, '-', '/');
    lemma_split_pair(da, db, '-');
    assert(s[da.len() as int] == '-');
    assert(s.contains('-'));
    lemma_contains_excludes_star(s, '-');
    assert(!is_int_str(s)) by {
        assert(s[0] == da[0]);
        assert(is_digit(s[0]));
        if is_int_str(s) {
            assert(all_digits(s));
            assert(is_digit(s[da.len() as int]));
        }
    }
}

/// A non-list, non-step field string holding more than one hyphen is
/// refused as a malformed pattern. Such a string never parses as a single
/// integer, since an integer literal holds at most one leading minus sign.
pub proof fn lemma_range_malformed(k: FieldKind, s: Seq<char>)
    requires
        !s.contains(','),
        !s.contains('/'),
        count_of(s, '-') > 1,
    ensures
        spec_describe_field(k, Some(s)) == Err::<Seq<char>, ErrorKind>(ErrorKind::MalformedPattern),
{
    lemma_count_pos_contains(s, '-');
    lemma_contains_excludes_star(s, '-');
    assert(!is_int_str(s)) by {
        if is_int_str(s) {
            if s[0] == '-' || s[0] == '+' {
                let t = s.drop_first();
                lemma_digits_no_char(t, '-');
                lemma_no_contains_count_zero(t, '-');
                assert(count_of(s, '-') == (if s[0] == '-' {
                    1int
                } else {
                    0int
                }) + count_of(t, '-'));
            } else {
                lemma_digits_no_char(s, '-');
                lemma_no_contains_count_zero(s, '-');
            }
        }
    }
}

/// A slash step with a strictly ascending in-bounds pair renders as the
/// ordinal-suffixed step phrase; a descending or equal pair is refused as an
/// invalid range; an ascending pair with either end out of bounds is refused
/// as out of range.
pub proof fn lemma_step_values(k: FieldKind, a: int, b: int)
    requires
        i32::MIN <= a <= i32::MAX,
        i32::MIN <= b <= i32::MAX,
    ensures
        (a < b && in_bounds(k, a) && in_bounds(k, b)) ==> spec_describe_field(
            k,
            Some(pair_text(a, b, '/')),
        ) == Ok::<Seq<char>, ErrorKind>(render_step(k, a, b)),
        b <= a ==> spec_describe_field(k, Some(pair_text(a, b, '/'))) == Err::<
            Seq<char>,
            ErrorKind,
        >(ErrorKind::InvalidRange),
        (a < b && !(in_bounds(k, a) && in_bounds(k, b))) ==> spec_describe_field(
            k,
            Some(pair_text(a, b, '/')),
        ) == Err::<Seq<char>, ErrorKind>(ErrorKind::OutOfRange),
{
    let s = pair_text(a, b, '/');
    let da = dec_int(a);
    let db = dec_int(b);
    lemma_dec_int_parses(a);
    lemma_dec_int_parses(b);
    lemma_dec_int_no_char(a, ',');
    lemma_dec_int_no_char(b, ',');
    lemma_dec_int_no_char(a, '/');
    lemma_dec_int_no_char(b, '/');
    lemma_pair_no_char(da, db, '/', ',');
    lemma_split_pair(da, db, '/');
    assert(s[da.len() as int] == '/');
    assert(s.contains('/'));
    lemma_contains_excludes_star(s, '/');
}

/// A field string holding no comma and more than one slash is refused as a
/// malformed pattern.
pub proof fn lemma_step_malformed(k: FieldKind, s: Seq<char>)
    requires
        !s.contains(','),
        count_of(s, '/') > 1,
    ensures
        spec_describe_field(k, Some(s)) == Err::<Seq<char>, ErrorKind>(ErrorKind::MalformedPattern),
{
    lemma_count_pos_contains(s, '/');
    lemma_contains_excludes_star(s, '/');
}

} // verus!
