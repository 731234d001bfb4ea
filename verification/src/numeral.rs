//! Decimal numerals: the spec-level decimal form of an integer, a verified
//! parser matching `i32` literal syntax, and a verified renderer.

use vstd::prelude::*;

verus! {

/// Whether `c` is an ASCII decimal digit.
pub open spec fn is_digit(c: char) -> bool {
    '0' <= c && c <= '9'
}

/// The numeric value of a digit character.
pub open spec fn digit_val(c: char) -> int {
    c as int - '0' as int
}

/// The digit character for a value in `0..=9`.
pub open spec fn digit_char(d: int) -> char {
    if d == 0 {
        '0'
    } else if d == 1 {
        '1'
    } else if d == 2 {
        '2'
    } else if d == 3 {
        '3'
    } else if d == 4 {
        '4'
    } else if d == 5 {
        '5'
    } else if d == 6 {
        '6'
    } else if d == 7 {
        '7'
    } else if d == 8 {
        '8'
    } else {
        '9'
    }
}

/// Whether every character of `s` is a decimal digit.
pub open spec fn all_digits(s: Seq<char>) -> bool {
    forall|i: int| 0 <= i < s.len() ==> is_digit(#[trigger] s[i])
}

/// The value of a digit string, read left to right.
pub open spec fn digits_val(s: Seq<char>) -> int
    decreases s.len(),
{
    if s.len() == 0 {
        0
    } else {
        digits_val(s.drop_last()) * 10 + digit_val(s.last())
    }
}

/// Whether `s` is an integer literal as `i32::from_str` admits one:
/// an optional leading `+` or `-` sign, then one or more digits.
pub open spec fn is_int_str(s: Seq<char>) -> bool {
    if s.len() == 0 {
        false
    } else if s[0] == '-' || s[0] == '+' {
        s.len() > 1 && all_digits(s.drop_first())
    } else {
        all_digits(s)
    }
}

/// The signed value of an integer literal.
pub open spec fn int_str_val(s: Seq<char>) -> int
    recommends
        is_int_str(s),
{
    if s.len() > 0 && s[0] == '-' {
        -digits_val(s.drop_first())
    } else if s.len() > 0 && s[0] == '+' {
        digits_val(s.drop_first())
    } else {
        digits_val(s)
    }
}

/// Whether `s` parses as an `i32`: well-formed and within range.
pub open spec fn parses_as_i32(s: Seq<char>) -> bool {
    is_int_str(s) && i32::MIN <= int_str_val(s) <= i32::MAX
}

/// The decimal form of a non-negative integer, without sign or padding.
pub open spec fn dec_nat(n: int) -> Seq<char>
    recommends
        n >= 0,
    decreases n,
{
    if n < 10 {
        seq![digit_char(n)]
    } else {
        dec_nat(n / 10) + seq![digit_char(n % 10)]
    }
}

/// The decimal form of an integer, as `to_string` renders it.
pub open spec fn dec_int(v: int) -> Seq<char> {
    if v < 0 {
        seq!['-'] + dec_nat(-v)
    } else {
        dec_nat(v)
    }
}

/// A digit string's value never shrinks when more digits are appended.
proof fn lemma_digits_val_prefix_le(s: Seq<char>, i: int)
    requires
        0 <= i <= s.len(),
        all_digits(s),
        digits_val(s.subrange(0, i)) >= 0,
    ensures
        digits_val(s) >= digits_val(s.subrange(0, i)),
    decreases s.len() - i,
{
    if i == s.len() {
        assert(s.subrange(0, i) =~= s);
    } else {
        let t = s.subrange(0, i + 1);
        assert(t.drop_last() =~= s.subrange(0, i));
        assert(is_digit(s[i]));
        assert(digits_val(t) == digits_val(s.subrange(0, i)) * 10 + digit_val(s[i]));
        assert(digits_val(t) >= digits_val(s.subrange(0, i))) by {
            let p = digits_val(s.subrange(0, i));
            assert(p * 10 >= p) by (nonlinear_arith)
                requires
                    p >= 0,
            ;
        }
        lemma_digits_val_prefix_le(s, i + 1);
    }
}

/// Every digit string has a non-negative value.
pub proof fn lemma_digits_val_nonneg(s: Seq<char>)
    requires
        all_digits(s),
    ensures
        digits_val(s) >= 0,
    decreases s.len(),
{
    if s.len() > 0 {
        assert(all_digits(s.drop_last())) by {
            assert(forall|i: int|
                0 <= i < s.len() - 1 ==> is_digit(#[trigger] s.drop_last()[i]) == is_digit(s[i]));
        }
        lemma_digits_val_nonneg(s.drop_last());
        assert(is_digit(s.last()));
        let p = digits_val(s.drop_last());
        assert(p * 10 >= 0) by (nonlinear_arith)
            requires
                p >= 0,
        ;
    }
}

/// The decimal form of a non-negative integer is one or more digits.
pub proof fn lemma_dec_nat_digits(n: int)
    requires
        n >= 0,
    ensures
        dec_nat(n).len() >= 1,
        all_digits(dec_nat(n)),
    decreases n,
{
    if n < 10 {
        assert(is_digit(digit_char(n)));
        assert(forall|i: int| 0 <= i < dec_nat(n).len() ==> is_digit(#[trigger] dec_nat(n)[i]));
    } else {
        lemma_dec_nat_digits(n / 10);
        let a = dec_nat(n / 10);
        let s = dec_nat(n);
        assert(s == a + seq![digit_char(n % 10)]);
        assert(is_digit(digit_char(n % 10)));
        assert(forall|i: int| 0 <= i < s.len() ==> is_digit(#[trigger] s[i])) by {
            assert(forall|i: int| 0 <= i < a.len() ==> #[trigger] s[i] == a[i]);
            assert(s[s.len() - 1] == digit_char(n % 10));
        }
    }
}

/// Rendering a non-negative integer and reading the digits back round-trips.
pub proof fn lemma_dec_nat_val(n: int)
    requires
        n >= 0,
    ensures
        digits_val(dec_nat(n)) == n,
    decreases n,
{
    if n < 10 {
        let s = dec_nat(n);
        assert(s =~= seq![digit_char(n)]);
        assert(s.len() == 1);
        assert(s.last() == digit_char(n));
        assert(s.drop_last() =~= Seq::<char>::empty());
        assert(digits_val(Seq::<char>::empty()) == 0);
        assert(digits_val(s) == digit_val(digit_char(n)));
        assert(digit_val(digit_char(n)) == n);
    } else {
        lemma_dec_nat_val(n / 10);
        let s = dec_nat(n);
        assert(s.drop_last() =~= dec_nat(n / 10));
        assert(s.last() == digit_char(n % 10));
        assert(digit_val(digit_char(n % 10)) == n % 10);
        vstd::arithmetic::div_mod::lemma_fundamental_div_mod(n, 10);
        assert(digits_val(s) == (n / 10) * 10 + n % 10);
    }
}

/// The decimal form of an in-range integer parses back to that integer, and
/// holds nothing but digits after an optional leading minus sign.
pub proof fn lemma_dec_int_parses(v: int)
    requires
        i32::MIN <= v <= i32::MAX,
    ensures
        parses_as_i32(dec_int(v)),
        int_str_val(dec_int(v)) == v,
        dec_int(v).len() >= 1,
        forall|i: int|
            0 <= i < dec_int(v).len() ==> is_digit(#[trigger] dec_int(v)[i]) || dec_int(v)[i]
                == '-',
        v >= 0 ==> all_digits(dec_int(v)),
{
    if v >= 0 {
        lemma_dec_nat_digits(v);
        lemma_dec_nat_val(v);
        let s = dec_int(v);
        assert(s == dec_nat(v));
        assert(is_digit(s[0]));
        assert(s[0] != '-' && s[0] != '+');
    } else {
        lemma_dec_nat_digits(-v);
        lemma_dec_nat_val(-v);
        let s = dec_int(v);
        assert(s == seq!['-'] + dec_nat(-v));
        assert(s[0] == '-');
        assert(s.drop_first() =~= dec_nat(-v));
        assert(forall|i: int| 0 <= i < s.len() ==> is_digit(#[trigger] s[i]) || s[i] == '-') by {
            assert(forall|i: int|
                1 <= i < s.len() ==> #[trigger] s[i] == dec_nat(-v)[i - 1] && is_digit(
                    dec_nat(-v)[i - 1],
                ));
        }
    }
}

/// Parses `s` exactly as `i32::from_str` does: `Some(v)` on a well-formed
/// in-range integer literal, `None` otherwise.
pub fn parse_i32(s: &str) -> (r: Option<i32>)
    ensures
        r is Some <==> parses_as_i32(s@),
        r matches Some(v) ==> v as int == int_str_val(s@),
{
    let n = s.unicode_len();
    if n == 0 {
        return None;
    }
    let c0 = s.get_char(0);
    let neg = c0 == '-';
    let signed = neg || c0 == '+';
    let start: usize = if signed {
        1
    } else {
        0
    };
    if start == n {
        // a bare sign has no digits
        return None;
    }
    let ghost digits = s@.subrange(start as int, n as int);
    let mut i = start;
    let mut acc: u64 = 0;
    while i < n
        invariant
            start <= i <= n,
            n == s@.len(),
            start == if signed { 1int } else { 0int },
            signed == (s@[0] == '-' || s@[0] == '+'),
            neg == (s@[0] == '-'),
            start < n,
            digits == s@.subrange(start as int, n as int),
            all_digits(s@.subrange(start as int, i as int)),
            acc as int == digits_val(s@.subrange(start as int, i as int)),
            acc <= 2147483648,
        decreases n - i,
    {
        let c = s.get_char(i);
        if c < '0' || c > '9' {
            // a non-digit after the sign: not an integer literal
            assert(!is_int_str(s@)) by {
                if signed {
                    assert(s@.drop_first()[i - 1] == s@[i as int]);
                    assert(!is_digit(s@.drop_first()[i - 1]));
                } else {
                    assert(!is_digit(s@[i as int]));
                }
            }
            return None;
        }
        let d: u64 = (c as u32 - '0' as u32) as u64;
        proof {
            let pre = s@.subrange(start as int, i as int);
            let ext = s@.subrange(start as int, i + 1);
            assert(ext.drop_last() =~= pre);
            assert(ext.last() == s@[i as int]);
        }
        acc = acc * 10 + d;
        i = i + 1;
        if acc > 2147483648 {
            // the magnitude already exceeds every i32; if the rest of the
            // string is digits the value only grows, and otherwise it is not
            // an integer literal at all
            proof {
                if is_int_str(s@) {
                    assert(all_digits(digits)) by {
                        if signed {
                            assert(forall|j: int|
                                0 <= j < digits.len()
                                    ==> digits[j] == #[trigger] s@.drop_first()[j]);
                        } else {
                            assert(digits =~= s@);
                        }
                    }
                    assert(s@.subrange(start as int, i as int) =~= digits.subrange(
                        0,
                        i - start,
                    ));
                    lemma_digits_val_nonneg(digits.subrange(0, i - start));
                    lemma_digits_val_prefix_le(digits, i - start);
                    assert(digits_val(digits) >= acc as int);
                    if neg {
                        assert(s@.drop_first() =~= digits);
                        assert(int_str_val(s@) == -digits_val(digits));
                        assert(int_str_val(s@) < i32::MIN);
                    } else if signed {
                        assert(s@.drop_first() =~= digits);
                        assert(int_str_val(s@) > i32::MAX);
                    } else {
                        assert(digits =~= s@);
                        assert(int_str_val(s@) > i32::MAX);
                    }
                }
            }
            return None;
        }
    }
    proof {
        assert(s@.subrange(start as int, i as int) =~= digits);
        if signed {
            assert(s@.drop_first() =~= digits);
        } else {
            assert(digits =~= s@);
        }
        lemma_digits_val_nonneg(digits);
    }
    if neg {
        if acc == 2147483648 {
            Some(i32::MIN)
        } else {
            Some(-(acc as i32))
        }
    } else {
        if acc == 2147483648 {
            assert(int_str_val(s@) > i32::MAX);
            None
        } else {
            Some(acc as i32)
        }
    }
}

/// Appends the digit character for `d` to `out`.
fn push_digit(out: &mut String, d: u32)
    requires
        0 <= d < 10,
    ensures
        final(out)@ == old(out)@ + seq![digit_char(d as int)],
{
    proof {
        reveal_strlit("0");
        reveal_strlit("1");
        reveal_strlit("2");
        reveal_strlit("3");
        reveal_strlit("4");
        reveal_strlit("5");
        reveal_strlit("6");
        reveal_strlit("7");
        reveal_strlit("8");
        reveal_strlit("9");
    }
    if d == 0 {
        out.append("0");
        assert(final(out)@ =~= old(out)@ + seq![digit_char(d as int)]);
    } else if d == 1 {
        out.append("1");
        assert(final(out)@ =~= old(out)@ + seq![digit_char(d as int)]);
    } else if d == 2 {
        out.append("2");
        assert(final(out)@ =~= old(out)@ + seq![digit_char(d as int)]);
    } else if d == 3 {
        out.append("3");
        assert(final(out)@ =~= old(out)@ + seq![digit_char(d as int)]);
    } else if d == 4 {
        out.append("4");
        assert(final(out)@ =~= old(out)@ + seq![digit_char(d as int)]);
    } else if d == 5 {
        out.append("5");
        assert(final(out)@ =~= old(out)@ + seq![digit_char(d as int)]);
    } else if d == 6 {
        out.append("6");
        assert(final(out)@ =~= old(out)@ + seq![digit_char(d as int)]);
    } else if d == 7 {
        out.append("7");
        assert(final(out)@ =~= old(out)@ + seq![digit_char(d as int)]);
    } else if d == 8 {
        out.append("8");
        assert(final(out)@ =~= old(out)@ + seq![digit_char(d as int)]);
    } else {
        out.append("9");
        assert(final(out)@ =~= old(out)@ + seq![digit_char(d as int)]);
    }
}

/// Appends the decimal form of `v` to `out`.
pub fn push_u32(out: &mut String, v: u32)
    ensures
        final(out)@ == old(out)@ + dec_nat(v as int),
    decreases v,
{
    if v >= 10 {
        push_u32(out, v / 10);
        push_digit(out, v % 10);
        assert(final(out)@ =~= old(out)@ + dec_nat(v as int));
    } else {
        push_digit(out, v);
    }
}

} // verus!
