//! Character scanning over field strings: occurrence tests, separator
//! counting, and splitting on a separator character.

use vstd::prelude::*;

verus! {

/// How many times `c` occurs in `s`.
pub open spec fn count_of(s: Seq<char>, c: char) -> int
    decreases s.len(),
{
    if s.len() == 0 {
        0
    } else {
        (if s[0] == c {
            1int
        } else {
            0int
        }) + count_of(s.drop_first(), c)
    }
}

/// The tokens of `s` split on `sep`, as `str::split` yields them:
/// every maximal (possibly empty) run between separators, so the result
/// always holds one more token than `s` has separators.
pub open spec fn split_on(s: Seq<char>, sep: char) -> Seq<Seq<char>>
    decreases s.len(),
{
    if s.len() == 0 {
        seq![Seq::<char>::empty()]
    } else if s[0] == sep {
        seq![Seq::<char>::empty()] + split_on(s.drop_first(), sep)
    } else {
        let rest = split_on(s.drop_first(), sep);
        seq![seq![s[0]] + rest[0]] + rest.drop_first()
    }
}

/// Splitting yields at least one token.
pub proof fn lemma_split_len_pos(s: Seq<char>, sep: char)
    ensures
        split_on(s, sep).len() >= 1,
    decreases s.len(),
{
    if s.len() > 0 {
        lemma_split_len_pos(s.drop_first(), sep);
    }
}

/// Splitting yields one more token than there are separators.
pub proof fn lemma_split_count(s: Seq<char>, sep: char)
    ensures
        split_on(s, sep).len() == count_of(s, sep) + 1,
    decreases s.len(),
{
    if s.len() > 0 {
        lemma_split_count(s.drop_first(), sep);
        if s[0] != sep {
            lemma_split_len_pos(s.drop_first(), sep);
        }
    }
}

/// A string without the separator splits into itself alone.
pub proof fn lemma_split_no_sep(s: Seq<char>, sep: char)
    requires
        !s.contains(sep),
    ensures
        split_on(s, sep) == seq![s],
    decreases s.len(),
{
    if s.len() == 0 {
        assert(split_on(s, sep) =~~= seq![s]);
    } else {
        assert(s[0] != sep);
        assert(!s.drop_first().contains(sep)) by {
            if s.drop_first().contains(sep) {
                let j = choose|j: int|
                    0 <= j < s.drop_first().len() && s.drop_first()[j] == sep;
                assert(s[j + 1] == sep);
            }
        }
        lemma_split_no_sep(s.drop_first(), sep);
        let rest = split_on(s.drop_first(), sep);
        assert(rest[0] == s.drop_first());
        assert(seq![s[0]] + s.drop_first() =~= s);
        assert(split_on(s, sep) =~~= seq![s]);
    }
}

/// Splitting at the first separator occurrence: the head token is what
/// stands before it, and the rest is the split of what stands after it.
pub proof fn lemma_split_at_first(s: Seq<char>, sep: char, i: int)
    requires
        0 <= i < s.len(),
        s[i] == sep,
        forall|j: int| 0 <= j < i ==> s[j] != sep,
    ensures
        split_on(s, sep) == seq![s.subrange(0, i)] + split_on(
            s.subrange(i + 1, s.len() as int),
            sep,
        ),
    decreases i,
{
    if i == 0 {
        assert(s.subrange(0, 0) =~= Seq::<char>::empty());
        assert(s.subrange(1, s.len() as int) =~= s.drop_first());
        assert(split_on(s, sep) =~~= seq![s.subrange(0, 0)] + split_on(
            s.subrange(1, s.len() as int),
            sep,
        ));
    } else {
        let t = s.drop_first();
        assert(t[i - 1] == sep);
        assert(forall|j: int| 0 <= j < i - 1 ==> t[j] == #[trigger] s[j + 1] && s[j + 1] != sep);
        lemma_split_at_first(t, sep, i - 1);
        let rest = split_on(t, sep);
        assert(rest == seq![t.subrange(0, i - 1)] + split_on(t.subrange(i, t.len() as int), sep));
        lemma_split_len_pos(t.subrange(i, t.len() as int), sep);
        assert(rest[0] == t.subrange(0, i - 1));
        assert(seq![s[0]] + t.subrange(0, i - 1) =~= s.subrange(0, i));
        assert(rest.drop_first() =~= split_on(t.subrange(i, t.len() as int), sep));
        assert(t.subrange(i, t.len() as int) =~= s.subrange(i + 1, s.len() as int));
        assert(split_on(s, sep) =~~= seq![s.subrange(0, i)] + split_on(
            s.subrange(i + 1, s.len() as int),
            sep,
        ));
    }
}

/// A string free of `c` counts no occurrence of it.
pub proof fn lemma_no_contains_count_zero(s: Seq<char>, c: char)
    requires
        !s.contains(c),
    ensures
        count_of(s, c) == 0,
    decreases s.len(),
{
    if s.len() > 0 {
        assert(s[0] != c);
        assert(!s.drop_first().contains(c)) by {
            if s.drop_first().contains(c) {
                let j = choose|j: int|
                    0 <= j < s.drop_first().len() && s.drop_first()[j] == c;
                assert(s[j + 1] == c);
            }
        }
        lemma_no_contains_count_zero(s.drop_first(), c);
    }
}

/// A string with an occurrence of `c` counted somewhere contains `c`.
pub proof fn lemma_count_pos_contains(s: Seq<char>, c: char)
    requires
        count_of(s, c) > 0,
    ensures
        s.contains(c),
    decreases s.len(),
{
    if s.len() > 0 {
        if s[0] == c {
            assert(s.contains(c));
        } else {
            lemma_count_pos_contains(s.drop_first(), c);
            let j = choose|j: int| 0 <= j < s.drop_first().len() && s.drop_first()[j] == c;
            assert(s[j + 1] == c);
        }
    }
}

/// Two separator-free tokens around a single separator split back into
/// exactly those two tokens.
pub proof fn lemma_split_pair(a: Seq<char>, b: Seq<char>, sep: char)
    requires
        !a.contains(sep),
        !b.contains(sep),
    ensures
        split_on(a + seq![sep] + b, sep) == seq![a, b],
        count_of(a + seq![sep] + b, sep) == 1,
{
    let s = a + seq![sep] + b;
    let i = a.len() as int;
    assert(s[i] == sep);
    assert(forall|j: int| 0 <= j < i ==> s[j] != sep) by {
        assert(forall|j: int| 0 <= j < a.len() ==> #[trigger] a[j] != sep);
        assert(forall|j: int| 0 <= j < i ==> #[trigger] s[j] == a[j]);
    }
    lemma_split_at_first(s, sep, i);
    assert(s.subrange(0, i) =~= a);
    assert(s.subrange(i + 1, s.len() as int) =~= b);
    lemma_split_no_sep(b, sep);
    assert(split_on(s, sep) =~~= seq![a, b]);
    lemma_split_count(s, sep);
}

/// The index of the first occurrence of `c` in `s`, if any.
pub fn find_char(s: &str, c: char) -> (r: Option<usize>)
    ensures
        r matches Some(i) ==> i < s@.len() && s@[i as int] == c && (forall|j: int|
            0 <= j < i ==> s@[j] != c),
        r is None ==> !s@.contains(c),
{
    let n = s.unicode_len();
    let mut i: usize = 0;
    while i < n
        invariant
            i <= n,
            n == s@.len(),
            forall|j: int| 0 <= j < i ==> s@[j] != c,
        decreases n - i,
    {
        if s.get_char(i) == c {
            return Some(i);
        }
        i = i + 1;
    }
    None
}

/// Whether `c` occurs anywhere in `s`.
pub fn has_char(s: &str, c: char) -> (b: bool)
    ensures
        b == s@.contains(c),
{
    match find_char(s, c) {
        Some(i) => {
            assert(s@.contains(c)) by {
                assert(s@[i as int] == c);
            }
            true
        },
        None => false,
    }
}

/// Extending a string by one character adds that character's occurrences.
proof fn lemma_count_push(s: Seq<char>, x: char, c: char)
    ensures
        count_of(s.push(x), c) == count_of(s, c) + if x == c {
            1int
        } else {
            0int
        },
    decreases s.len(),
{
    if s.len() == 0 {
        assert(s.push(x)[0] == x);
        assert(s.push(x).drop_first() =~= Seq::<char>::empty());
        assert(count_of(s.push(x).drop_first(), c) == 0);
        assert(count_of(s.push(x), c) == (if x == c {
            1int
        } else {
            0int
        }));
        assert(count_of(s, c) == 0);
    } else {
        assert(s.push(x)[0] == s[0]);
        assert(s.push(x).drop_first() =~= s.drop_first().push(x));
        lemma_count_push(s.drop_first(), x, c);
        assert(count_of(s.push(x), c) == (if s[0] == c {
            1int
        } else {
            0int
        }) + count_of(s.drop_first().push(x), c));
    }
}

/// How many times `c` occurs in `s`.
pub fn count_char(s: &str, c: char) -> (n: usize)
    ensures
        n as int == count_of(s@, c),
{
    let len = s.unicode_len();
    let mut i: usize = 0;
    let mut n: usize = 0;
    while i < len
        invariant
            i <= len,
            n <= i,
            len == s@.len(),
            n as int == count_of(s@.subrange(0, i as int), c),
        decreases len - i,
    {
        proof {
            assert(s@.subrange(0, i + 1) =~= s@.subrange(0, i as int).push(s@[i as int]));
            lemma_count_push(s@.subrange(0, i as int), s@[i as int], c);
        }
        if s.get_char(i) == c {
            n = n + 1;
        }
        i = i + 1;
    }
    proof {
        assert(s@.subrange(0, len as int) =~= s@);
    }
    n
}

/// Splits `s` on `sep`, matching `split_on` token for token.
pub fn split_char(s: &str, sep: char) -> (parts: Vec<String>)
    ensures
        parts@.len() == split_on(s@, sep).len(),
        forall|j: int| 0 <= j < parts@.len() ==> parts@[j]@ == split_on(s@, sep)[j],
    decreases s@.len(),
{
    let n = s.unicode_len();
    match find_char(s, sep) {
        None => {
            proof {
                lemma_split_no_sep(s@, sep);
            }
            let mut parts: Vec<String> = Vec::new();
            parts.push(String::from_str(s));
            parts
        },
        Some(i) => {
            let head = s.substring_char(0, i);
            let tail = s.substring_char(i + 1, n);
            let mut rest = split_char(tail, sep);
            proof {
                lemma_split_at_first(s@, sep, i as int);
            }
            let mut parts: Vec<String> = Vec::new();
            parts.push(String::from_str(head));
            parts.append(&mut rest);
            parts
        },
    }
}

} // verus!
