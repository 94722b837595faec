//! Character-level string operations with exact specifications.

use vstd::prelude::*;
use vstd::string::StringExecFns;
use vstd::utf8::encode_utf8;

verus! {

/// Length of `s` in UTF-8 bytes.
pub open spec fn byte_len(s: Seq<char>) -> nat {
    encode_utf8(s).len()
}

/// Length of `s` in bytes.
pub fn byte_length(s: &str) -> (res: usize)
    ensures
        res == byte_len(s@),
{
    s.as_bytes().len()
}

/// `s` without any trailing occurrences of `c`.
pub open spec fn trimmed_end(s: Seq<char>, c: char) -> Seq<char>
    decreases s.len(),
{
    if s.len() > 0 && s.last() == c {
        trimmed_end(s.drop_last(), c)
    } else {
        s
    }
}

/// Removes every trailing `c` from `s`.
pub fn trim_end_char(s: &str, c: char) -> (res: &str)
    ensures
        res@ == trimmed_end(s@, c),
{
    let mut n: usize = s.unicode_len();
    assert(s@.take(n as int) == s@);
    while n > 0 && s.get_char(n - 1) == c
        invariant
            n <= s@.len(),
            trimmed_end(s@, c) == trimmed_end(s@.take(n as int), c),
        decreases n,
    {
        assert(s@.take(n as int).drop_last() == s@.take(n as int - 1));
        n = n - 1;
    }
    s.substring_char(0, n)
}

/// `s` ends with `suffix`.
pub open spec fn ends_with(s: Seq<char>, suffix: Seq<char>) -> bool {
    s.len() >= suffix.len() && s.skip(s.len() - suffix.len()) == suffix
}

/// `s` without any trailing repetitions of a non-empty `suffix`.
pub open spec fn trimmed_suffix(s: Seq<char>, suffix: Seq<char>) -> Seq<char>
    decreases s.len(),
{
    if suffix.len() > 0 && ends_with(s, suffix) {
        trimmed_suffix(s.take(s.len() - suffix.len()), suffix)
    } else {
        s
    }
}

/// What is left when the suffix is trimmed is a beginning of `s`.
pub proof fn lemma_trimmed_is_prefix(s: Seq<char>, suffix: Seq<char>)
    ensures
        trimmed_suffix(s, suffix).len() <= s.len(),
        trimmed_suffix(s, suffix) == s.take(trimmed_suffix(s, suffix).len() as int),
    decreases s.len(),
{
    if suffix.len() > 0 && ends_with(s, suffix) {
        let head = s.take(s.len() - suffix.len());
        lemma_trimmed_is_prefix(head, suffix);
        assert(head.take(trimmed_suffix(head, suffix).len() as int) == s.take(
            trimmed_suffix(head, suffix).len() as int,
        ));
    } else {
        assert(s.take(s.len() as int) == s);
    }
}

/// What is left when a non-empty suffix is trimmed does not end with it.
pub proof fn lemma_trimmed_has_no_suffix(s: Seq<char>, suffix: Seq<char>)
    requires
        suffix.len() > 0,
    ensures
        !ends_with(trimmed_suffix(s, suffix), suffix),
    decreases s.len(),
{
    if ends_with(s, suffix) {
        lemma_trimmed_has_no_suffix(s.take(s.len() - suffix.len()), suffix);
    }
}

/// Trimming twice is trimming once.
pub proof fn lemma_trimmed_twice(s: Seq<char>, suffix: Seq<char>)
    ensures
        trimmed_suffix(trimmed_suffix(s, suffix), suffix) == trimmed_suffix(s, suffix),
{
    if suffix.len() > 0 {
        lemma_trimmed_has_no_suffix(s, suffix);
    }
}

/// A suffix that is appended is trimmed again.
pub proof fn lemma_trimmed_of_appended(s: Seq<char>, suffix: Seq<char>)
    requires
        suffix.len() > 0,
    ensures
        trimmed_suffix(s + suffix, suffix) == trimmed_suffix(s, suffix),
{
    let whole = s + suffix;
    assert(whole.skip(whole.len() - suffix.len()) == suffix);
    assert(whole.take(whole.len() - suffix.len()) == s);
}

/// Whether the `pattern` stands in `s` at character `start`.
pub fn matches_at(s: &str, start: usize, pattern: &str) -> (res: bool)
    requires
        start + pattern@.len() <= s@.len(),
    ensures
        res == (s@.subrange(start as int, start + pattern@.len()) == pattern@),
{
    let m: usize = pattern.unicode_len();
    let len: usize = s.unicode_len();
    let mut i: usize = 0;
    while i < m
        invariant
            i <= m,
            m == pattern@.len(),
            start + m <= s@.len() == len,
            forall|j: int| 0 <= j < i ==> s@[start + j] == pattern@[j],
        decreases m - i,
    {
        if s.get_char(start + i) != pattern.get_char(i) {
            assert(s@.subrange(start as int, start + m)[i as int] != pattern@[i as int]);
            return false;
        }
        i = i + 1;
    }
    assert(s@.subrange(start as int, start + m) =~= pattern@);
    true
}

/// Whether two strings hold the same characters.
pub fn str_eq(a: &str, b: &str) -> (res: bool)
    ensures
        res == (a@ == b@),
{
    if a.unicode_len() != b.unicode_len() {
        return false;
    }
    assert(a@.subrange(0, b@.len() as int) == a@);
    matches_at(a, 0, b)
}

/// Removes every trailing repetition of `suffix` from `s`.
pub fn trim_end_str<'a>(s: &'a str, suffix: &str) -> (res: &'a str)
    ensures
        res@ == trimmed_suffix(s@, suffix@),
{
    let m: usize = suffix.unicode_len();
    let mut n: usize = s.unicode_len();
    if m == 0 {
        return s;
    }
    assert(s@.take(n as int) == s@);
    loop
        invariant
            m == suffix@.len(),
            m > 0,
            n <= s@.len(),
            trimmed_suffix(s@, suffix@) == trimmed_suffix(s@.take(n as int), suffix@),
        ensures
            n <= s@.len(),
            trimmed_suffix(s@, suffix@) == s@.take(n as int),
        decreases n,
    {
        let ghost head = s@.take(n as int);
        if n < m {
            break;
        }
        assert(head.skip(head.len() - m) == s@.subrange(n - m, n as int));
        if !matches_at(s, n - m, suffix) {
            break;
        }
        assert(head.take(head.len() - m) == s@.take(n - m));
        n = n - m;
    }
    s.substring_char(0, n)
}

/// The decimal digit for `d`.
pub open spec fn digit(d: nat) -> char {
    ('0' as u8 + d) as char
}

/// `n` in decimal, without sign or leading zeros.
pub open spec fn decimal(n: nat) -> Seq<char>
    decreases n,
{
    if n < 10 {
        seq![digit(n)]
    } else {
        decimal(n / 10).push(digit(n % 10))
    }
}

/// The digit `d` as a string of one character.
pub fn digit_text(d: u32) -> (res: &'static str)
    requires
        d < 10,
    ensures
        res@ == seq![digit(d as nat)],
{
    proof {
        reveal_strlit("0");
        reveal_strlit("1");
        reveal_strlit("2");
        reveal_strlit("3");
        reveal_strlit("4");
        reveal_strlit("5");
        reveal_strlit("6");
        reveal_strlit("7");
        reveal_strlit("8");
        reveal_strlit("9");
    }
    let res = if d == 0 {
        "0"
    } else if d == 1 {
        "1"
    } else if d == 2 {
        "2"
    } else if d == 3 {
        "3"
    } else if d == 4 {
        "4"
    } else if d == 5 {
        "5"
    } else if d == 6 {
        "6"
    } else if d == 7 {
        "7"
    } else if d == 8 {
        "8"
    } else {
        "9"
    };
    assert(res@ =~= seq![digit(d as nat)]);
    res
}

/// `n` in decimal: a minus sign where it is negative, then its magnitude.
pub open spec fn signed_decimal(n: int) -> Seq<char> {
    if n < 0 {
        seq!['-'] + decimal((-n) as nat)
    } else {
        decimal(n as nat)
    }
}

/// Writes `n` in decimal.
pub fn decimal_of(n: u128) -> (res: String)
    ensures
        res@ == decimal(n as nat),
    decreases n,
{
    if n < 10 {
        String::from_str(digit_text(n as u32))
    } else {
        let mut res = decimal_of(n / 10);
        res.append(digit_text((n % 10) as u32));
        res
    }
}

/// Writes `n` in decimal.
pub fn decimal_text(n: u32) -> (res: String)
    ensures
        res@ == decimal(n as nat),
{
    decimal_of(n as u128)
}

/// Writes `n` in decimal, with a minus sign where it is negative.
pub fn signed_text(n: i128) -> (res: String)
    ensures
        res@ == signed_decimal(n as int),
{
    if n < 0 {
        let magnitude: u128 = (-(n + 1)) as u128 + 1;
        let mut res = String::from_str("-");
        proof {
            reveal_strlit("-");
            assert("-"@ =~= seq!['-']);
        }
        let digits = decimal_of(magnitude);
        res.append(digits.as_str());
        res
    } else {
        decimal_of(n as u128)
    }
}

/// `true` or `false`, as a query value spells it.
pub open spec fn boolean(flag: bool) -> Seq<char> {
    if flag {
        "true"@
    } else {
        "false"@
    }
}

/// Writes `flag` as `true` or `false`.
pub fn boolean_text(flag: bool) -> (res: String)
    ensures
        res@ == boolean(flag),
{
    if flag {
        String::from_str("true")
    } else {
        String::from_str("false")
    }
}

} // verus!
