//! Character-level text helpers: prefix, suffix and substring search, and
//! decimal integers read from and written to text.

use vstd::prelude::*;
use vstd::string::*;

verus! {

/// `pat` occurs in `s` starting at position `i`.
pub open spec fn occurs_at(s: Seq<char>, pat: Seq<char>, i: int) -> bool {
    0 <= i && i + pat.len() <= s.len() && s.subrange(i, i + pat.len()) == pat
}

/// The first position at or after `i` where `pat` occurs in `s`.
pub open spec fn first_match_from(s: Seq<char>, pat: Seq<char>, i: int) -> Option<int>
    decreases s.len() + 1 - i,
{
    if i < 0 || i + pat.len() > s.len() {
        None
    } else if s.subrange(i, i + pat.len()) == pat {
        Some(i)
    } else {
        first_match_from(s, pat, i + 1)
    }
}

pub open spec fn is_prefix(pat: Seq<char>, s: Seq<char>) -> bool {
    occurs_at(s, pat, 0)
}

pub open spec fn is_suffix(pat: Seq<char>, s: Seq<char>) -> bool {
    occurs_at(s, pat, s.len() - pat.len())
}

pub open spec fn is_digit(c: char) -> bool {
    48 <= (c as u32) <= 57
}

pub open spec fn digit_value(c: char) -> nat {
    ((c as u32) - 48) as nat
}

pub open spec fn all_digits(s: Seq<char>) -> bool {
    forall|i: int| 0 <= i < s.len() ==> is_digit(#[trigger] s[i])
}

/// The number that a run of decimal digits denotes.
pub open spec fn digits_value(s: Seq<char>) -> nat
    decreases s.len(),
{
    if s.len() == 0 {
        0
    } else {
        digits_value(s.drop_last()) * 10 + digit_value(s.last())
    }
}

/// The value of `s` from position `start` on, when that rest is one or more
/// decimal digits.
pub open spec fn digits_from(s: Seq<char>, start: int) -> Option<nat> {
    let body = s.subrange(start, s.len() as int);
    if 0 <= start < s.len() && all_digits(body) {
        Some(digits_value(body))
    } else {
        None
    }
}

/// Text of an unsigned integer: an optional `+`, then one or more digits.
pub open spec fn unsigned_text(s: Seq<char>) -> Option<nat> {
    if s.len() > 0 && s[0] == '+' {
        digits_from(s, 1)
    } else {
        digits_from(s, 0)
    }
}

/// Text of a signed integer: an optional `-` or `+`, then one or more digits.
pub open spec fn signed_text(s: Seq<char>) -> Option<int> {
    if s.len() > 0 && s[0] == '-' {
        match digits_from(s, 1) {
            Some(v) => Some(-v),
            None => None,
        }
    } else {
        match unsigned_text(s) {
            Some(v) => Some(v as int),
            None => None,
        }
    }
}

pub open spec fn as_u64(v: Option<nat>) -> Option<u64> {
    match v {
        Some(n) => if n <= u64::MAX {
            Some(n as u64)
        } else {
            None
        },
        None => None,
    }
}

pub open spec fn as_i64(v: Option<int>) -> Option<i64> {
    match v {
        Some(n) => if i64::MIN <= n <= i64::MAX {
            Some(n as i64)
        } else {
            None
        },
        None => None,
    }
}

pub open spec fn digit_char(d: nat) -> char {
    seq!['0', '1', '2', '3', '4', '5', '6', '7', '8', '9'][d as int]
}

/// The decimal text of `n`, without leading zeros.
pub open spec fn decimal_text(n: nat) -> Seq<char>
    decreases n,
{
    if n < 10 {
        seq![digit_char(n)]
    } else {
        decimal_text(n / 10).push(digit_char(n % 10))
    }
}

/// Whether `pat` occurs in `s` at position `i`.
pub fn occurs_at_pos(s: &str, pat: &str, i: usize) -> (r: bool)
    ensures
        r == occurs_at(s@, pat@, i as int),
{
    let n = s.unicode_len();
    let m = pat.unicode_len();
    if m > n || i > n - m {
        return false;
    }
    let mut k: usize = 0;
    while k < m
        invariant
            n == s@.len(),
            m == pat@.len(),
            i + m <= n,
            k <= m,
            forall|j: int| 0 <= j < k ==> s@[i + j] == pat@[j],
        decreases m - k,
    {
        if s.get_char(i + k) != pat.get_char(k) {
            assert(s@.subrange(i as int, i + m)[k as int] != pat@[k as int]);
            return false;
        }
        k = k + 1;
    }
    assert(s@.subrange(i as int, i + m) =~= pat@);
    true
}

/// Whether `s` begins with `pat`.
pub fn starts_with(s: &str, pat: &str) -> (r: bool)
    ensures
        r == is_prefix(pat@, s@),
{
    occurs_at_pos(s, pat, 0)
}

/// Whether `s` ends with `pat`.
pub fn ends_with(s: &str, pat: &str) -> (r: bool)
    ensures
        r == is_suffix(pat@, s@),
{
    let n = s.unicode_len();
    let m = pat.unicode_len();
    if m > n {
        return false;
    }
    occurs_at_pos(s, pat, n - m)
}

/// Whether the two texts are equal, character by character.
pub fn same_text(a: &str, b: &str) -> (r: bool)
    ensures
        r == (a@ == b@),
{
    let n = a.unicode_len();
    if n != b.unicode_len() {
        return false;
    }
    assert(a@.subrange(0, n as int) =~= a@);
    occurs_at_pos(a, b, 0)
}

/// The first position at or after `start` where `pat` occurs in `s`.
pub fn find_from(s: &str, pat: &str, start: usize) -> (r: Option<usize>)
    ensures
        match r {
            Some(i) => first_match_from(s@, pat@, start as int) == Some(i as int) && start <= i
                && i + pat@.len() <= s@.len(),
            None => first_match_from(s@, pat@, start as int) is None,
        },
{
    let n = s.unicode_len();
    let m = pat.unicode_len();
    if m > n {
        return None;
    }
    if start > n - m {
        return None;
    }
    let mut i: usize = start;
    while i <= n - m
        invariant
            n == s@.len(),
            m == pat@.len(),
            m <= n,
            start <= i <= n,
            first_match_from(s@, pat@, start as int) == first_match_from(s@, pat@, i as int),
        decreases n - i,
    {
        if occurs_at_pos(s, pat, i) {
            return Some(i);
        }
        assert(m > 0) by {
            if m == 0 {
                assert(s@.subrange(i as int, i as int) =~= pat@);
            }
        }
        i = i + 1;
    }
    None
}

proof fn lemma_prefix_value_le(s: Seq<char>, k: int)
    requires
        0 <= k <= s.len(),
    ensures
        digits_value(s.subrange(0, k)) <= digits_value(s),
    decreases s.len(),
{
    if k < s.len() {
        lemma_prefix_value_le(s.drop_last(), k);
        assert(s.drop_last().subrange(0, k) =~= s.subrange(0, k));
    } else {
        assert(s.subrange(0, k) =~= s);
    }
}

/// Reads `s` from position `start` on as one or more decimal digits.
pub fn parse_digits_from(s: &str, start: usize) -> (r: Option<u64>)
    ensures
        r == as_u64(digits_from(s@, start as int)),
{
    let n = s.unicode_len();
    if start >= n {
        return None;
    }
    let ghost body = s@.subrange(start as int, n as int);
    let mut acc: u64 = 0;
    let mut i: usize = start;
    while i < n
        invariant
            n == s@.len(),
            start < n,
            start <= i <= n,
            body == s@.subrange(start as int, n as int),
            all_digits(body.subrange(0, i - start)),
            acc as nat == digits_value(body.subrange(0, i - start)),
        decreases n - i,
    {
        let c = s.get_char(i);
        let code = c as u32;
        if code < 48 || code > 57 {
            assert(body[i - start] == c);
            return None;
        }
        let d = (code - 48) as u64;
        let ghost next = body.subrange(0, i + 1 - start);
        assert(next.drop_last() =~= body.subrange(0, i - start));
        assert(next.last() == c);
        assert(all_digits(next)) by {
            assert forall|j: int| 0 <= j < next.len() implies is_digit(#[trigger] next[j]) by {
                if j < next.len() - 1 {
                    assert(next[j] == body.subrange(0, i - start)[j]);
                }
            }
        }
        match acc.checked_mul(10) {
            Some(t) => match t.checked_add(d) {
                Some(v) => {
                    acc = v;
                },
                None => {
                    proof {
                        if all_digits(body) {
                            lemma_prefix_value_le(body, i + 1 - start);
                        }
                    }
                    return None;
                },
            },
            None => {
                proof {
                    if all_digits(body) {
                        lemma_prefix_value_le(body, i + 1 - start);
                    }
                }
                return None;
            },
        }
        i = i + 1;
    }
    assert(body.subrange(0, n - start) =~= body);
    Some(acc)
}

/// Reads `s` as an unsigned integer: an optional `+`, then decimal digits.
pub fn parse_u64(s: &str) -> (r: Option<u64>)
    ensures
        r == as_u64(unsigned_text(s@)),
{
    if s.unicode_len() > 0 && s.get_char(0) == '+' {
        parse_digits_from(s, 1)
    } else {
        parse_digits_from(s, 0)
    }
}

/// Reads `s` as a signed integer: an optional `-` or `+`, then decimal digits.
pub fn parse_i64(s: &str) -> (r: Option<i64>)
    ensures
        r == as_i64(signed_text(s@)),
{
    if s.unicode_len() > 0 && s.get_char(0) == '-' {
        match parse_digits_from(s, 1) {
            Some(m) => {
                if m <= 9223372036854775807 {
                    Some(-(m as i64))
                } else if m == 9223372036854775808 {
                    Some(i64::MIN)
                } else {
                    None
                }
            },
            None => {
                proof {
                    let v = digits_from(s@, 1);
                    if v is Some {
                        assert(v->0 > u64::MAX);
                    }
                }
                None
            },
        }
    } else {
        match parse_u64(s) {
            Some(v) => {
                if v <= 9223372036854775807 {
                    Some(v as i64)
                } else {
                    None
                }
            },
            None => None,
        }
    }
}

/// Appends the decimal text of `n` to `out`.
pub fn push_decimal(out: &mut String, n: u128)
    ensures
        final(out)@ == old(out)@ + decimal_text(n as nat),
    decreases n,
{
    if n >= 10 {
        push_decimal(out, n / 10);
    }
    let d = (n % 10) as usize;
    let digits = "0123456789";
    proof {
        reveal_strlit("0123456789");
        assert(digits@ =~= seq!['0', '1', '2', '3', '4', '5', '6', '7', '8', '9']);
    }
    let one = digits.substring_char(d, d + 1);
    assert(one@ =~= seq![digit_char(d as nat)]);
    out.append(one);
    proof {
        if n >= 10 {
            assert(decimal_text(n as nat) == decimal_text((n / 10) as nat).push(digit_char((n % 10) as nat)));
        }
    }
    assert(final(out)@ =~= old(out)@ + decimal_text(n as nat));
}

pub open spec fn hex_digit(d: nat) -> char {
    seq!['0', '1', '2', '3', '4', '5', '6', '7', '8', '9', 'a', 'b', 'c', 'd', 'e', 'f'][d as int]
}

/// How one character is written inside a JSON string: quote and backslash
/// behind a backslash, newline, carriage return and tab by their short
/// escapes, other characters below U+0020 as `\u00XX`, the rest as they are.
pub open spec fn json_escape_char(c: char) -> Seq<char> {
    if c == '"' {
        seq!['\\', '"']
    } else if c == '\\' {
        seq!['\\', '\\']
    } else if c == '\n' {
        seq!['\\', 'n']
    } else if c == '\r' {
        seq!['\\', 'r']
    } else if c == '\t' {
        seq!['\\', 't']
    } else if (c as u32) < 32 {
        seq!['\\', 'u', '0', '0', hex_digit(((c as u32) / 16) as nat), hex_digit(((c as u32) % 16) as nat)]
    } else {
        seq![c]
    }
}

/// The body of a JSON string (without its quotes) that denotes `s`.
pub open spec fn json_string_body(s: Seq<char>) -> Seq<char>
    decreases s.len(),
{
    if s.len() == 0 {
        Seq::empty()
    } else {
        json_string_body(s.drop_last()) + json_escape_char(s.last())
    }
}

fn push_json_escaped_char(out: &mut String, s: &str, i: usize)
    requires
        i < s@.len() <= usize::MAX,
    ensures
        final(out)@ == old(out)@ + json_escape_char(s@[i as int]),
{
    let c = s.get_char(i);
    if c == '"' {
        proof { reveal_strlit("\\\""); }
        out.append("\\\"");
    } else if c == '\\' {
        proof { reveal_strlit("\\\\"); }
        out.append("\\\\");
    } else if c == '\n' {
        proof { reveal_strlit("\\n"); }
        out.append("\\n");
    } else if c == '\r' {
        proof { reveal_strlit("\\r"); }
        out.append("\\r");
    } else if c == '\t' {
        proof { reveal_strlit("\\t"); }
        out.append("\\t");
    } else if (c as u32) < 32 {
        let code = c as u32;
        let hi = (code / 16) as usize;
        let lo = (code % 16) as usize;
        let digits = "0123456789abcdef";
        proof {
            reveal_strlit("\\u00");
            reveal_strlit("0123456789abcdef");
            assert(digits@ =~= seq!['0', '1', '2', '3', '4', '5', '6', '7', '8', '9', 'a', 'b', 'c', 'd', 'e', 'f']);
        }
        out.append("\\u00");
        let h = digits.substring_char(hi, hi + 1);
        assert(h@ =~= seq![hex_digit(hi as nat)]);
        out.append(h);
        let l = digits.substring_char(lo, lo + 1);
        assert(l@ =~= seq![hex_digit(lo as nat)]);
        out.append(l);
    } else {
        let one = s.substring_char(i, i + 1);
        assert(one@ =~= seq![c]);
        out.append(one);
    }
    assert(final(out)@ =~= old(out)@ + json_escape_char(s@[i as int]));
}

/// Appends `s` written as the body of a JSON string.
pub fn push_json_string_body(out: &mut String, s: &str)
    ensures
        final(out)@ == old(out)@ + json_string_body(s@),
{
    let n = s.unicode_len();
    let ghost start = out@;
    let mut i: usize = 0;
    assert(s@.subrange(0, 0) =~= Seq::<char>::empty());
    while i < n
        invariant
            n == s@.len(),
            i <= n,
            out@ == start + json_string_body(s@.subrange(0, i as int)),
        decreases n - i,
    {
        push_json_escaped_char(out, s, i);
        let ghost next = s@.subrange(0, i + 1);
        assert(next.drop_last() =~= s@.subrange(0, i as int));
        assert(next.last() == s@[i as int]);
        assert(out@ =~= start + json_string_body(next));
        i = i + 1;
    }
    assert(s@.subrange(0, n as int) =~= s@);
}

} // verus!
