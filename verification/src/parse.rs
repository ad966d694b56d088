//! Reading numbers and switches from text.

use vstd::prelude::*;
use vstd::string::*;

verus! {

// ─── Characters ─────────────────────────────────────────────────────────────

/// White space.
pub open spec fn is_white(c: char) -> bool {
    ||| '\u{9}' <= c <= '\u{d}'
    ||| c == ' '
    ||| c == '\u{85}'
    ||| c == '\u{a0}'
    ||| c == '\u{1680}'
    ||| '\u{2000}' <= c <= '\u{200a}'
    ||| c == '\u{2028}'
    ||| c == '\u{2029}'
    ||| c == '\u{202f}'
    ||| c == '\u{205f}'
    ||| c == '\u{3000}'
}

/// Whether a character is white space.
fn white(c: char) -> (r: bool)
    ensures
        r == is_white(c),
{
    ('\u{9}' <= c && c <= '\u{d}') || c == ' ' || c == '\u{85}' || c == '\u{a0}' || c == '\u{1680}'
        || ('\u{2000}' <= c && c <= '\u{200a}') || c == '\u{2028}' || c == '\u{2029}' || c
        == '\u{202f}' || c == '\u{205f}' || c == '\u{3000}'
}

/// A decimal digit.
pub open spec fn is_digit(c: char) -> bool {
    '0' <= c <= '9'
}

/// The value of a decimal digit.
pub open spec fn digit_value(c: char) -> nat {
    (c as nat - '0' as nat) as nat
}

/// The value of a decimal digit.
fn value_of_digit(c: char) -> (r: Option<u64>)
    ensures
        r == (if is_digit(c) {
            Some(digit_value(c) as u64)
        } else {
            None
        }),
        r matches Some(d) ==> d < 10 && d == digit_value(c),
{
    if '0' <= c && c <= '9' {
        Some((c as u64) - ('0' as u64))
    } else {
        None
    }
}

/// A letter in lower case, for letters of the alphabet without marks.
pub open spec fn lower(c: char) -> char {
    if 'A' <= c <= 'Z' {
        (c as u32 + 32) as char
    } else {
        c
    }
}

// ─── Text ───────────────────────────────────────────────────────────────────

/// The characters of a text.
pub fn chars_of(s: &str) -> (r: Vec<char>)
    ensures
        r@ == s@,
{
    let n = s.unicode_len();
    let mut out: Vec<char> = Vec::new();
    let mut i: usize = 0;
    while i < n
        invariant
            n == s@.len(),
            i <= n,
            out@ == s@.take(i as int),
        decreases n - i,
    {
        out.push(s.get_char(i));
        i += 1;
        assert(out@ =~= s@.take(i as int));
    }
    assert(out@ =~= s@);
    out
}

/// A part of a text.
pub fn part(s: &Vec<char>, from: usize, to: usize) -> (r: Vec<char>)
    requires
        from <= to <= s@.len(),
    ensures
        r@ == s@.subrange(from as int, to as int),
{
    let mut out: Vec<char> = Vec::new();
    let mut i: usize = from;
    while i < to
        invariant
            from <= i <= to <= s@.len(),
            out@ == s@.subrange(from as int, i as int),
        decreases to - i,
    {
        out.push(s[i]);
        i += 1;
        assert(out@ =~= s@.subrange(from as int, i as int));
    }
    out
}

/// Text without white space at its ends.
pub open spec fn trimmed(s: Seq<char>) -> Seq<char>
    decreases s.len(),
{
    if s.len() == 0 {
        s
    } else if is_white(s[0]) {
        trimmed(s.skip(1))
    } else if is_white(s.last()) {
        trimmed(s.drop_last())
    } else {
        s
    }
}

/// Text without white space at its ends.
pub fn trim(s: &Vec<char>) -> (r: Vec<char>)
    ensures
        r@ == trimmed(s@),
{
    let mut from: usize = 0;
    let mut to: usize = s.len();
    assert(s@.subrange(0, to as int) =~= s@);
    while from < to && white(s[from])
        invariant
            from <= to == s@.len(),
            trimmed(s@.subrange(from as int, to as int)) == trimmed(s@),
        decreases to - from,
    {
        proof {
            let t = s@.subrange(from as int, to as int);
            assert(t.skip(1) =~= s@.subrange(from as int + 1, to as int));
        }
        from += 1;
    }
    assert(from == to || !is_white(s@[from as int]));
    while from < to && white(s[to - 1])
        invariant
            from <= to <= s@.len(),
            from == to || !is_white(s@[from as int]),
            trimmed(s@.subrange(from as int, to as int)) == trimmed(s@),
        decreases to - from,
    {
        proof {
            let t = s@.subrange(from as int, to as int);
            assert(t.drop_last() =~= s@.subrange(from as int, to as int - 1));
            assert(t[0] == s@[from as int]);
            assert(t.last() == s@[to as int - 1]);
        }
        to -= 1;
    }
    proof {
        let t = s@.subrange(from as int, to as int);
        if from < to {
            assert(t[0] == s@[from as int]);
            assert(t.last() == s@[to as int - 1]);
        }
        assert(trimmed(t) == t);
    }
    part(s, from, to)
}

/// The texts are the same but for the case of letters without marks.
pub open spec fn same_letters(a: Seq<char>, b: Seq<char>) -> bool {
    a.len() == b.len() && forall|i: int| 0 <= i < a.len() ==> lower(#[trigger] a[i]) == lower(b[i])
}

/// A letter in lower case.
fn to_lower(c: char) -> (r: char)
    ensures
        r == lower(c),
{
    if 'A' <= c && c <= 'Z' {
        ((c as u8) + 32) as char
    } else {
        c
    }
}

/// Whether the texts are the same but for the case of letters without marks.
pub fn eq_ignore_case(a: &Vec<char>, b: &str) -> (r: bool)
    ensures
        r == same_letters(a@, b@),
{
    let n = b.unicode_len();
    if a.len() != n {
        return false;
    }
    let mut i: usize = 0;
    while i < n
        invariant
            n == a@.len() == b@.len(),
            i <= n,
            forall|k: int| 0 <= k < i ==> lower(#[trigger] a@[k]) == lower(b@[k]),
        decreases n - i,
    {
        if to_lower(a[i]) != to_lower(b.get_char(i)) {
            return false;
        }
        i += 1;
    }
    true
}

/// Whether the texts are the same.
pub fn eq_text(a: &Vec<char>, b: &str) -> (r: bool)
    ensures
        r == (a@ == b@),
{
    let n = b.unicode_len();
    if a.len() != n {
        return false;
    }
    let mut i: usize = 0;
    while i < n
        invariant
            n == a@.len() == b@.len(),
            i <= n,
            forall|k: int| 0 <= k < i ==> #[trigger] a@[k] == b@[k],
        decreases n - i,
    {
        if a[i] != b.get_char(i) {
            return false;
        }
        i += 1;
    }
    assert(a@ =~= b@);
    true
}

// ─── Numbers ────────────────────────────────────────────────────────────────

/// The number that digits stand for.
pub open spec fn number(s: Seq<char>) -> nat
    decreases s.len(),
{
    if s.len() == 0 {
        0
    } else {
        number(s.drop_last()) * 10 + digit_value(s.last())
    }
}

/// There are digits, and nothing else.
pub open spec fn all_digits(s: Seq<char>) -> bool {
    s.len() > 0 && forall|i: int| 0 <= i < s.len() ==> is_digit(#[trigger] s[i])
}

/// The number that a text of digits stands for, up to a limit.
pub open spec fn digits_up_to(s: Seq<char>, limit: nat) -> Option<nat> {
    if all_digits(s) && number(s) <= limit {
        Some(number(s))
    } else {
        None
    }
}

/// A text without a leading plus sign.
pub open spec fn without_plus(s: Seq<char>) -> Seq<char> {
    if s.len() > 0 && s[0] == '+' {
        s.skip(1)
    } else {
        s
    }
}

/// The number that a text stands for: digits, with a plus sign in front or not.
pub open spec fn parsed_u64(s: Seq<char>) -> Option<u64> {
    match digits_up_to(without_plus(s), u64::MAX as nat) {
        Some(n) => Some(n as u64),
        None => None,
    }
}

/// The number that a text stands for, with a sign in front or not.
pub open spec fn parsed_i32(s: Seq<char>) -> Option<i32> {
    if s.len() > 0 && s[0] == '-' {
        match digits_up_to(s.skip(1), 0x8000_0000) {
            Some(n) => Some((-(n as int)) as i32),
            None => None,
        }
    } else {
        match digits_up_to(without_plus(s), i32::MAX as nat) {
            Some(n) => Some(n as i32),
            None => None,
        }
    }
}

/// More digits make no smaller number.
proof fn lemma_number_grows(s: Seq<char>, i: int)
    requires
        0 <= i <= s.len(),
    ensures
        number(s.take(i)) <= number(s),
    decreases s.len(),
{
    if i < s.len() {
        lemma_number_grows(s.drop_last(), i);
        assert(s.drop_last().take(i) =~= s.take(i));
        assert(number(s.drop_last()) <= number(s));
    } else {
        assert(s.take(i) =~= s);
    }
}

/// The number that the digits from a place on stand for, up to a limit.
fn parse_digits(s: &Vec<char>, from: usize, limit: u64) -> (r: Option<u64>)
    requires
        from <= s@.len(),
    ensures
        match r {
            Some(n) => digits_up_to(s@.skip(from as int), limit as nat) == Some(n as nat),
            None => digits_up_to(s@.skip(from as int), limit as nat) is None,
        },
{
    let ghost t = s@.skip(from as int);
    if from == s.len() {
        return None;
    }
    let mut n: u64 = 0;
    let mut i: usize = from;
    assert(t.take(0) =~= Seq::empty());
    while i < s.len()
        invariant
            from <= i <= s@.len(),
            from < s@.len(),
            t == s@.skip(from as int),
            n == number(t.take(i - from)),
            n <= limit,
            forall|k: int| 0 <= k < i - from ==> is_digit(#[trigger] t[k]),
        decreases s@.len() - i,
    {
        let c = s[i];
        assert(t[i - from] == c);
        match value_of_digit(c) {
            None => {
                assert(!all_digits(t));
                return None;
            },
            Some(d) => {
                proof {
                    assert(t.take(i - from + 1).drop_last() =~= t.take(i - from));
                    assert(t.take(i - from + 1).last() == c);
                    lemma_number_grows(t, i - from + 1);
                }
                if n > limit / 10 {
                    return None;
                }
                let tens = n * 10;
                if d > limit - tens {
                    return None;
                }
                n = tens + d;
            },
        }
        i += 1;
    }
    assert(t.take(i - from) =~= t);
    Some(n)
}

/// The number that a text stands for: digits, with a plus sign in front or not.
pub fn parse_u64(s: &Vec<char>) -> (r: Option<u64>)
    ensures
        r == parsed_u64(s@),
{
    let from: usize = if s.len() > 0 && s[0] == '+' {
        1
    } else {
        0
    };
    assert(s@.skip(from as int) =~= without_plus(s@));
    parse_digits(s, from, u64::MAX)
}

/// The number that a text stands for, with a sign in front or not.
pub fn parse_i32(s: &Vec<char>) -> (r: Option<i32>)
    ensures
        r == parsed_i32(s@),
{
    if s.len() > 0 && s[0] == '-' {
        return match parse_digits(s, 1, 0x8000_0000) {
            Some(n) => Some((-(n as i64)) as i32),
            None => None,
        };
    }
    let from: usize = if s.len() > 0 && s[0] == '+' {
        1
    } else {
        0
    };
    assert(s@.skip(from as int) =~= without_plus(s@));
    match parse_digits(s, from, 0x7fff_ffff) {
        Some(n) => Some(n as i32),
        None => None,
    }
}

/// A text as characters.
pub open spec fn as_chars(s: Seq<u8>) -> Seq<char> {
    Seq::new(s.len(), |i: int| s[i] as char)
}

/// A number that was written in decimal reads back.
pub proof fn law_decimal_reads_back(n: u64)
    ensures
        parsed_u64(as_chars(crate::text::decimal(n as nat))) == Some(n),
{
    lemma_decimal_is_digits(n as nat);
    let s = as_chars(crate::text::decimal(n as nat));
    assert(is_digit(s[0]));
    assert(without_plus(s) == s);
}

/// Decimal digits are digits, and stand for the number.
pub proof fn lemma_decimal_is_digits(n: nat)
    ensures
        all_digits(as_chars(crate::text::decimal(n))),
        number(as_chars(crate::text::decimal(n))) == n,
    decreases n,
{
    let s = as_chars(crate::text::decimal(n));
    if n < 10 {
        assert(s.drop_last() =~= Seq::empty());
        assert(number(s.drop_last()) == 0);
        assert(s.last() == s[0]);
    } else {
        lemma_decimal_is_digits(n / 10);
        let t = as_chars(crate::text::decimal(n / 10));
        assert(s.drop_last() =~= t);
        assert forall|i: int| 0 <= i < s.len() implies is_digit(#[trigger] s[i]) by {
            if i < t.len() {
                assert(s[i] == t[i]);
            }
        }
    }
}

// ─── Switches ───────────────────────────────────────────────────────────────

/// A switch that is set to something else than off, zero, false or no.
pub open spec fn switched_on(s: Seq<char>) -> bool {
    let t = trimmed(s);
    &&& t.len() > 0
    &&& t != "0"@
    &&& !same_letters(t, "false"@)
    &&& !same_letters(t, "no"@)
}

/// Whether a switch is on. One that is not set is off.
pub fn enabled(value: Option<&str>) -> (r: bool)
    ensures
        r == (value matches Some(s) && switched_on(s@)),
{
    match value {
        Some(s) => {
            let t = trim(&chars_of(s));
            t.len() > 0 && !eq_text(&t, "0") && !eq_ignore_case(&t, "false") && !eq_ignore_case(
                &t,
                "no",
            )
        },
        None => false,
    }
}

/// A switch that is set to something else than off, zero, false or no, where
/// white space counts.
pub open spec fn switched_on_exactly(s: Seq<char>) -> bool {
    &&& s.len() > 0
    &&& !same_letters(s, "0"@)
    &&& !same_letters(s, "false"@)
    &&& !same_letters(s, "no"@)
}

/// Whether a switch is on, where white space counts. One that is not set is off.
pub fn enabled_exactly(value: Option<&str>) -> (r: bool)
    ensures
        r == (value matches Some(s) && switched_on_exactly(s@)),
{
    match value {
        Some(s) => {
            let t = chars_of(s);
            t.len() > 0 && !eq_ignore_case(&t, "0") && !eq_ignore_case(&t, "false")
                && !eq_ignore_case(&t, "no")
        },
        None => false,
    }
}

/// A number of bytes that is set, if it is a number.
pub open spec fn bytes_set(s: Seq<char>) -> Option<u64> {
    parsed_u64(trimmed(s))
}

/// A number of bytes that is set. One that is not a number counts as not set.
pub fn bytes(value: Option<&str>) -> (r: Option<u64>)
    ensures
        r == (match value {
            Some(s) => bytes_set(s@),
            None => None,
        }),
{
    match value {
        Some(s) => parse_u64(&trim(&chars_of(s))),
        None => None,
    }
}

} // verus!
