//! Decimal numbers as text.
use crate::text::to_text;
use vstd::prelude::*;

verus! {

/// The decimal digits.
pub open spec fn is_digit(c: char) -> bool {
    '0' <= c <= '9'
}

/// What a decimal digit stands for.
pub open spec fn digit_value(c: char) -> nat {
    (c as u32 - '0' as u32) as nat
}

/// Whether `s` is made of digits.
pub open spec fn all_digits(s: Seq<char>) -> bool {
    forall|i: int| 0 <= i < s.len() ==> is_digit(#[trigger] s[i])
}

/// The number that the digits `s` stand for.
pub open spec fn digits_value(s: Seq<char>) -> nat
    decreases s.len(),
{
    if s.len() == 0 {
        0
    } else {
        digits_value(s.drop_last()) * 10 + digit_value(s.last())
    }
}

/// The digits of the text `s`: all of it, but for a sign `+` in front.
pub open spec fn unsigned_part(s: Seq<char>) -> Seq<char> {
    if s.len() > 0 && s[0] == '+' {
        s.skip(1)
    } else {
        s
    }
}

/// The number up to `max` that the text `s` stands for: at least one digit and nothing but digits,
/// after an optional `+`.
pub open spec fn decimal_value(s: Seq<char>, max: nat) -> Option<nat> {
    let d = unsigned_part(s);
    if d.len() > 0 && all_digits(d) && digits_value(d) <= max {
        Some(digits_value(d))
    } else {
        None
    }
}

/// The decimal digits of `n`, without leading zeros.
pub open spec fn digits_of(n: nat) -> Seq<char>
    decreases n,
{
    let last = ('0' as u32 + n % 10) as char;
    if n < 10 {
        seq![last]
    } else {
        digits_of(n / 10).push(last)
    }
}

proof fn lemma_value_grows(s: Seq<char>, n: int)
    requires
        0 <= n <= s.len(),
    ensures
        digits_value(s.take(n)) <= digits_value(s),
    decreases s.len(),
{
    if n == s.len() {
        assert(s.take(n) == s);
    } else {
        assert(s.drop_last().take(n) == s.take(n));
        lemma_value_grows(s.drop_last(), n);
    }
}

/// Parses a decimal number up to `max`.
pub fn parse_decimal(cs: &[char], max: u64) -> (r: Option<u64>)
    ensures
        match r {
            Some(v) => decimal_value(cs@, max as nat) == Some(v as nat),
            None => decimal_value(cs@, max as nat) is None,
        },
{
    let start: usize = if cs.len() > 0 && cs[0] == '+' {
        1
    } else {
        0
    };
    let ghost d = unsigned_part(cs@);
    assert(d == cs@.skip(start as int));
    if start == cs.len() {
        return None;
    }
    let mut value: u128 = 0;
    let mut i: usize = start;
    assert(d.take(0) == Seq::<char>::empty());
    while i < cs.len()
        invariant
            start <= i <= cs.len(),
            d == cs@.skip(start as int),
            d == unsigned_part(cs@),
            value <= max,
            value == digits_value(d.take(i - start)),
            forall|j: int| 0 <= j < i - start ==> is_digit(#[trigger] d[j]),
        decreases cs.len() - i,
    {
        let c: char = cs[i];
        assert(c == d[i - start]);
        if c < '0' || c > '9' {
            assert(!is_digit(d[i - start]));
            return None;
        }
        let digit: u32 = c as u32 - '0' as u32;
        value = value * 10 + digit as u128;
        assert(d.take(i - start + 1).drop_last() == d.take(i - start));
        if value > max as u128 {
            proof {
                lemma_value_grows(d, i - start + 1);
            }
            return None;
        }
        i = i + 1;
    }
    assert(d.take(i - start) == d);
    Some(value as u64)
}

proof fn lemma_digits_of(n: nat)
    ensures
        digits_of(n).len() > 0,
        all_digits(digits_of(n)),
        digits_value(digits_of(n)) == n,
    decreases n,
{
    let s = digits_of(n);
    let last = ('0' as u32 + n % 10) as char;
    assert(is_digit(last) && digit_value(last) == n % 10);
    if n >= 10 {
        lemma_digits_of(n / 10);
        assert(s.drop_last() == digits_of(n / 10));
        assert forall|i: int| 0 <= i < s.len() implies is_digit(#[trigger] s[i]) by {
            if i < s.len() - 1 {
                assert(s[i] == digits_of(n / 10)[i]);
            }
        }
    } else {
        assert(s.drop_last() == Seq::<char>::empty());
        assert(digits_value(s.drop_last()) == 0);
        assert(s.last() == last);
    }
}

/// A number that is written in decimal is read back, and holds digits only.
pub proof fn law_decimal_round_trip(n: nat, max: nat)
    requires
        n <= max,
    ensures
        decimal_value(digits_of(n), max) == Some(n),
        all_digits(digits_of(n)),
{
    lemma_digits_of(n);
    assert(is_digit(digits_of(n)[0]));
}

fn digit_char(d: u64) -> (c: char)
    requires
        d < 10,
    ensures
        c == ('0' as u32 + d as nat) as char,
{
    match d {
        0 => '0',
        1 => '1',
        2 => '2',
        3 => '3',
        4 => '4',
        5 => '5',
        6 => '6',
        7 => '7',
        8 => '8',
        _ => '9',
    }
}

/// Writes a number in decimal.
pub fn to_decimal(n: u64) -> (r: String)
    ensures
        r@ == digits_of(n as nat),
{
    let mut backwards: Vec<char> = Vec::new();
    let mut rest: u64 = n;
    assert(backwards@.reverse() == Seq::<char>::empty());
    assert(digits_of(n as nat) == digits_of(rest as nat) + backwards@.reverse());
    while rest >= 10
        invariant
            digits_of(n as nat) == digits_of(rest as nat) + backwards@.reverse(),
        decreases rest,
    {
        let c: char = digit_char(rest % 10);
        let ghost before = backwards@;
        backwards.push(c);
        assert(backwards@.reverse() == seq![c] + before.reverse());
        assert(digits_of((rest / 10) as nat).push(c) + before.reverse() == digits_of(
            (rest / 10) as nat,
        ) + (seq![c] + before.reverse()));
        rest = rest / 10;
    }
    let first: char = digit_char(rest);
    let ghost before = backwards@;
    backwards.push(first);
    assert(backwards@.reverse() == seq![first] + before.reverse());
    let mut forwards: Vec<char> = Vec::new();
    let mut i: usize = backwards.len();
    while i > 0
        invariant
            i <= backwards.len(),
            forwards@ == backwards@.reverse().take(backwards.len() - i),
        decreases i,
    {
        i = i - 1;
        forwards.push(backwards[i]);
        assert(backwards@.reverse().take(backwards.len() - i) == backwards@.reverse().take(
            backwards.len() - i - 1,
        ).push(backwards@[i as int]));
    }
    assert(forwards@ == backwards@.reverse());
    to_text(forwards.as_slice())
}

/// The digits of a number are read from the highest to the lowest, each by its place in `0` to `9`.
pub proof fn law_digits_count_in_tens(s: Seq<char>, c: char)
    requires
        '0' <= c <= '9',
    ensures
        digits_value(Seq::empty()) == 0,
        digits_value(s.push(c)) == 10 * digits_value(s) + (c as u32 - 48),
{
    assert(s.push(c).drop_last() == s);
}

/// A text is a number if and only if it holds digits alone, one or more, behind a plus sign if there is
/// one, and the number is not too large.
pub proof fn law_numbers_hold_digits_alone(s: Seq<char>, max: nat)
    ensures
        decimal_value(s, max) == (if s.len() > 0 && (forall|i: int|
            0 <= i < s.len() ==> '0' <= #[trigger] s[i] <= '9') && digits_value(s) <= max {
            Some(digits_value(s))
        } else if s.len() > 1 && s[0] == '+' && (forall|i: int|
            1 <= i < s.len() ==> '0' <= #[trigger] s[i] <= '9') && digits_value(s.skip(1)) <= max {
            Some(digits_value(s.skip(1)))
        } else {
            None
        }),
{
    if s.len() > 0 && s[0] == '+' {
        let d = s.skip(1);
        assert(!('0' <= s[0] <= '9'));
        if forall|i: int| 1 <= i < s.len() ==> '0' <= #[trigger] s[i] <= '9' {
            assert forall|i: int| 0 <= i < d.len() implies is_digit(#[trigger] d[i]) by {
                assert(d[i] == s[i + 1]);
            }
        }
        if all_digits(d) {
            assert forall|i: int| 1 <= i < s.len() implies '0' <= #[trigger] s[i] <= '9' by {
                assert(is_digit(d[i - 1]));
            }
        }
    } else {
        if all_digits(s) {
            assert forall|i: int| 0 <= i < s.len() implies '0' <= #[trigger] s[i] <= '9' by {
                assert(is_digit(s[i]));
            }
        }
    }
}

/// A number is written with its lowest digit last, and without leading zeros.
pub proof fn law_digits_are_written_in_tens(n: nat)
    ensures
        n < 10 ==> digits_of(n) == seq![('0' as u32 + n) as char],
        n >= 10 ==> digits_of(n) == digits_of(n / 10).push(('0' as u32 + n % 10) as char),
{
}

} // verus!
