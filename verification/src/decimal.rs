//! Decimal numbers as text: seconds with a fraction, read as whole
//! microseconds or rounded up to whole seconds.

use vstd::prelude::*;
use crate::json::DecimalText;
use crate::text::{chars_of, decimal, decimal_chars, digit_char, digit_of, string_of};

verus! {

/// The largest number of microseconds that is kept; larger ones are cut here.
pub const MAX_MICROS: i64 = 0x7fff_ffff_ffff_ffff;

/// One of the ten digits.
pub open spec fn is_digit(c: char) -> bool {
    '0' <= c <= '9'
}

/// The number that a digit stands for.
pub open spec fn digit_value(c: char) -> int {
    c as int - '0' as int
}

/// Every character of `s` is a digit.
pub open spec fn all_digits(s: Seq<char>) -> bool {
    forall|i: int| 0 <= i < s.len() ==> is_digit(#[trigger] s[i])
}

/// The number that a run of digits writes.
pub open spec fn digits_value(s: Seq<char>) -> nat
    decreases s.len(),
{
    if s.len() == 0 {
        0
    } else {
        (digits_value(s.drop_last()) * 10 + digit_value(s.last())) as nat
    }
}

/// How many digits stand at the start of `s`.
pub open spec fn digit_run(s: Seq<char>) -> nat
    decreases s.len(),
{
    if s.len() > 0 && is_digit(s[0]) {
        1 + digit_run(s.drop_first())
    } else {
        0
    }
}

/// The parts of a decimal number: its sign, the digits before the point and
/// the digits behind it.
pub struct DecimalParts {
    pub negative: bool,
    pub whole: Seq<char>,
    pub fraction: Seq<char>,
}

/// The digits before and behind the point of an unsigned decimal number:
/// digits, then optionally a point and more digits, with at least one digit
/// in all. Anything else is no number.
pub open spec fn unsigned_parts(body: Seq<char>) -> Option<(Seq<char>, Seq<char>)> {
    let n = digit_run(body) as int;
    let whole = body.take(n);
    let rest = body.skip(n);
    if rest.len() == 0 {
        if n > 0 {
            Some((whole, Seq::<char>::empty()))
        } else {
            None
        }
    } else if rest[0] == '.' && all_digits(rest.skip(1)) && n + rest.len() - 1 > 0 {
        Some((whole, rest.skip(1)))
    } else {
        None
    }
}

/// The parts of a decimal number that may begin with a sign.
pub open spec fn decimal_parts(s: Seq<char>) -> Option<DecimalParts> {
    let signed = s.len() > 0 && (s[0] == '-' || s[0] == '+');
    let body = if signed {
        s.skip(1)
    } else {
        s
    };
    match unsigned_parts(body) {
        Some((whole, fraction)) => Some(
            DecimalParts { negative: signed && s[0] == '-', whole, fraction },
        ),
        None => None,
    }
}

/// The first six digits behind the point as a number of microseconds.
pub open spec fn fraction_micros(fraction: Seq<char>) -> nat {
    if fraction.len() >= 6 {
        digits_value(fraction.take(6))
    } else {
        digits_value(fraction + Seq::new((6 - fraction.len()) as nat, |i: int| '0'))
    }
}

/// Seconds written as a decimal number, in whole microseconds: what lies
/// behind the sixth digit of the fraction is dropped, and a magnitude above
/// the largest kept is cut to it.
pub open spec fn text_micros(s: Seq<char>) -> Option<int> {
    match decimal_parts(s) {
        Some(parts) => {
            let exact = digits_value(parts.whole) * 1_000_000 + fraction_micros(parts.fraction);
            let magnitude = if exact > MAX_MICROS {
                MAX_MICROS as int
            } else {
                exact as int
            };
            Some(
                if parts.negative {
                    -magnitude
                } else {
                    magnitude
                },
            )
        },
        None => None,
    }
}

/// Some digit of `s` is not zero.
pub open spec fn has_nonzero(s: Seq<char>) -> bool {
    exists|i: int| 0 <= i < s.len() && #[trigger] s[i] != '0'
}

/// An unsigned decimal number rounded up to the next whole number, cut to
/// what sixty-four bits hold.
pub open spec fn text_ceiling(s: Seq<char>) -> Option<int> {
    match unsigned_parts(s) {
        Some((whole, fraction)) => {
            let exact = digits_value(whole) + if has_nonzero(fraction) {
                1int
            } else {
                0int
            };
            Some(
                if exact > u64::MAX {
                    u64::MAX as int
                } else {
                    exact
                },
            )
        },
        None => None,
    }
}

/// Whether a character is a digit.
pub fn char_is_digit(c: char) -> (r: bool)
    ensures
        r == is_digit(c),
{
    '0' <= c && c <= '9'
}

/// The number that a digit stands for.
pub(crate) fn digit_number(c: char) -> (d: u8)
    requires
        is_digit(c),
    ensures
        d == digit_value(c),
        d < 10,
{
    (c as u32 - '0' as u32) as u8
}

/// How many digits stand in `chars` from `from` on.
pub(crate) fn count_digits(chars: &Vec<char>, from: usize) -> (n: usize)
    requires
        from <= chars.len(),
    ensures
        n == digit_run(chars@.skip(from as int)),
        from + n <= chars.len(),
{
    let mut i: usize = from;
    while i < chars.len() && char_is_digit(chars[i])
        invariant
            from <= i <= chars.len(),
            digit_run(chars@.skip(from as int)) == (i - from) + digit_run(chars@.skip(i as int)),
        decreases chars.len() - i,
    {
        assert(chars@.skip(i as int).drop_first() =~= chars@.skip(i + 1));
        assert(chars@.skip(i as int)[0] == chars@[i as int]);
        i += 1;
    }
    proof {
        if i < chars.len() {
            assert(chars@.skip(i as int)[0] == chars@[i as int]);
        }
    }
    i - from
}

/// Whether `chars` holds only digits from `from` on.
pub(crate) fn only_digits(chars: &Vec<char>, from: usize) -> (r: bool)
    requires
        from <= chars.len(),
    ensures
        r == all_digits(chars@.skip(from as int)),
{
    let mut i: usize = from;
    while i < chars.len()
        invariant
            from <= i <= chars.len(),
            forall|k: int| from <= k < i ==> is_digit(#[trigger] chars@[k]),
        decreases chars.len() - i,
    {
        if !char_is_digit(chars[i]) {
            assert(chars@.skip(from as int)[i - from] == chars@[i as int]);
            return false;
        }
        i += 1;
    }
    assert forall|k: int| 0 <= k < chars@.skip(from as int).len() implies is_digit(
        #[trigger] chars@.skip(from as int)[k],
    ) by {
        assert(chars@.skip(from as int)[k] == chars@[from + k]);
    }
    true
}

/// The number written by the digits of `chars` from `from` up to `to`, cut
/// to `cap`.
pub(crate) fn read_digits(chars: &Vec<char>, from: usize, to: usize, cap: u64) -> (v: u64)
    requires
        from <= to <= chars.len(),
        all_digits(chars@.subrange(from as int, to as int)),
    ensures
        v == if digits_value(chars@.subrange(from as int, to as int)) > cap {
            cap as nat
        } else {
            digits_value(chars@.subrange(from as int, to as int))
        },
{
    let mut v: u128 = 0;
    let mut i: usize = from;
    while i < to
        invariant
            from <= i <= to <= chars.len(),
            all_digits(chars@.subrange(from as int, to as int)),
            v <= cap,
            v == if digits_value(chars@.subrange(from as int, i as int)) > cap {
                cap as nat
            } else {
                digits_value(chars@.subrange(from as int, i as int))
            },
        decreases to - i,
    {
        let ghost before = chars@.subrange(from as int, i as int);
        let ghost after = chars@.subrange(from as int, i + 1);
        assert(after.drop_last() =~= before);
        assert(after.last() == chars@[i as int]);
        assert(chars@.subrange(from as int, to as int)[i - from] == chars@[i as int]);
        let d = digit_number(chars[i]);
        let next = v * 10 + d as u128;
        v = if next > cap as u128 {
            cap as u128
        } else {
            next
        };
        i += 1;
    }
    v as u64
}

/// The digits at the start of `s` are digits, and what follows them is none.
pub proof fn lemma_digit_run(s: Seq<char>)
    ensures
        digit_run(s) <= s.len(),
        all_digits(s.take(digit_run(s) as int)),
        digit_run(s) < s.len() ==> !is_digit(s[digit_run(s) as int]),
    decreases s.len(),
{
    if s.len() > 0 && is_digit(s[0]) {
        let t = s.drop_first();
        lemma_digit_run(t);
        let n = digit_run(s) as int;
        assert forall|i: int| 0 <= i < s.take(n).len() implies is_digit(#[trigger] s.take(n)[i]) by {
            if i > 0 {
                assert(s.take(n)[i] == t.take(n - 1)[i - 1]);
            }
        }
        if n < s.len() {
            assert(s[n] == t[n - 1]);
        }
    }
}

/// Where the digits before the point end and where those behind it begin,
/// for the unsigned decimal number that `chars` holds from `from` on.
pub(crate) fn split_unsigned(chars: &Vec<char>, from: usize) -> (r: Option<(usize, usize)>)
    requires
        from <= chars.len(),
    ensures
        match r {
            Some((whole_end, fraction_start)) => {
                &&& from <= whole_end <= fraction_start <= chars.len()
                &&& all_digits(chars@.subrange(from as int, whole_end as int))
                &&& all_digits(chars@.subrange(fraction_start as int, chars.len() as int))
                &&& unsigned_parts(chars@.skip(from as int)) == Some(
                    (
                        chars@.subrange(from as int, whole_end as int),
                        chars@.subrange(fraction_start as int, chars.len() as int),
                    ),
                )
            },
            None => unsigned_parts(chars@.skip(from as int)) is None,
        },
{
    let n = count_digits(chars, from);
    let len = chars.len();
    let ghost body = chars@.skip(from as int);
    proof {
        lemma_digit_run(body);
        assert(body.take(n as int) =~= chars@.subrange(from as int, from + n));
        assert(body.skip(n as int) =~= chars@.skip(from + n));
    }
    if from + n == len {
        if n > 0 {
            assert(chars@.subrange(len as int, len as int) =~= Seq::<char>::empty());
            Some((from + n, len))
        } else {
            None
        }
    } else {
        assert(body.skip(n as int)[0] == chars@[from + n]);
        assert(body.skip(n as int).skip(1) =~= chars@.skip(from + n + 1));
        assert(chars@.skip(from + n + 1) =~= chars@.subrange(from + n + 1, len as int));
        if chars[from + n] == '.' && only_digits(chars, from + n + 1) && len - from > 1 {
            Some((from + n, from + n + 1))
        } else {
            None
        }
    }
}

/// Microseconds as the number of seconds that a JSON document holds.
pub fn seconds_number(m: i64) -> (out: DecimalText)
    ensures
        out@ == micros_decimal(m as int),
{
    DecimalText::from_number_text(micros_text(m))
}

/// Ten to the power `k`, for the six places behind the point.
pub open spec fn ten_to(k: int) -> int {
    if k <= 0 {
        1
    } else if k == 1 {
        10
    } else if k == 2 {
        100
    } else if k == 3 {
        1_000
    } else if k == 4 {
        10_000
    } else if k == 5 {
        100_000
    } else {
        1_000_000
    }
}

/// The first six digits of `chars` from `from` on as microseconds.
pub(crate) fn read_fraction(chars: &Vec<char>, from: usize) -> (v: u64)
    requires
        from <= chars.len(),
        all_digits(chars@.skip(from as int)),
    ensures
        v == fraction_micros(chars@.skip(from as int)),
        v < 1_000_000,
{
    let ghost fraction = chars@.skip(from as int);
    let ghost padded = if fraction.len() >= 6 {
        fraction.take(6)
    } else {
        fraction + Seq::new((6 - fraction.len()) as nat, |i: int| '0')
    };
    let mut v: u64 = 0;
    let mut k: usize = 0;
    let mut bound: u64 = 1;
    while k < 6
        invariant
            k <= 6,
            from <= chars.len(),
            fraction == chars@.skip(from as int),
            all_digits(fraction),
            padded.len() == 6,
            forall|i: int| 0 <= i < 6 ==> padded[i] == if i < fraction.len() {
                fraction[i]
            } else {
                '0'
            },
            v == digits_value(padded.take(k as int)),
            v < bound,
            bound == ten_to(k as int),
        decreases 6 - k,
    {
        let d: u8 = if k < chars.len() - from {
            assert(fraction[k as int] == chars@[from + k]);
            digit_number(chars[from + k])
        } else {
            0
        };
        assert(d == digit_value(padded[k as int]));
        assert(padded.take(k + 1).drop_last() =~= padded.take(k as int));
        assert(padded.take(k + 1).last() == padded[k as int]);
        v = v * 10 + d as u64;
        bound = bound * 10;
        k += 1;
    }
    assert(padded.take(6) =~= padded);
    v
}

/// Whether some character of `chars` from `from` on is not a zero.
pub(crate) fn any_nonzero(chars: &Vec<char>, from: usize) -> (r: bool)
    requires
        from <= chars.len(),
    ensures
        r == has_nonzero(chars@.skip(from as int)),
{
    let mut i: usize = from;
    while i < chars.len()
        invariant
            from <= i <= chars.len(),
            forall|k: int| from <= k < i ==> chars@[k] == '0',
        decreases chars.len() - i,
    {
        if chars[i] != '0' {
            assert(chars@.skip(from as int)[i - from] != '0');
            return true;
        }
        i += 1;
    }
    assert forall|k: int| 0 <= k < chars@.skip(from as int).len() implies #[trigger] chars@.skip(
        from as int,
    )[k] == '0' by {
        assert(chars@.skip(from as int)[k] == chars@[from + k]);
    }
    false
}

/// Seconds written as a decimal number, in whole microseconds.
pub fn parse_micros(text: &str) -> (r: Option<i64>)
    ensures
        match r {
            Some(v) => text_micros(text@) == Some(v as int),
            None => text_micros(text@) is None,
        },
{
    let chars = chars_of(text);
    let signed = chars.len() > 0 && (chars[0] == '-' || chars[0] == '+');
    let from: usize = if signed {
        1
    } else {
        0
    };
    assert(chars@.skip(0) =~= chars@);
    match split_unsigned(&chars, from) {
        Some((whole_end, fraction_start)) => {
            assert(chars@.subrange(fraction_start as int, chars.len() as int) =~= chars@.skip(
                fraction_start as int,
            ));
            let whole = read_digits(&chars, from, whole_end, 9_223_372_036_855);
            let fraction = read_fraction(&chars, fraction_start);
            let exact: u128 = whole as u128 * 1_000_000 + fraction as u128;
            let magnitude: i64 = if exact > 0x7fff_ffff_ffff_ffff {
                0x7fff_ffff_ffff_ffff
            } else {
                exact as i64
            };
            if signed && chars[0] == '-' {
                Some(-magnitude)
            } else {
                Some(magnitude)
            }
        },
        None => None,
    }
}

/// An unsigned decimal number rounded up to the next whole number.
pub fn parse_ceiling(chars: &Vec<char>) -> (r: Option<u64>)
    ensures
        match r {
            Some(v) => text_ceiling(chars@) == Some(v as int),
            None => text_ceiling(chars@) is None,
        },
{
    assert(chars@.skip(0) =~= chars@);
    match split_unsigned(chars, 0) {
        Some((whole_end, fraction_start)) => {
            assert(chars@.subrange(fraction_start as int, chars.len() as int) =~= chars@.skip(
                fraction_start as int,
            ));
            let whole = read_digits(chars, 0, whole_end, 0xffff_ffff_ffff_ffff);
            let extra = any_nonzero(chars, fraction_start);
            if extra && whole < 0xffff_ffff_ffff_ffff {
                Some(whole + 1)
            } else {
                Some(whole)
            }
        },
        None => None,
    }
}

/// The six digits that write a number below one million, with leading zeros.
pub open spec fn six_digits(n: int) -> Seq<char> {
    seq![
        digit_char(n / 100_000 % 10),
        digit_char(n / 10_000 % 10),
        digit_char(n / 1_000 % 10),
        digit_char(n / 100 % 10),
        digit_char(n / 10 % 10),
        digit_char(n % 10),
    ]
}

/// Microseconds written as seconds with six digits behind the point.
pub open spec fn micros_decimal(m: int) -> Seq<char> {
    let magnitude = if m < 0 {
        -m
    } else {
        m
    };
    let sign = if m < 0 {
        seq!['-']
    } else {
        Seq::<char>::empty()
    };
    sign + decimal((magnitude / 1_000_000) as nat) + seq!['.'] + six_digits(magnitude % 1_000_000)
}

/// Microseconds written as seconds with six digits behind the point.
pub fn micros_text(m: i64) -> (out: String)
    ensures
        out@ == micros_decimal(m as int),
{
    let magnitude: u64 = if m < 0 {
        if m == -0x8000_0000_0000_0000 {
            0x8000_0000_0000_0000
        } else {
            (-m) as u64
        }
    } else {
        m as u64
    };
    let mut chars: Vec<char> = Vec::new();
    if m < 0 {
        chars.push('-');
    }
    let ghost sign = chars@;
    let whole = decimal_chars(magnitude / 1_000_000);
    let mut i: usize = 0;
    while i < whole.len()
        invariant
            i <= whole.len(),
            chars@ == sign + whole@.take(i as int),
        decreases whole.len() - i,
    {
        chars.push(whole[i]);
        assert(sign + whole@.take(i + 1) =~= (sign + whole@.take(i as int)).push(whole@[i as int]));
        i += 1;
    }
    assert(whole@.take(whole.len() as int) =~= whole@);
    let f = magnitude % 1_000_000;
    chars.push('.');
    chars.push(digit_of((f / 100_000 % 10) as u8));
    chars.push(digit_of((f / 10_000 % 10) as u8));
    chars.push(digit_of((f / 1_000 % 10) as u8));
    chars.push(digit_of((f / 100 % 10) as u8));
    chars.push(digit_of((f / 10 % 10) as u8));
    chars.push(digit_of((f % 10) as u8));
    assert(chars@ =~= micros_decimal(m as int));
    string_of(&chars)
}

/// A whole number written with an optional sign and at least one digit,
/// where it lies within the signed sixty-four-bit range.
pub open spec fn text_integer(s: Seq<char>) -> Option<int> {
    let signed = s.len() > 0 && (s[0] == '-' || s[0] == '+');
    let body = if signed {
        s.skip(1)
    } else {
        s
    };
    let value = if signed && s[0] == '-' {
        -(digits_value(body) as int)
    } else {
        digits_value(body) as int
    };
    if body.len() > 0 && all_digits(body) && i64::MIN <= value <= i64::MAX {
        Some(value)
    } else {
        None
    }
}

/// Reads a whole number.
pub fn parse_i64(text: &str) -> (r: Option<i64>)
    ensures
        match r {
            Some(v) => text_integer(text@) == Some(v as int),
            None => text_integer(text@) is None,
        },
{
    let chars = chars_of(text);
    let signed = chars.len() > 0 && (chars[0] == '-' || chars[0] == '+');
    let from: usize = if signed {
        1
    } else {
        0
    };
    assert(chars@.skip(0) =~= chars@);
    assert(chars@.skip(from as int) =~= chars@.subrange(from as int, chars.len() as int));
    if chars.len() == from || !only_digits(&chars, from) {
        return None;
    }
    let magnitude = read_digits(&chars, from, chars.len(), 0x8000_0000_0000_0001);
    if signed && chars[0] == '-' {
        if magnitude > 0x8000_0000_0000_0000 {
            None
        } else if magnitude == 0x8000_0000_0000_0000 {
            Some(-0x8000_0000_0000_0000)
        } else {
            Some(-(magnitude as i64))
        }
    } else if magnitude > 0x7fff_ffff_ffff_ffff {
        None
    } else {
        Some(magnitude as i64)
    }
}

/// The digit that writes `d` stands for `d`.
proof fn lemma_digit_char(d: int)
    requires
        0 <= d < 10,
    ensures
        is_digit(digit_char(d)),
        digit_value(digit_char(d)) == d,
{
}

/// The decimal digits of a number are digits, and they write that number.
pub proof fn lemma_decimal(n: nat)
    ensures
        decimal(n).len() >= 1,
        all_digits(decimal(n)),
        digits_value(decimal(n)) == n,
    decreases n,
{
    if n < 10 {
        lemma_digit_char(n as int);
        let s = decimal(n);
        assert(s.drop_last() =~= Seq::<char>::empty());
        assert(digits_value(s.drop_last()) == 0);
    } else {
        lemma_decimal(n / 10);
        lemma_digit_char((n % 10) as int);
        let s = decimal(n);
        assert(s.drop_last() =~= decimal(n / 10));
        assert forall|i: int| 0 <= i < s.len() implies is_digit(#[trigger] s[i]) by {
            if i < s.len() - 1 {
                assert(s[i] == decimal(n / 10)[i]);
            }
        }
    }
}

/// Digits followed by something that is no digit: the run of digits is
/// exactly those digits.
proof fn lemma_digit_run_of(digits: Seq<char>, rest: Seq<char>)
    requires
        all_digits(digits),
        rest.len() == 0 || !is_digit(rest[0]),
    ensures
        digit_run(digits + rest) == digits.len(),
    decreases digits.len(),
{
    let s = digits + rest;
    if digits.len() == 0 {
        assert(s =~= rest);
    } else {
        assert(s[0] == digits[0]);
        let tail = digits.drop_first();
        assert forall|i: int| 0 <= i < tail.len() implies is_digit(#[trigger] tail[i]) by {
            assert(tail[i] == digits[i + 1]);
        }
        lemma_digit_run_of(tail, rest);
        assert(s.drop_first() =~= tail + rest);
    }
}

/// Six digits write the number below one million that they were made from.
proof fn lemma_six_digits(f: int)
    requires
        0 <= f < 1_000_000,
    ensures
        six_digits(f).len() == 6,
        all_digits(six_digits(f)),
        digits_value(six_digits(f)) == f,
{
    let s = six_digits(f);
    lemma_digit_char(f / 100_000 % 10);
    lemma_digit_char(f / 10_000 % 10);
    lemma_digit_char(f / 1_000 % 10);
    lemma_digit_char(f / 100 % 10);
    lemma_digit_char(f / 10 % 10);
    lemma_digit_char(f % 10);
    let s5 = s.drop_last();
    let s4 = s5.drop_last();
    let s3 = s4.drop_last();
    let s2 = s3.drop_last();
    let s1 = s2.drop_last();
    let s0 = s1.drop_last();
    assert(s0 =~= Seq::<char>::empty());
    assert(digits_value(s0) == 0);
    assert(s1.last() == s[0]);
    assert(digits_value(s1) == f / 100_000 % 10);
    assert(s2.last() == s[1]);
    assert(digits_value(s2) == (f / 100_000 % 10) * 10 + f / 10_000 % 10);
    assert(digits_value(s2) == f / 10_000);
    assert(s3.last() == s[2]);
    assert(digits_value(s3) == f / 1_000);
    assert(s4.last() == s[3]);
    assert(digits_value(s4) == f / 100);
    assert(s5.last() == s[4]);
    assert(digits_value(s5) == f / 10);
    assert(s.last() == s[5]);
    assert(digits_value(s) == f);
}

/// Microseconds that are written as seconds read back as the same
/// microseconds, as long as their magnitude is one that is kept.
pub proof fn lemma_micros_round_trip(m: int)
    requires
        -MAX_MICROS <= m <= MAX_MICROS,
    ensures
        text_micros(micros_decimal(m)) == Some(m),
{
    let magnitude = if m < 0 {
        -m
    } else {
        m
    };
    let w = (magnitude / 1_000_000) as nat;
    let f = magnitude % 1_000_000;
    let digits = decimal(w);
    let six = six_digits(f);
    lemma_decimal(w);
    lemma_six_digits(f);
    let rest = seq!['.'] + six;
    let body = digits + rest;
    let s = micros_decimal(m);
    assert(rest[0] == '.');
    lemma_digit_run_of(digits, rest);
    assert(body.take(digits.len() as int) =~= digits);
    assert(body.skip(digits.len() as int) =~= rest);
    assert(rest.skip(1) =~= six);
    assert(unsigned_parts(body) == Some((digits, six)));
    assert(six.take(6) =~= six);
    assert(fraction_micros(six) == f);
    if m < 0 {
        assert(s =~= seq!['-'] + body);
        assert(s[0] == '-');
        assert(s.skip(1) =~= body);
    } else {
        assert(s =~= body);
        assert(s[0] == digits[0]);
        assert(is_digit(s[0]));
    }
}

} // verus!
