//! Parsing of signed, unit-suffixed time-adjustment strings such as
//! `"30s"`, `"+10m"` or `"-2d"` into a signed duration value.

use vstd::prelude::*;
use vstd::string::StrSliceExecFns;
use crate::weekday::is_dec_digit;

verus! {

broadcast use vstd::seq_lib::group_filter_ensures;

/// One of the five supported time units.
#[derive(Clone, Copy, Debug, PartialEq, Eq, Structural)]
pub enum TimeUnit {
    Seconds,
    Minutes,
    Hours,
    Days,
    Weeks,
}

/// The number of seconds that one of the given unit spans.
pub open spec fn spec_unit_seconds(u: TimeUnit) -> int {
    match u {
        TimeUnit::Seconds => 1,
        TimeUnit::Minutes => 60,
        TimeUnit::Hours => 3600,
        TimeUnit::Days => 86400,
        TimeUnit::Weeks => 604800,
    }
}

/// A signed time adjustment: a magnitude in one unit, negative when the
/// input carried a leading minus sign.
#[derive(Clone, Copy, Debug, PartialEq, Eq, Structural)]
pub struct Adjustment {
    pub value: i64,
    pub unit: TimeUnit,
}

/// The cause for rejecting an adjustment string.
#[derive(Clone, Copy, Debug, PartialEq, Eq, Structural)]
pub enum AdjustError {
    /// The input was empty.
    Empty,
    /// The input held no decimal digit.
    MissingNumber,
    /// The digit run does not fit a 64-bit signed magnitude.
    InvalidNumber,
    /// The non-digit remainder is not one of the five unit letters.
    UnknownUnit,
}

/// The numeric value of a run of decimal digits, most significant first.
pub open spec fn digits_value(s: Seq<char>) -> int
    decreases s.len(),
{
    if s.len() == 0 {
        0
    } else {
        10 * digits_value(s.drop_last()) + (s.last() as int - '0' as int)
    }
}

/// The unit selected by a single unit letter.
pub open spec fn spec_unit_of_char(c: char) -> Option<TimeUnit> {
    if c == 's' {
        Some(TimeUnit::Seconds)
    } else if c == 'm' {
        Some(TimeUnit::Minutes)
    } else if c == 'h' {
        Some(TimeUnit::Hours)
    } else if c == 'd' {
        Some(TimeUnit::Days)
    } else if c == 'w' {
        Some(TimeUnit::Weeks)
    } else {
        None
    }
}

/// The unit selected by the collected run of non-digit characters: exactly
/// one character, and one of the five unit letters.
pub open spec fn spec_unit_of(s: Seq<char>) -> Option<TimeUnit> {
    if s.len() == 1 {
        spec_unit_of_char(s[0])
    } else {
        None
    }
}

/// Splits an optional leading sign off the input: the remaining body, and
/// whether the sign was a minus.
pub open spec fn spec_sign_split(s: Seq<char>) -> (bool, Seq<char>) {
    if s.len() > 0 && s[0] == '-' {
        (true, s.skip(1))
    } else if s.len() > 0 && s[0] == '+' {
        (false, s.skip(1))
    } else {
        (false, s)
    }
}

/// What parsing an adjustment string yields: after the optional sign, the
/// digits and the non-digits of the body are collected independently; the
/// digits give the magnitude and the non-digits must name a single unit.
pub open spec fn spec_parse_adjustment(s: Seq<char>) -> Result<Adjustment, AdjustError> {
    if s.len() == 0 {
        Err(AdjustError::Empty)
    } else {
        let (negative, body) = spec_sign_split(s);
        let digits = body.filter(|c: char| is_dec_digit(c));
        let units = body.filter(|c: char| !is_dec_digit(c));
        if digits.len() == 0 {
            Err(AdjustError::MissingNumber)
        } else if digits_value(digits) > i64::MAX {
            Err(AdjustError::InvalidNumber)
        } else {
            match spec_unit_of(units) {
                Some(u) => Ok(
                    Adjustment {
                        value: (if negative {
                            -digits_value(digits)
                        } else {
                            digits_value(digits)
                        }) as i64,
                        unit: u,
                    },
                ),
                None => Err(AdjustError::UnknownUnit),
            }
        }
    }
}

/// Appending one character to a sequence extends its filtered image by that
/// character exactly when the character satisfies the predicate.
proof fn lemma_filter_push(s: Seq<char>, pred: spec_fn(char) -> bool, c: char)
    ensures
        s.push(c).filter(pred) == if pred(c) {
            s.filter(pred).push(c)
        } else {
            s.filter(pred)
        },
{
    reveal(Seq::filter);
    assert(s.push(c).drop_last() =~= s);
    assert(s.push(c).last() == c);
}

/// A run of decimal digits has a nonnegative numeric value.
proof fn lemma_digits_value_nonneg(s: Seq<char>)
    requires
        forall|j: int| 0 <= j < s.len() ==> is_dec_digit(#[trigger] s[j]),
    ensures
        digits_value(s) >= 0,
    decreases s.len(),
{
    if s.len() > 0 {
        lemma_digits_value_nonneg(s.drop_last());
    }
}

/// The value of a digit run grows by one decimal place per appended digit.
proof fn lemma_digits_value_push(s: Seq<char>, c: char)
    ensures
        digits_value(s.push(c)) == 10 * digits_value(s) + (c as int - '0' as int),
{
    assert(s.push(c).drop_last() =~= s);
    assert(s.push(c).last() == c);
}

/// Parse a time adjustment string like "1m", "-30s", "2d".
/// An optional sign is followed by a digit run (the magnitude) and a unit
/// letter among `s`, `m`, `h`, `d`, `w`; digits and non-digits may be
/// interleaved, each run being collected independently.
pub fn parse_time_adjustment(adj: &str) -> (r: Result<Adjustment, AdjustError>)
    ensures
        r == spec_parse_adjustment(adj@),
{
    let n = adj.unicode_len();
    if n == 0 {
        return Err(AdjustError::Empty);
    }
    let first = adj.get_char(0);
    let (negative, start): (bool, usize) = if first == '-' {
        (true, 1)
    } else if first == '+' {
        (false, 1)
    } else {
        (false, 0)
    };
    let ghost body = spec_sign_split(adj@).1;
    proof {
        assert(negative == spec_sign_split(adj@).0);
        assert(body =~= adj@.skip(start as int));
    }

    let mut value: i64 = 0;
    let mut overflow = false;
    let mut digit_count: usize = 0;
    let mut unit_count: usize = 0;
    let mut unit_char: char = ' ';
    let mut i: usize = start;
    proof {
        assert(adj@.subrange(start as int, start as int) =~= Seq::<char>::empty());
        reveal(Seq::filter);
    }
    while i < n
        invariant
            n == adj@.len(),
            start <= i <= n,
            body == adj@.skip(start as int),
            ({
                let prefix = adj@.subrange(start as int, i as int);
                let digits = prefix.filter(|c: char| is_dec_digit(c));
                let units = prefix.filter(|c: char| !is_dec_digit(c));
                &&& digit_count == digits.len()
                &&& unit_count == units.len()
                &&& (unit_count >= 1 ==> unit_char == units[0])
                &&& (!overflow ==> value == digits_value(digits) && value >= 0)
                &&& (overflow ==> digits_value(digits) > i64::MAX)
            }),
        decreases n - i,
    {
        let ghost prefix = adj@.subrange(start as int, i as int);
        let ghost old_digits = prefix.filter(|c: char| is_dec_digit(c));
        let c = adj.get_char(i);
        proof {
            assert(adj@.subrange(start as int, i + 1) =~= prefix.push(c));
            lemma_filter_push(prefix, |x: char| is_dec_digit(x), c);
            lemma_filter_push(prefix, |x: char| !is_dec_digit(x), c);
            assert(forall|j: int|
                0 <= j < old_digits.len() ==> is_dec_digit(#[trigger] old_digits[j]));
            lemma_digits_value_nonneg(old_digits);
        }
        if '0' <= c && c <= '9' {
            proof {
                lemma_digits_value_push(old_digits, c);
            }
            digit_count = digit_count + 1;
            let d = c as u32 - 48;
            if !overflow {
                match value.checked_mul(10) {
                    Some(v10) => {
                        match v10.checked_add(d as i64) {
                            Some(v) => {
                                value = v;
                            },
                            None => {
                                overflow = true;
                            },
                        }
                    },
                    None => {
                        overflow = true;
                    },
                }
            }
        } else {
            unit_count = unit_count + 1;
            if unit_count == 1 {
                unit_char = c;
            }
        }
        i = i + 1;
    }
    let ghost digits = body.filter(|c: char| is_dec_digit(c));
    let ghost units = body.filter(|c: char| !is_dec_digit(c));
    proof {
        assert(adj@.subrange(start as int, n as int) =~= body);
    }
    if digit_count == 0 {
        return Err(AdjustError::MissingNumber);
    }
    if overflow {
        return Err(AdjustError::InvalidNumber);
    }
    let unit = if unit_count == 1 {
        if unit_char == 's' {
            Some(TimeUnit::Seconds)
        } else if unit_char == 'm' {
            Some(TimeUnit::Minutes)
        } else if unit_char == 'h' {
            Some(TimeUnit::Hours)
        } else if unit_char == 'd' {
            Some(TimeUnit::Days)
        } else if unit_char == 'w' {
            Some(TimeUnit::Weeks)
        } else {
            None
        }
    } else {
        None
    };
    match unit {
        Some(u) => {
            let signed_value = if negative {
                -value
            } else {
                value
            };
            Ok(Adjustment { value: signed_value, unit: u })
        },
        None => Err(AdjustError::UnknownUnit),
    }
}

/// The character of a single decimal digit value.
pub open spec fn spec_digit_char(d: int) -> char {
    if d == 0 {
        '0'
    } else if d == 1 {
        '1'
    } else if d == 2 {
        '2'
    } else if d == 3 {
        '3'
    } else if d == 4 {
        '4'
    } else if d == 5 {
        '5'
    } else if d == 6 {
        '6'
    } else if d == 7 {
        '7'
    } else if d == 8 {
        '8'
    } else {
        '9'
    }
}

/// The decimal digit string of a nonnegative number, most significant
/// digit first, without a sign and without leading zeros beyond the
/// single digit of zero itself.
pub open spec fn spec_decimal_digits(n: int) -> Seq<char>
    recommends
        n >= 0,
    decreases n,
{
    if n < 10 {
        seq![spec_digit_char(n)]
    } else {
        spec_decimal_digits(n / 10).push(spec_digit_char(n % 10))
    }
}

/// A decimal digit string consists of decimal digits and is never empty.
proof fn lemma_decimal_digits_are_digits(n: int)
    requires
        n >= 0,
    ensures
        spec_decimal_digits(n).len() >= 1,
        forall|j: int|
            0 <= j < spec_decimal_digits(n).len() ==> is_dec_digit(
                #[trigger] spec_decimal_digits(n)[j],
            ),
    decreases n,
{
    if n >= 10 {
        lemma_decimal_digits_are_digits(n / 10);
    }
}

/// The decimal digit string of a number has that number as its value.
proof fn lemma_decimal_digits_value(n: int)
    requires
        n >= 0,
    ensures
        digits_value(spec_decimal_digits(n)) == n,
    decreases n,
{
    if n < 10 {
        let s = seq![spec_digit_char(n)];
        assert(s.drop_last() =~= Seq::<char>::empty());
        assert(digits_value(Seq::<char>::empty()) == 0);
        assert(s.last() == spec_digit_char(n));
        assert(spec_digit_char(n) as int - '0' as int == n);
        assert(digits_value(s) == n);
    } else {
        lemma_decimal_digits_value(n / 10);
        lemma_digits_value_push(spec_decimal_digits(n / 10), spec_digit_char(n % 10));
    }
}

/// A sequence all of whose characters are digits filters to itself under
/// the digit predicate, and to the empty sequence under its negation.
proof fn lemma_filter_all_digits(s: Seq<char>)
    requires
        forall|j: int| 0 <= j < s.len() ==> is_dec_digit(#[trigger] s[j]),
    ensures
        s.filter(|c: char| is_dec_digit(c)) == s,
        s.filter(|c: char| !is_dec_digit(c)) == Seq::<char>::empty(),
    decreases s.len(),
{
    reveal(Seq::filter);
    if s.len() > 0 {
        lemma_filter_all_digits(s.drop_last());
        assert(s.drop_last().push(s.last()) =~= s);
    }
}

/// Round trip of sign and magnitude (law): for every representable
/// magnitude `n` and every unit letter `u` among the five supported ones,
/// parsing the decimal form of `n` followed by `u` yields the positive
/// adjustment of `n` in that unit; a leading minus sign yields its
/// negation; and a leading plus sign parses exactly as the unsigned form.
pub proof fn lemma_parse_adjustment_round_trip(n: int, u: char, unit: TimeUnit)
    requires
        0 <= n <= i64::MAX,
        spec_unit_of_char(u) == Some(unit),
    ensures
        spec_parse_adjustment(spec_decimal_digits(n).push(u)) == Ok::<Adjustment, AdjustError>(
            Adjustment { value: n as i64, unit },
        ),
        spec_parse_adjustment(seq!['-'] + spec_decimal_digits(n).push(u)) == Ok::<
            Adjustment,
            AdjustError,
        >(Adjustment { value: (-n) as i64, unit }),
        spec_parse_adjustment(seq!['+'] + spec_decimal_digits(n).push(u))
            == spec_parse_adjustment(spec_decimal_digits(n).push(u)),
{
    let dec = spec_decimal_digits(n);
    let s = dec.push(u);
    lemma_decimal_digits_are_digits(n);
    lemma_decimal_digits_value(n);
    assert(!is_dec_digit(u));
    assert(s[0] == dec[0] && is_dec_digit(dec[0]));
    assert(spec_sign_split(s) == (false, s));
    lemma_filter_push(dec, |c: char| is_dec_digit(c), u);
    lemma_filter_push(dec, |c: char| !is_dec_digit(c), u);
    lemma_filter_all_digits(dec);
    let digits = s.filter(|c: char| is_dec_digit(c));
    let units = s.filter(|c: char| !is_dec_digit(c));
    assert(digits == dec);
    assert(units =~= seq![u]);
    assert(spec_unit_of(units) == Some(unit));
    assert(spec_parse_adjustment(s) == Ok::<Adjustment, AdjustError>(
        Adjustment { value: n as i64, unit },
    ));

    let neg = seq!['-'] + s;
    assert(neg[0] == '-');
    assert(neg.skip(1) =~= s);
    assert(spec_sign_split(neg) == (true, s));
    assert(spec_parse_adjustment(neg) == Ok::<Adjustment, AdjustError>(
        Adjustment { value: (-n) as i64, unit },
    ));

    let plus = seq!['+'] + s;
    assert(plus[0] == '+');
    assert(plus.skip(1) =~= s);
    assert(spec_sign_split(plus) == (false, s));
    assert(spec_parse_adjustment(plus) == spec_parse_adjustment(s));
}

impl Adjustment {
    /// The adjustment expressed as a signed number of seconds; `None` when
    /// the magnitude in seconds leaves the 64-bit signed range.
    pub fn offset_seconds(&self) -> (r: Option<i64>)
        ensures
            r matches Some(total) ==> total == self.value * spec_unit_seconds(self.unit),
            r is Some <==> i64::MIN <= self.value * spec_unit_seconds(self.unit) <= i64::MAX,
    {
        let factor: i64 = match self.unit {
            TimeUnit::Seconds => 1,
            TimeUnit::Minutes => 60,
            TimeUnit::Hours => 3600,
            TimeUnit::Days => 86400,
            TimeUnit::Weeks => 604800,
        };
        self.value.checked_mul(factor)
    }
}

} // verus!
