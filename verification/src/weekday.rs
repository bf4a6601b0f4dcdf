//! Localized weekday names and the substitution pass that replaces a
//! parenthesized weekday digit in rendered output with its localized name.

use vstd::prelude::*;
use vstd::string::StrSliceExecFns;
use vstd::string::StringExecFns;

verus! {

/// Whether a character is a decimal digit.
pub open spec fn is_dec_digit(c: char) -> bool {
    '0' <= c && c <= '9'
}

/// The localized name that a weekday digit maps to: 0 is Sunday through
/// 6 for Saturday; any other character maps to a fallback sentinel.
pub open spec fn spec_japanese_weekday(c: char) -> Seq<char> {
    if c == '0' {
        "日"@
    } else if c == '1' {
        "月"@
    } else if c == '2' {
        "火"@
    } else if c == '3' {
        "水"@
    } else if c == '4' {
        "木"@
    } else if c == '5' {
        "金"@
    } else if c == '6' {
        "土"@
    } else {
        "?"@
    }
}

/// Converts a weekday number to Japanese character.
/// 0 = Sunday (日), 1 = Monday (月), etc.; any character outside 0-6
/// yields the fallback sentinel.
pub fn get_japanese_weekday(weekday_num: char) -> (r: &'static str)
    ensures
        r@ == spec_japanese_weekday(weekday_num),
{
    match weekday_num {
        '0' => "日",
        '1' => "月",
        '2' => "火",
        '3' => "水",
        '4' => "木",
        '5' => "金",
        '6' => "土",
        _ => "?",
    }
}

/// A single left-to-right pass: wherever a digit stands immediately between
/// `(` and `)`, the three characters are replaced by the digit's localized
/// weekday name; every other character is kept unchanged.
pub open spec fn spec_substitute_weekdays(s: Seq<char>) -> Seq<char>
    decreases s.len(),
{
    if s.len() >= 3 && s[0] == '(' && is_dec_digit(s[1]) && s[2] == ')' {
        spec_japanese_weekday(s[1]) + spec_substitute_weekdays(s.skip(3))
    } else if s.len() > 0 {
        seq![s[0]] + spec_substitute_weekdays(s.skip(1))
    } else {
        Seq::empty()
    }
}

/// Weekday substitution acts on each occurrence independently of its
/// surroundings (law): for any digit `d`, substituting over
/// `a + "(d)" + b` yields the substitution of `a`, then the localized
/// name of `d` with the parentheses dropped, then the substitution of `b`.
pub proof fn lemma_substitute_weekday_occurrence(a: Seq<char>, d: char, b: Seq<char>)
    requires
        is_dec_digit(d),
    ensures
        spec_substitute_weekdays(a + seq!['(', d, ')'] + b) == spec_substitute_weekdays(a)
            + spec_japanese_weekday(d) + spec_substitute_weekdays(b),
    decreases a.len(),
{
    let pat = seq!['(', d, ')'];
    let s = a + pat + b;
    if a.len() == 0 {
        assert(s =~= pat + b);
        assert(s.len() >= 3 && s[0] == '(' && is_dec_digit(s[1]) && s[2] == ')');
        assert(s.skip(3) =~= b);
        assert(spec_substitute_weekdays(s) == spec_japanese_weekday(d) + spec_substitute_weekdays(
            b,
        ));
        assert(spec_substitute_weekdays(a) == Seq::<char>::empty());
        assert(spec_substitute_weekdays(a) + spec_japanese_weekday(d) + spec_substitute_weekdays(b)
            =~= spec_japanese_weekday(d) + spec_substitute_weekdays(b));
    } else if a.len() >= 3 && a[0] == '(' && is_dec_digit(a[1]) && a[2] == ')' {
        lemma_substitute_weekday_occurrence(a.skip(3), d, b);
        assert(s.len() >= 3 && s[0] == '(' && is_dec_digit(s[1]) && s[2] == ')');
        assert(s.skip(3) =~= a.skip(3) + pat + b);
        assert(spec_substitute_weekdays(s) == spec_japanese_weekday(a[1])
            + spec_substitute_weekdays(a.skip(3) + pat + b));
        assert(spec_substitute_weekdays(a) == spec_japanese_weekday(a[1])
            + spec_substitute_weekdays(a.skip(3)));
        assert(spec_japanese_weekday(a[1]) + (spec_substitute_weekdays(a.skip(3))
            + spec_japanese_weekday(d) + spec_substitute_weekdays(b)) =~= spec_substitute_weekdays(
            a,
        ) + spec_japanese_weekday(d) + spec_substitute_weekdays(b));
    } else {
        lemma_substitute_weekday_occurrence(a.skip(1), d, b);
        assert(s.len() > 0 && s[0] == a[0]);
        if a.len() == 1 {
            assert(s[1] == '(' && !is_dec_digit('('));
        } else if a.len() == 2 {
            assert(s[2] == '(' && '(' != ')');
        } else {
            assert(s[1] == a[1] && s[2] == a[2]);
        }
        assert(!(s.len() >= 3 && s[0] == '(' && is_dec_digit(s[1]) && s[2] == ')'));
        assert(s.skip(1) =~= a.skip(1) + pat + b);
        assert(spec_substitute_weekdays(s) == seq![a[0]] + spec_substitute_weekdays(
            a.skip(1) + pat + b,
        ));
        assert(spec_substitute_weekdays(a) == seq![a[0]] + spec_substitute_weekdays(a.skip(1)));
        assert(seq![a[0]] + (spec_substitute_weekdays(a.skip(1)) + spec_japanese_weekday(d)
            + spec_substitute_weekdays(b)) =~= spec_substitute_weekdays(a)
            + spec_japanese_weekday(d) + spec_substitute_weekdays(b));
    }
}

/// Replaces every parenthesized weekday digit in `s` with its localized
/// name, dropping the enclosing parentheses; all other characters pass
/// through unchanged.
pub fn substitute_weekdays(s: &str) -> (r: String)
    ensures
        r@ == spec_substitute_weekdays(s@),
{
    let n = s.unicode_len();
    let mut out = String::new();
    let mut i: usize = 0;
    proof {
        assert(s@.skip(0) =~= s@);
        assert(out@ + spec_substitute_weekdays(s@) =~= spec_substitute_weekdays(s@));
    }
    while i < n
        invariant
            n == s@.len(),
            i <= n,
            spec_substitute_weekdays(s@) == out@ + spec_substitute_weekdays(s@.skip(i as int)),
        decreases n - i,
    {
        let ghost rest = s@.skip(i as int);
        let c = s.get_char(i);
        let is_pattern = if c == '(' && n - i >= 3 {
            let d = s.get_char(i + 1);
            let e = s.get_char(i + 2);
            '0' <= d && d <= '9' && e == ')'
        } else {
            false
        };
        if is_pattern {
            let d = s.get_char(i + 1);
            let wd = get_japanese_weekday(d);
            proof {
                assert(rest.len() >= 3);
                assert(rest[0] == '(' && is_dec_digit(rest[1]) && rest[2] == ')');
                assert(rest.skip(3) =~= s@.skip(i + 3));
                assert((out@ + wd@) + spec_substitute_weekdays(s@.skip(i + 3)) =~= out@ + (
                wd@ + spec_substitute_weekdays(s@.skip(i + 3))));
            }
            out.append(wd);
            i = i + 3;
        } else {
            let piece = s.substring_char(i, i + 1);
            proof {
                assert(rest.len() > 0);
                assert(!(rest.len() >= 3 && rest[0] == '(' && is_dec_digit(rest[1]) && rest[2]
                    == ')'));
                assert(rest.skip(1) =~= s@.skip(i + 1));
                assert(piece@ =~= seq![rest[0]]);
                assert((out@ + piece@) + spec_substitute_weekdays(s@.skip(i + 1)) =~= out@ + (
                piece@ + spec_substitute_weekdays(s@.skip(i + 1))));
            }
            out.append(piece);
            i = i + 1;
        }
    }
    proof {
        assert(s@.skip(n as int) =~= Seq::<char>::empty());
        assert(out@ + spec_substitute_weekdays(Seq::<char>::empty()) =~= out@);
    }
    out
}

} // verus!
