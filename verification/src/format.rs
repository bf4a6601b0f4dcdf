//! Resolution of a format keyword (or custom pattern) to a concrete
//! strftime-style template string.

use vstd::prelude::*;
use vstd::string::StrSliceExecFns;

verus! {

/// Character-sequence equality of two string slices, decided in exec code.
pub(crate) fn str_eq(a: &str, b: &str) -> (r: bool)
    ensures
        r == (a@ == b@),
{
    let na = a.unicode_len();
    let nb = b.unicode_len();
    if na != nb {
        proof {
            assert(a@ != b@) by {
                assert(a@.len() != b@.len());
            }
        }
        return false;
    }
    let mut i: usize = 0;
    while i < na
        invariant
            na == a@.len(),
            nb == b@.len(),
            na == nb,
            i <= na,
            forall|j: int| 0 <= j < i ==> a@[j] == b@[j],
        decreases na - i,
    {
        if a.get_char(i) != b.get_char(i) {
            return false;
        }
        i += 1;
    }
    proof {
        assert(a@ =~= b@);
    }
    true
}

/// The template that a given format request resolves to. A recognized
/// keyword maps to its fixed pattern; anything else passes through verbatim.
pub open spec fn spec_format_string(format_option: Option<&str>) -> Seq<char> {
    match format_option {
        None => "%Y-%m-%d"@,
        Some(f) => {
            if f@ == "iso"@ {
                "%Y-%m-%dT%H:%M:%S%z"@
            } else if f@ == "jp"@ {
                "%Y年%m月%d日"@
            } else if f@ == "jpwd"@ {
                "%Y年%m月%d日(%w)"@
            } else if f@ == "jphm"@ {
                "%Y年%m月%d日 %H時%M分"@
            } else if f@ == "jphms"@ {
                "%Y年%m月%d日 %H時%M分%S秒"@
            } else {
                f@
            }
        },
    }
}

/// Determines the datetime format string based on the format option.
/// `None` selects the date-only default; the closed keyword set selects
/// fixed patterns; any other string is a custom pattern returned verbatim.
pub fn get_format_string<'a>(format_option: Option<&'a str>) -> (r: &'a str)
    ensures
        r@ == spec_format_string(format_option),
{
    match format_option {
        None => "%Y-%m-%d",
        Some(f) => {
            if str_eq(f, "iso") {
                "%Y-%m-%dT%H:%M:%S%z"
            } else if str_eq(f, "jp") {
                "%Y年%m月%d日"
            } else if str_eq(f, "jpwd") {
                "%Y年%m月%d日(%w)"
            } else if str_eq(f, "jphm") {
                "%Y年%m月%d日 %H時%M分"
            } else if str_eq(f, "jphms") {
                "%Y年%m月%d日 %H時%M分%S秒"
            } else {
                f
            }
        },
    }
}

} // verus!
