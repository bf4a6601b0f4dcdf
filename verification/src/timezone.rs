//! The closed set of supported timezones and the parsing of their names.

use vstd::prelude::*;
use crate::format::str_eq;

verus! {

/// One of the two supported zones: Coordinated Universal Time, or Japan
/// Standard Time.
#[derive(Clone, Copy, Debug, PartialEq, Eq, Structural)]
pub enum TimezoneSelector {
    Utc,
    Jst,
}

/// The zone named by a timezone argument: exactly `"UTC"` or `"JST"`;
/// every other name is a configuration error.
pub open spec fn spec_parse_timezone(s: Seq<char>) -> Option<TimezoneSelector> {
    if s == "UTC"@ {
        Some(TimezoneSelector::Utc)
    } else if s == "JST"@ {
        Some(TimezoneSelector::Jst)
    } else {
        None
    }
}

/// Parses a timezone name from the closed `{UTC, JST}` set.
pub fn parse_timezone(name: &str) -> (r: Option<TimezoneSelector>)
    ensures
        r == spec_parse_timezone(name@),
{
    if str_eq(name, "UTC") {
        Some(TimezoneSelector::Utc)
    } else if str_eq(name, "JST") {
        Some(TimezoneSelector::Jst)
    } else {
        None
    }
}

} // verus!
