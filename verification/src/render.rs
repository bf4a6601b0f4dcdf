//! Rendering of an instant in a zone with a resolved pattern, and the full
//! conversion pipeline from timestamp, zone, format and adjustment to the
//! final output text.

use vstd::prelude::*;
use crate::adjust::{
    parse_time_adjustment, spec_parse_adjustment, spec_unit_seconds, AdjustError, Adjustment,
};
use crate::format::{get_format_string, spec_format_string, str_eq};
use crate::timezone::TimezoneSelector;
use crate::weekday::{spec_substitute_weekdays, substitute_weekdays};

verus! {

/// What chrono renders for the instant at `secs` seconds since the epoch,
/// shown in Japan Standard Time when `jst` holds and in Coordinated
/// Universal Time otherwise, under the strftime-style pattern `fmt`. The
/// rendering depends on these arguments alone.
pub uninterp spec fn rendered_in_zone(secs: int, jst: bool, fmt: Seq<char>) -> Seq<char>;

/// Whether chrono renders at all for these arguments: the instant lies in
/// chrono's representable range and the pattern produces output. With the
/// zone table compiled in and no clock or environment read, success too
/// depends on the arguments alone.
pub uninterp spec fn render_succeeds(secs: int, jst: bool, fmt: Seq<char>) -> bool;

/// Relies on chrono's `Utc.timestamp_opt`, `DateTime::with_timezone` and
/// `DateTime::format` together with chrono-tz's zone table: whether the
/// rendering succeeds, and what it yields when it does, are functions of
/// the arguments alone. Returns `None` exactly when the instant lies
/// outside chrono's representable range or the pattern cannot be rendered.
#[verifier::external_body]
fn render_timestamp(secs: i64, jst: bool, fmt: &str) -> (r: Option<String>)
    ensures
        r matches Some(out) ==> out@ == rendered_in_zone(secs as int, jst, fmt@),
        r is Some <==> render_succeeds(secs as int, jst, fmt@),
{
    let dt = match chrono::TimeZone::timestamp_opt(&chrono::Utc, secs, 0) {
        chrono::MappedLocalTime::Single(dt) => dt,
        _ => return None,
    };
    let tz = if jst { chrono_tz::Asia::Tokyo } else { chrono_tz::UTC };
    let mut out = String::new();
    match dt.with_timezone(&tz).format(fmt).write_to(&mut out) {
        Ok(()) => Some(out),
        Err(_) => None,
    }
}

/// Whether the requested format is the Japanese-date-with-weekday keyword,
/// the one format whose rendered output gets the weekday pass.
pub open spec fn spec_is_jpwd(format_option: Option<&str>) -> bool {
    match format_option {
        Some(f) => f@ == "jpwd"@,
        None => false,
    }
}

/// The output owed for a rendered base string: the weekday substitution is
/// applied exactly when the weekday keyword was requested.
pub open spec fn spec_final_output(base: Seq<char>, jpwd: bool) -> Seq<char> {
    if jpwd {
        spec_substitute_weekdays(base)
    } else {
        base
    }
}

/// Renders the instant `secs` in the selected zone under the resolved
/// format, applying the weekday pass for the weekday keyword. `None` comes
/// exactly when the renderer cannot represent the instant or the pattern.
pub fn format_instant(secs: i64, tz: TimezoneSelector, format_option: Option<&str>) -> (r: Option<
    String,
>)
    ensures
        r is Some <==> render_succeeds(
            secs as int,
            tz == TimezoneSelector::Jst,
            spec_format_string(format_option),
        ),
        r matches Some(out) ==> out@ == spec_final_output(
            rendered_in_zone(
                secs as int,
                tz == TimezoneSelector::Jst,
                spec_format_string(format_option),
            ),
            spec_is_jpwd(format_option),
        ),
{
    let fmt = get_format_string(format_option);
    let jpwd = match format_option {
        Some(f) => str_eq(f, "jpwd"),
        None => false,
    };
    let jst = match tz {
        TimezoneSelector::Jst => true,
        TimezoneSelector::Utc => false,
    };
    match render_timestamp(secs, jst, fmt) {
        Some(rendered) => {
            if jpwd {
                Some(substitute_weekdays(rendered.as_str()))
            } else {
                Some(rendered)
            }
        },
        None => None,
    }
}

/// Why a conversion run failed.
#[derive(Clone, Copy, Debug, PartialEq, Eq, Structural)]
pub enum RunError {
    /// The adjustment string was rejected, with the parser's cause.
    Adjustment(AdjustError),
    /// The adjustment is well formed, but its offset or the shifted
    /// instant leaves the 64-bit signed range of seconds.
    AdjustmentOutOfRange,
    /// The shifted instant cannot be represented or rendered.
    OutOfRange,
}

/// The signed offset, in seconds, that a parsed adjustment argument asks
/// for; an absent argument asks for no shift.
pub open spec fn spec_requested_offset(adjust_option: Option<&str>) -> int {
    match adjust_option {
        None => 0,
        Some(a) => match spec_parse_adjustment(a@) {
            Ok(adj) => adj.value * spec_unit_seconds(adj.unit),
            Err(_) => 0,
        },
    }
}

/// The full conversion: shifts the instant by the parsed adjustment, then
/// renders it in the selected zone under the resolved format, with the
/// weekday pass for the weekday keyword.
pub fn run_conversion(
    secs: i64,
    tz: TimezoneSelector,
    format_option: Option<&str>,
    adjust_option: Option<&str>,
) -> (r: Result<String, RunError>)
    ensures
        (r matches Err(RunError::Adjustment(e)) ==> adjust_option matches Some(a)
            && spec_parse_adjustment(a@) == Err::<Adjustment, AdjustError>(e)),
        (adjust_option matches Some(a) ==> (spec_parse_adjustment(a@) matches Err(e) ==> r
            == Err::<String, RunError>(RunError::Adjustment(e)))),
        (r == Err::<String, RunError>(RunError::AdjustmentOutOfRange) <==> ({
            let off = spec_requested_offset(adjust_option);
            &&& (adjust_option matches Some(a) && spec_parse_adjustment(a@) is Ok)
            &&& !(i64::MIN <= off <= i64::MAX && i64::MIN <= secs + off <= i64::MAX)
        })),
        (r == Err::<String, RunError>(RunError::OutOfRange) <==> ({
            let off = spec_requested_offset(adjust_option);
            &&& (adjust_option matches Some(a) ==> spec_parse_adjustment(a@) is Ok)
            &&& i64::MIN <= off <= i64::MAX
            &&& i64::MIN <= secs + off <= i64::MAX
            &&& !render_succeeds(
                secs + off,
                tz == TimezoneSelector::Jst,
                spec_format_string(format_option),
            )
        })),
        (r is Ok <==> ({
            let off = spec_requested_offset(adjust_option);
            &&& (adjust_option matches Some(a) ==> spec_parse_adjustment(a@) is Ok)
            &&& i64::MIN <= off <= i64::MAX
            &&& i64::MIN <= secs + off <= i64::MAX
            &&& render_succeeds(
                secs + off,
                tz == TimezoneSelector::Jst,
                spec_format_string(format_option),
            )
        })),
        (r matches Ok(out) ==> {
            let shifted = secs + spec_requested_offset(adjust_option);
            &&& i64::MIN <= shifted <= i64::MAX
            &&& out@ == spec_final_output(
                rendered_in_zone(
                    shifted,
                    tz == TimezoneSelector::Jst,
                    spec_format_string(format_option),
                ),
                spec_is_jpwd(format_option),
            )
        }),
{
    let shifted: i64 = match adjust_option {
        None => secs,
        Some(a) => {
            match parse_time_adjustment(a) {
                Err(e) => {
                    return Err(RunError::Adjustment(e));
                },
                Ok(adj) => {
                    match adj.offset_seconds() {
                        None => {
                            return Err(RunError::AdjustmentOutOfRange);
                        },
                        Some(off) => {
                            match secs.checked_add(off) {
                                None => {
                                    return Err(RunError::AdjustmentOutOfRange);
                                },
                                Some(s2) => s2,
                            }
                        },
                    }
                },
            }
        },
    };
    match format_instant(shifted, tz, format_option) {
        Some(out) => Ok(out),
        None => Err(RunError::OutOfRange),
    }
}

} // verus!
