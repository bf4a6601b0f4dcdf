use untd::{
    format_instant, parse_timezone, run_conversion, AdjustError, RunError, TimezoneSelector,
};

#[test]
fn test_parse_timezone() {
    assert_eq!(parse_timezone("UTC"), Some(TimezoneSelector::Utc));
    assert_eq!(parse_timezone("JST"), Some(TimezoneSelector::Jst));
    assert_eq!(parse_timezone("PST"), None);
    assert_eq!(parse_timezone("utc"), None);
    assert_eq!(parse_timezone(""), None);
}

#[test]
fn test_epoch_default_format_utc() {
    // Timestamp 0 in UTC with the date-only default.
    let out = run_conversion(0, TimezoneSelector::Utc, None, None).unwrap();
    assert_eq!(out, "1970-01-01");
}

#[test]
fn test_epoch_iso_format_utc() {
    let out = run_conversion(0, TimezoneSelector::Utc, Some("iso"), None).unwrap();
    assert_eq!(out, "1970-01-01T00:00:00+0000");
}

#[test]
fn test_epoch_adjusted_one_day() {
    let out = run_conversion(0, TimezoneSelector::Utc, None, Some("1d")).unwrap();
    assert_eq!(out, "1970-01-02");
}

#[test]
fn test_epoch_jst_offset() {
    // Japan Standard Time is nine hours ahead of UTC.
    let out = run_conversion(0, TimezoneSelector::Jst, None, None).unwrap();
    assert_eq!(out, "1970-01-01");
    let out = run_conversion(0, TimezoneSelector::Jst, Some("%Y-%m-%d %H:%M:%S"), None).unwrap();
    assert_eq!(out, "1970-01-01 09:00:00");
}

#[test]
fn test_epoch_japanese_formats() {
    let out = run_conversion(0, TimezoneSelector::Utc, Some("jp"), None).unwrap();
    assert_eq!(out, "1970年01月01日");
    let out = run_conversion(0, TimezoneSelector::Utc, Some("jphm"), None).unwrap();
    assert_eq!(out, "1970年01月01日 00時00分");
    let out = run_conversion(0, TimezoneSelector::Utc, Some("jphms"), None).unwrap();
    assert_eq!(out, "1970年01月01日 00時00分00秒");
}

#[test]
fn test_epoch_weekday_substitution_end_to_end() {
    // The first of January 1970 was a Thursday: the rendered weekday
    // digit 4 becomes the localized name, with the parentheses dropped.
    let out = run_conversion(0, TimezoneSelector::Utc, Some("jpwd"), None).unwrap();
    assert_eq!(out, "1970年01月01日木");
}

#[test]
fn test_negative_adjustment_end_to_end() {
    let out = run_conversion(0, TimezoneSelector::Utc, None, Some("-1d")).unwrap();
    assert_eq!(out, "1969-12-31");
}

#[test]
fn test_adjustment_error_is_reported() {
    assert_eq!(
        run_conversion(0, TimezoneSelector::Utc, None, Some("10x")),
        Err(RunError::Adjustment(AdjustError::UnknownUnit))
    );
    assert_eq!(
        run_conversion(0, TimezoneSelector::Utc, None, Some("")),
        Err(RunError::Adjustment(AdjustError::Empty))
    );
}

#[test]
fn test_out_of_range_timestamp() {
    assert_eq!(
        run_conversion(i64::MAX, TimezoneSelector::Utc, None, None),
        Err(RunError::OutOfRange)
    );
}

#[test]
fn test_adjustment_out_of_range() {
    // The offset itself leaves the 64-bit range of seconds.
    assert_eq!(
        run_conversion(0, TimezoneSelector::Utc, None, Some("9223372036854775807w")),
        Err(RunError::AdjustmentOutOfRange)
    );
    // The offset fits but the shifted instant does not.
    assert_eq!(
        run_conversion(i64::MIN, TimezoneSelector::Utc, None, Some("-1s")),
        Err(RunError::AdjustmentOutOfRange)
    );
}

#[test]
fn test_format_instant_custom_pattern() {
    let out = format_instant(0, TimezoneSelector::Utc, Some("%H:%M:%S")).unwrap();
    assert_eq!(out, "00:00:00");
}
