use untd::{
    get_format_string, get_japanese_weekday, parse_time_adjustment, substitute_weekdays,
    AdjustError, Adjustment, TimeUnit,
};

#[test]
fn test_get_format_string() {
    // Test default format (None)
    assert_eq!(get_format_string(None), "%Y-%m-%d");

    // Test ISO format
    assert_eq!(get_format_string(Some("iso")), "%Y-%m-%dT%H:%M:%S%z");

    // Test Japanese formats
    assert_eq!(get_format_string(Some("jp")), "%Y年%m月%d日");
    assert_eq!(get_format_string(Some("jpwd")), "%Y年%m月%d日(%w)");
    assert_eq!(get_format_string(Some("jphm")), "%Y年%m月%d日 %H時%M分");
    assert_eq!(
        get_format_string(Some("jphms")),
        "%Y年%m月%d日 %H時%M分%S秒"
    );

    // Test custom format
    assert_eq!(get_format_string(Some("%H:%M:%S")), "%H:%M:%S");
    assert_eq!(
        get_format_string(Some("Custom: %Y/%m/%d")),
        "Custom: %Y/%m/%d"
    );
}

#[test]
fn test_get_japanese_weekday() {
    assert_eq!(get_japanese_weekday('0'), "日");
    assert_eq!(get_japanese_weekday('1'), "月");
    assert_eq!(get_japanese_weekday('2'), "火");
    assert_eq!(get_japanese_weekday('3'), "水");
    assert_eq!(get_japanese_weekday('4'), "木");
    assert_eq!(get_japanese_weekday('5'), "金");
    assert_eq!(get_japanese_weekday('6'), "土");
    assert_eq!(get_japanese_weekday('9'), "?");
}

fn adj(value: i64, unit: TimeUnit) -> Adjustment {
    Adjustment { value, unit }
}

#[test]
fn test_parse_time_adjustment() {
    // Test positive adjustments
    assert_eq!(
        parse_time_adjustment("30s").unwrap(),
        adj(30, TimeUnit::Seconds)
    );
    assert_eq!(
        parse_time_adjustment("5m").unwrap(),
        adj(5, TimeUnit::Minutes)
    );
    assert_eq!(parse_time_adjustment("2h").unwrap(), adj(2, TimeUnit::Hours));
    assert_eq!(parse_time_adjustment("1d").unwrap(), adj(1, TimeUnit::Days));
    assert_eq!(parse_time_adjustment("3w").unwrap(), adj(3, TimeUnit::Weeks));

    // Test with explicit plus sign
    assert_eq!(
        parse_time_adjustment("+45s").unwrap(),
        adj(45, TimeUnit::Seconds)
    );
    assert_eq!(
        parse_time_adjustment("+10m").unwrap(),
        adj(10, TimeUnit::Minutes)
    );

    // Test negative adjustments
    assert_eq!(
        parse_time_adjustment("-15s").unwrap(),
        adj(-15, TimeUnit::Seconds)
    );
    assert_eq!(
        parse_time_adjustment("-3m").unwrap(),
        adj(-3, TimeUnit::Minutes)
    );
    assert_eq!(
        parse_time_adjustment("-1h").unwrap(),
        adj(-1, TimeUnit::Hours)
    );
    assert_eq!(parse_time_adjustment("-2d").unwrap(), adj(-2, TimeUnit::Days));
    assert_eq!(
        parse_time_adjustment("-1w").unwrap(),
        adj(-1, TimeUnit::Weeks)
    );

    // Test error cases
    assert!(parse_time_adjustment("").is_err()); // Empty string
    assert!(parse_time_adjustment("s").is_err()); // Missing numeric part
    assert!(parse_time_adjustment("10").is_err()); // Missing unit
    assert!(parse_time_adjustment("10x").is_err()); // Invalid unit
}

#[test]
fn test_parse_time_adjustment_error_causes() {
    assert_eq!(parse_time_adjustment(""), Err(AdjustError::Empty));
    assert_eq!(parse_time_adjustment("s"), Err(AdjustError::MissingNumber));
    assert_eq!(parse_time_adjustment("-"), Err(AdjustError::MissingNumber));
    assert_eq!(parse_time_adjustment("+"), Err(AdjustError::MissingNumber));
    assert_eq!(parse_time_adjustment("10"), Err(AdjustError::UnknownUnit));
    assert_eq!(parse_time_adjustment("10x"), Err(AdjustError::UnknownUnit));
    assert_eq!(parse_time_adjustment("10ss"), Err(AdjustError::UnknownUnit));
    // A magnitude beyond the 64-bit signed range is a numeric error, not a
    // unit error.
    assert_eq!(
        parse_time_adjustment("9223372036854775808s"),
        Err(AdjustError::InvalidNumber)
    );
    assert_eq!(
        parse_time_adjustment("99999999999999999999x"),
        Err(AdjustError::InvalidNumber)
    );
    // The largest representable magnitude still parses.
    assert_eq!(
        parse_time_adjustment("9223372036854775807s"),
        Ok(adj(i64::MAX, TimeUnit::Seconds))
    );
}

#[test]
fn test_parse_time_adjustment_interleaved_runs() {
    // Digits and the unit letter are collected independently.
    assert_eq!(
        parse_time_adjustment("1s2").unwrap(),
        adj(12, TimeUnit::Seconds)
    );
}

#[test]
fn test_offset_seconds() {
    assert_eq!(adj(30, TimeUnit::Seconds).offset_seconds(), Some(30));
    assert_eq!(adj(5, TimeUnit::Minutes).offset_seconds(), Some(300));
    assert_eq!(adj(2, TimeUnit::Hours).offset_seconds(), Some(7200));
    assert_eq!(adj(-2, TimeUnit::Days).offset_seconds(), Some(-172800));
    assert_eq!(adj(3, TimeUnit::Weeks).offset_seconds(), Some(1814400));
    assert_eq!(adj(i64::MAX, TimeUnit::Weeks).offset_seconds(), None);
    assert_eq!(adj(i64::MIN, TimeUnit::Minutes).offset_seconds(), None);
}

#[test]
fn test_substitute_weekdays() {
    // A parenthesized weekday digit is replaced by its localized name and
    // the parentheses are dropped.
    assert_eq!(substitute_weekdays("2024年10月09日(3)"), "2024年10月09日水");
    // A digit outside 0-6 maps to the fallback sentinel.
    assert_eq!(substitute_weekdays("(9)"), "?");
    assert_eq!(substitute_weekdays("(0)"), "日");
    assert_eq!(substitute_weekdays("(6)"), "土");
    // Characters that are not part of a parenthesized digit pass through.
    assert_eq!(substitute_weekdays("abc"), "abc");
    assert_eq!(substitute_weekdays("(x)"), "(x)");
    assert_eq!(substitute_weekdays("(12)"), "(12)");
    assert_eq!(substitute_weekdays(""), "");
    // Several occurrences are each replaced.
    assert_eq!(substitute_weekdays("(1)-(2)"), "月-火");
    // A partial pattern at the end passes through.
    assert_eq!(substitute_weekdays("(3"), "(3");
}
