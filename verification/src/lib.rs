//! Core logic for a timestamp-to-text converter: a signed, unit-suffixed
//! duration parser, a date-format keyword resolver, and a localized weekday
//! substitution pass over rendered output.

pub mod adjust;
pub mod format;
pub mod render;
pub mod timezone;
pub mod weekday;

pub use adjust::parse_time_adjustment;
pub use adjust::Adjustment;
pub use adjust::AdjustError;
pub use adjust::TimeUnit;
pub use format::get_format_string;
pub use render::format_instant;
pub use render::run_conversion;
pub use render::RunError;
pub use timezone::parse_timezone;
pub use timezone::TimezoneSelector;
pub use weekday::get_japanese_weekday;
pub use weekday::substitute_weekdays;
