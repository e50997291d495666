//! A verified calculator for rolling-window day-allowance rules such as the
//! Schengen "90 days in any 180" rule.
//!
//! Given a control window `[start, end]` of calendar days and a list of
//! entry/exit date pairs, the library normalizes the dates, pairs them into
//! stay-intervals, clips each interval to the window, discards intervals that
//! do not overlap the window, sums the inclusive day counts, and compares the
//! total against an allowed threshold.

pub mod builder;
pub mod date;
pub mod error;
pub mod interval;
pub mod normalize;
pub mod render;

pub use builder::DateIntervalVec;
pub use builder::Verdict;
pub use date::parse_date;
pub use date::parse_dates;
pub use date::Date;
pub use error::VisaError;
pub use interval::DateInterval;
