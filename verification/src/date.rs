use vstd::prelude::*;

use crate::error::VisaError;
use chrono::Datelike;

verus! {

/// Smallest day number a [`Date`] may hold.
///
/// Day numbers count days of the proleptic Gregorian calendar from the start
/// of the common era (day 1 is January 1 of year 1). The calendar library
/// backing the textual conversions represents exactly the dates from
/// January 1 of year -262143, day number -95,746,129, through December 31 of
/// year 262142, day number 95,745,399; these bounds mirror that range.
pub const MIN_DAY_NUMBER: i64 = -95_746_129;

/// Largest day number a [`Date`] may hold. See [`MIN_DAY_NUMBER`].
pub const MAX_DAY_NUMBER: i64 = 95_745_399;

/// One calendar day, held as its day number in the proleptic Gregorian
/// calendar (day 1 is January 1 of year 1).
///
/// There is no time-of-day component. Every `Date` handed to the interval
/// logic satisfies [`Date::valid`], which the constructors below establish.
#[derive(Clone, Copy, Debug, PartialEq, Eq, Structural)]
pub struct Date {
    pub days: i64,
}

impl Date {
    /// The day number as a mathematical integer.
    pub open spec fn day(self) -> int {
        self.days as int
    }

    /// The day number lies in the range every calendar date maps into.
    pub open spec fn valid(self) -> bool {
        MIN_DAY_NUMBER <= self.days <= MAX_DAY_NUMBER
    }

    /// Makes a date from a raw day number, refusing numbers outside the
    /// calendar range.
    pub fn from_day_number(days: i64) -> (r: Option<Date>)
        ensures
            match r {
                Some(d) => d.days == days && d.valid(),
                None => !(MIN_DAY_NUMBER <= days <= MAX_DAY_NUMBER),
            },
    {
        if MIN_DAY_NUMBER <= days && days <= MAX_DAY_NUMBER {
            Some(Date { days })
        } else {
            None
        }
    }

    /// The raw day number.
    pub fn day_number(&self) -> (r: i64)
        ensures
            r == self.days,
    {
        self.days
    }

    /// Whether this date is on or before `other`.
    pub fn le(&self, other: &Date) -> (r: bool)
        ensures
            r == (self.day() <= other.day()),
    {
        self.days <= other.days
    }
}

/// The day number encoded by a `YYYY-MM-DD` text, or nothing when the text is
/// not a date in that format. The outside date library defines the exact
/// relation; parsing and rejection are functions of the text alone.
pub uninterp spec fn parse_ymd(s: Seq<char>) -> Option<int>;

/// Relies on chrono's `NaiveDate::parse_from_str` with the `%Y-%m-%d` format
/// (accept or reject, and the date produced, depend on the text alone) and on
/// `Datelike::num_days_from_ce` for the day number of the parsed date, which
/// chrono keeps within the range of [`MIN_DAY_NUMBER`] and [`MAX_DAY_NUMBER`].
#[verifier::external_body]
fn parse_ymd_days(s: &str) -> (r: Option<i64>)
    ensures
        match r {
            Some(d) => parse_ymd(s@) == Some(d as int) && MIN_DAY_NUMBER <= d <= MAX_DAY_NUMBER,
            None => parse_ymd(s@) is None,
        },
{
    match chrono::NaiveDate::parse_from_str(s, "%Y-%m-%d") {
        Ok(d) => Some(i64::from(d.num_days_from_ce())),
        Err(_) => None,
    }
}

/// The `YYYY-MM-DD` text of the date with the given day number. The outside
/// date library defines the digits; they depend on the day number alone.
pub uninterp spec fn ymd_text(day: int) -> Seq<char>;

/// Relies on chrono's `NaiveDate::from_num_days_from_ce_opt`, which returns a
/// date for every day number in the valid range, and on `NaiveDate::format`
/// with the `%Y-%m-%d` format, whose text depends on the day number alone.
#[verifier::external_body]
pub(crate) fn ymd_chars(d: Date) -> (r: Vec<char>)
    requires
        d.valid(),
    ensures
        r@ == ymd_text(d.day()),
{
    match chrono::NaiveDate::from_num_days_from_ce_opt(d.days as i32) {
        Some(nd) => nd.format("%Y-%m-%d").to_string().chars().collect(),
        None => Vec::new(),
    }
}

/// Parses one `YYYY-MM-DD` text into a [`Date`].
///
/// Returns `Ok` exactly when the text is a date in that format, and
/// `ParseError` otherwise.
pub fn parse_date(s: &str) -> (r: Result<Date, VisaError>)
    ensures
        match r {
            Ok(d) => parse_ymd(s@) == Some(d.day()) && d.valid(),
            Err(e) => parse_ymd(s@) is None && e == VisaError::ParseError,
        },
{
    match parse_ymd_days(s) {
        Some(n) => Ok(Date { days: n }),
        None => Err(VisaError::ParseError),
    }
}

/// Parses a list of `YYYY-MM-DD` lines into dates, in order.
///
/// Returns `Ok` exactly when every line parses; any malformed line fails the
/// whole run with `ParseError`.
pub fn parse_dates(lines: &Vec<String>) -> (r: Result<Vec<Date>, VisaError>)
    ensures
        match r {
            Ok(v) => v@.len() == lines@.len() && (forall|i: int|
                0 <= i < v@.len() ==> parse_ymd(#[trigger] lines@[i]@) == Some(v@[i].day()))
                && (forall|i: int| 0 <= i < v@.len() ==> (#[trigger] v@[i]).valid()),
            Err(e) => e == VisaError::ParseError && (exists|i: int|
                0 <= i < lines@.len() && parse_ymd(#[trigger] lines@[i]@) is None),
        },
{
    let mut dates: Vec<Date> = Vec::new();
    let mut i: usize = 0;
    while i < lines.len()
        invariant
            0 <= i <= lines@.len(),
            dates@.len() == i,
            forall|j: int| 0 <= j < i ==> parse_ymd(#[trigger] lines@[j]@) == Some(dates@[j].day()),
            forall|j: int| 0 <= j < i ==> (#[trigger] dates@[j]).valid(),
        decreases lines@.len() - i,
    {
        match parse_date(lines[i].as_str()) {
            Ok(d) => {
                dates.push(d);
            },
            Err(e) => {
                return Err(e);
            },
        }
        i = i + 1;
    }
    Ok(dates)
}

} // verus!
