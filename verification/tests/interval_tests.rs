use visa_days::parse_date;
use visa_days::Date;
use visa_days::DateInterval;
use visa_days::VisaError;

fn d(s: &str) -> Date {
    parse_date(s).unwrap()
}

fn di(a: &str, b: &str) -> DateInterval {
    DateInterval::new(d(a), d(b)).unwrap()
}

#[test]
fn length_is_inclusive() {
    assert_eq!(di("2024-03-01", "2024-03-10").abs_num_days(), 10);
    assert_eq!(di("2024-01-01", "2024-12-31").abs_num_days(), 366);
    assert_eq!(di("2023-01-01", "2023-12-31").abs_num_days(), 365);
}

#[test]
fn length_of_one_day_interval() {
    assert_eq!(di("2024-01-05", "2024-01-05").abs_num_days(), 1);
}

#[test]
fn new_rejects_reversed_points() {
    let r = DateInterval::new(d("2024-02-10"), d("2024-01-01"));
    assert_eq!(r.unwrap_err(), VisaError::InvalidInterval);
}

#[test]
fn new_accepts_equal_and_ordered_points() {
    assert!(DateInterval::new(d("2024-01-05"), d("2024-01-05")).is_ok());
    assert!(DateInterval::new(d("2024-01-01"), d("2024-02-10")).is_ok());
}

#[test]
fn clipping_is_idempotent() {
    let mut once = di("2024-01-01", "2024-03-01");
    once.start_no_earlier(d("2024-02-01"));
    let mut twice = once;
    twice.start_no_earlier(d("2024-02-01"));
    assert_eq!(once, twice);

    let mut once = di("2024-01-01", "2024-03-01");
    once.end_no_later(d("2024-02-01"));
    let mut twice = once;
    twice.end_no_later(d("2024-02-01"));
    assert_eq!(once, twice);
}

#[test]
fn clipping_never_widens() {
    let mut i = di("2024-02-01", "2024-02-20");
    // Both dates fall outside the interval: nothing moves.
    i.start_no_earlier(d("2024-01-01"));
    i.end_no_later(d("2024-03-01"));
    assert_eq!(i, di("2024-02-01", "2024-02-20"));
    // Both dates fall inside: the interval narrows toward them.
    i.start_no_earlier(d("2024-02-05"));
    i.end_no_later(d("2024-02-10"));
    assert_eq!(i, di("2024-02-05", "2024-02-10"));
    assert!(i.a.day_number() >= d("2024-02-01").day_number());
    assert!(i.b.day_number() <= d("2024-02-20").day_number());
}

#[test]
fn start_no_earlier_requires_date_within_interval() {
    let mut i = di("2024-02-01", "2024-02-20");
    // A date past the end is ignored.
    i.start_no_earlier(d("2024-02-21"));
    assert_eq!(i, di("2024-02-01", "2024-02-20"));
    // The end itself is allowed: the interval shrinks to one day.
    i.start_no_earlier(d("2024-02-20"));
    assert_eq!(i, di("2024-02-20", "2024-02-20"));
}

#[test]
fn end_no_later_requires_date_within_interval() {
    let mut i = di("2024-02-01", "2024-02-20");
    // A date before the start is ignored.
    i.end_no_later(d("2024-01-31"));
    assert_eq!(i, di("2024-02-01", "2024-02-20"));
    // The start itself is allowed: the interval shrinks to one day.
    i.end_no_later(d("2024-02-01"));
    assert_eq!(i, di("2024-02-01", "2024-02-01"));
}

#[test]
fn overlaps_is_symmetric() {
    let x = di("2024-01-01", "2024-02-01");
    let y = di("2024-01-20", "2024-03-01");
    let z = di("2024-02-10", "2024-03-01");
    assert!(x.overlaps(y));
    assert!(y.overlaps(x));
    assert!(!x.overlaps(z));
    assert!(!z.overlaps(x));
}

#[test]
fn overlap_at_single_shared_day_counts() {
    let x = di("2024-01-01", "2024-02-01");
    let y = di("2024-02-01", "2024-03-01");
    assert!(x.overlaps(y));
    assert!(y.overlaps(x));
}

#[test]
fn parse_date_accepts_iso_dates() {
    let x = d("2024-02-29");
    let y = d("2024-03-01");
    assert_eq!(y.day_number() - x.day_number(), 1);
    // A non-leap year has no February 29.
    assert_eq!(parse_date("2023-02-29").unwrap_err(), VisaError::ParseError);
}

#[test]
fn parse_date_rejects_malformed_text() {
    assert_eq!(parse_date("not a date").unwrap_err(), VisaError::ParseError);
    assert_eq!(parse_date("2024-13-01").unwrap_err(), VisaError::ParseError);
    assert_eq!(parse_date("2024-01-32").unwrap_err(), VisaError::ParseError);
    assert_eq!(parse_date("").unwrap_err(), VisaError::ParseError);
    assert_eq!(parse_date("01/02/2024").unwrap_err(), VisaError::ParseError);
}

#[test]
fn day_numbers_count_real_days() {
    // Across a month boundary and a leap day.
    assert_eq!(d("2024-03-01").day_number() - d("2024-02-28").day_number(), 2);
    assert_eq!(d("2023-03-01").day_number() - d("2023-02-28").day_number(), 1);
    // Across a year boundary.
    assert_eq!(d("2024-01-01").day_number() - d("2023-12-31").day_number(), 1);
}

#[test]
fn from_day_number_checks_the_calendar_range() {
    let x = d("2024-01-01");
    let y = Date::from_day_number(x.day_number()).unwrap();
    assert_eq!(x, y);
    assert!(Date::from_day_number(95_745_399).is_some());
    assert!(Date::from_day_number(95_745_400).is_none());
    assert!(Date::from_day_number(-95_746_129).is_some());
    assert!(Date::from_day_number(-95_746_130).is_none());
}

#[test]
fn error_descriptions_name_the_failure() {
    assert_eq!(
        VisaError::ParseError.describe(),
        "text does not match the YYYY-MM-DD date format"
    );
    assert_eq!(
        VisaError::InvalidInterval.describe(),
        "end date is before the start date, or a date is left unpaired"
    );
    assert_eq!(VisaError::IoError.describe(), "the input could not be read");
    assert_eq!(
        VisaError::ClockError.describe(),
        "the current date could not be determined"
    );
}
