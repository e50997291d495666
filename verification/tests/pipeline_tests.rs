use visa_days::builder::assess;
use visa_days::interval::control_window;
use visa_days::normalize::sort_and_dedup_dates;
use visa_days::parse_date;
use visa_days::Date;
use visa_days::DateInterval;
use visa_days::DateIntervalVec;
use visa_days::Verdict;
use visa_days::VisaError;

fn d(s: &str) -> Date {
    parse_date(s).unwrap()
}

fn dates(texts: &[&str]) -> Vec<Date> {
    texts.iter().map(|s| d(s)).collect()
}

fn window_180_ending(end: &str) -> DateInterval {
    control_window(d(end), 180).unwrap()
}

#[test]
fn parse_dates_reads_every_line() {
    let lines: Vec<String> =
        vec!["2024-01-01".to_string(), "2024-02-29".to_string(), "2023-12-31".to_string()];
    let v = visa_days::date::parse_dates(&lines).unwrap();
    assert_eq!(v, dates(&["2024-01-01", "2024-02-29", "2023-12-31"]));
}

#[test]
fn parse_dates_fails_on_any_malformed_line() {
    let lines: Vec<String> =
        vec!["2024-01-01".to_string(), "bogus".to_string(), "2024-01-02".to_string()];
    assert_eq!(visa_days::date::parse_dates(&lines).unwrap_err(), VisaError::ParseError);
}

#[test]
fn control_window_trails_the_end_date() {
    let w = window_180_ending("2024-06-29");
    assert_eq!(w.a, d("2024-01-01"));
    assert_eq!(w.b, d("2024-06-29"));
}

#[test]
fn one_stay_inside_the_window() {
    let w = window_180_ending("2024-06-29");
    let iv = DateIntervalVec::from_dates(&dates(&["2024-03-01", "2024-03-10"]), w).unwrap();
    assert_eq!(iv.0.len(), 1);
    assert_eq!(iv.0[0], DateInterval { a: d("2024-03-01"), b: d("2024-03-10") });
    let total = iv.num_spent_days();
    assert_eq!(total, 10);
    assert_eq!(assess(total, 90), Verdict::Within);
}

#[test]
fn stay_before_the_window_is_excluded() {
    let w = window_180_ending("2024-06-29");
    let iv = DateIntervalVec::from_dates(
        &dates(&["2023-12-01", "2023-12-31", "2024-01-01", "2024-01-10"]),
        w,
    )
    .unwrap();
    assert_eq!(iv.0.len(), 1);
    assert_eq!(iv.0[0], DateInterval { a: d("2024-01-01"), b: d("2024-01-10") });
    assert_eq!(iv.num_spent_days(), 10);
}

#[test]
fn stay_after_the_window_is_excluded() {
    let w = window_180_ending("2024-06-29");
    let iv =
        DateIntervalVec::from_dates(&dates(&["2024-06-30", "2024-07-10"]), w).unwrap();
    assert_eq!(iv.0.len(), 0);
    assert_eq!(iv.num_spent_days(), 0);
}

#[test]
fn stay_touching_the_window_start_keeps_one_day() {
    let w = window_180_ending("2024-06-29");
    let iv =
        DateIntervalVec::from_dates(&dates(&["2023-12-20", "2024-01-01"]), w).unwrap();
    assert_eq!(iv.0.len(), 1);
    assert_eq!(iv.0[0], DateInterval { a: d("2024-01-01"), b: d("2024-01-01") });
    assert_eq!(iv.0[0].abs_num_days(), 1);
}

#[test]
fn stay_touching_the_window_end_keeps_one_day() {
    let w = window_180_ending("2024-06-29");
    let iv =
        DateIntervalVec::from_dates(&dates(&["2024-06-29", "2024-07-15"]), w).unwrap();
    assert_eq!(iv.0.len(), 1);
    assert_eq!(iv.0[0], DateInterval { a: d("2024-06-29"), b: d("2024-06-29") });
    assert_eq!(iv.0[0].abs_num_days(), 1);
}

#[test]
fn stay_protruding_on_both_sides_is_clipped_to_the_window() {
    let w = window_180_ending("2024-06-29");
    let iv =
        DateIntervalVec::from_dates(&dates(&["2023-12-01", "2024-07-15"]), w).unwrap();
    assert_eq!(iv.0.len(), 1);
    assert_eq!(iv.0[0], DateInterval { a: d("2024-01-01"), b: d("2024-06-29") });
    assert_eq!(iv.num_spent_days(), 181);
}

#[test]
fn same_day_entry_and_exit_counts_one_day() {
    let w = window_180_ending("2024-06-29");
    let iv =
        DateIntervalVec::from_dates(&dates(&["2024-01-05", "2024-01-05"]), w).unwrap();
    assert_eq!(iv.0.len(), 1);
    assert_eq!(iv.0[0].abs_num_days(), 1);
    assert_eq!(iv.num_spent_days(), 1);
}

#[test]
fn reversed_pair_fails_the_build() {
    let w = window_180_ending("2024-06-29");
    let r = DateIntervalVec::from_dates(&dates(&["2024-02-10", "2024-01-01"]), w);
    assert_eq!(r.unwrap_err(), VisaError::InvalidInterval);
}

#[test]
fn reversed_pair_outside_the_window_still_fails() {
    let w = window_180_ending("2024-06-29");
    let r = DateIntervalVec::from_dates(&dates(&["2023-06-10", "2023-06-01"]), w);
    assert_eq!(r.unwrap_err(), VisaError::InvalidInterval);
}

#[test]
fn odd_date_count_fails_the_build() {
    let w = window_180_ending("2024-06-29");
    let r = DateIntervalVec::from_dates(
        &dates(&["2024-01-01", "2024-01-05", "2024-01-10"]),
        w,
    );
    assert_eq!(r.unwrap_err(), VisaError::InvalidInterval);
}

#[test]
fn several_stays_sum_their_lengths() {
    let w = window_180_ending("2024-06-29");
    let iv = DateIntervalVec::from_dates(
        &dates(&["2024-01-01", "2024-01-10", "2024-02-01", "2024-02-05", "2024-03-01",
            "2024-03-01"]),
        w,
    )
    .unwrap();
    assert_eq!(iv.0.len(), 3);
    assert_eq!(iv.num_spent_days(), 10 + 5 + 1);
    assert_eq!(iv.num_spent_days_checked(), Some(16));
}

#[test]
fn assess_uses_a_strict_inequality() {
    assert_eq!(assess(91, 90), Verdict::Exceeds);
    assert_eq!(assess(90, 90), Verdict::Within);
    assert_eq!(assess(89, 90), Verdict::Within);
    assert_eq!(assess(0, 0), Verdict::Within);
    assert_eq!(assess(1, 0), Verdict::Exceeds);
}

#[test]
fn normalize_sorts_and_removes_duplicates() {
    let mut v = dates(&["2024-01-05", "2024-01-01", "2024-01-05", "2024-01-10"]);
    let dups = sort_and_dedup_dates(&mut v);
    assert_eq!(dups, 1);
    assert_eq!(v, dates(&["2024-01-01", "2024-01-05", "2024-01-10"]));
}

#[test]
fn normalize_is_idempotent_and_never_lengthens() {
    let mut v = dates(&["2024-01-05", "2024-01-01", "2024-01-05", "2024-01-10"]);
    let before = v.len();
    sort_and_dedup_dates(&mut v);
    assert!(v.len() <= before);
    let once = v.clone();
    let dups = sort_and_dedup_dates(&mut v);
    assert_eq!(dups, 0);
    assert_eq!(v, once);
}

#[test]
fn duplicates_can_leave_an_odd_list_that_fails() {
    let mut v = dates(&["2024-01-01", "2024-01-01", "2024-01-05", "2024-01-10"]);
    let dups = sort_and_dedup_dates(&mut v);
    assert_eq!(dups, 1);
    assert_eq!(v.len(), 3);
    let w = window_180_ending("2024-06-29");
    let r = DateIntervalVec::from_dates(&v, w);
    assert_eq!(r.unwrap_err(), VisaError::InvalidInterval);
}

#[test]
fn full_run_within_allowance() {
    // The pipeline end to end: normalize, build, total, assess.
    let mut v = dates(&["2024-03-10", "2024-03-01", "2024-04-01", "2024-04-15"]);
    sort_and_dedup_dates(&mut v);
    let w = window_180_ending("2024-06-29");
    let iv = DateIntervalVec::from_dates(&v, w).unwrap();
    let total = iv.num_spent_days();
    assert_eq!(total, 10 + 15);
    assert_eq!(assess(total, 90), Verdict::Within);
    assert_eq!(assess(total, 24), Verdict::Exceeds);
}

#[test]
fn renders_the_window_and_the_intervals() {
    let w = window_180_ending("2024-06-29");
    assert_eq!(w.render(), "from 2024-01-01 to 2024-06-29");
    let iv = DateIntervalVec::from_dates(
        &dates(&["2024-03-01", "2024-03-10", "2024-04-01", "2024-04-15"]),
        w,
    )
    .unwrap();
    assert_eq!(
        iv.render(),
        "1) from 2024-03-01 to 2024-03-10, 2) from 2024-04-01 to 2024-04-15"
    );
}

#[test]
fn renders_an_empty_collection_as_empty_text() {
    let w = window_180_ending("2024-06-29");
    let iv = DateIntervalVec::from_dates(&dates(&[]), w).unwrap();
    assert_eq!(iv.render(), "");
}

#[test]
fn renders_more_than_nine_intervals_with_two_digit_numbers() {
    let w = window_180_ending("2024-06-29");
    let mut v: Vec<Date> = Vec::new();
    for day in 1..=10 {
        let text = format!("2024-03-{:02}", day);
        let x = parse_date(&text).unwrap();
        v.push(x);
        v.push(x);
    }
    let iv = DateIntervalVec::from_dates(&v, w).unwrap();
    assert_eq!(iv.0.len(), 10);
    let text = iv.render();
    assert!(text.starts_with("1) from 2024-03-01 to 2024-03-01"));
    assert!(text.ends_with("10) from 2024-03-10 to 2024-03-10"));
}
