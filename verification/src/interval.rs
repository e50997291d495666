use vstd::prelude::*;

use crate::date::Date;
use crate::error::VisaError;

verus! {

/// A validated closed range `[a, b]` of calendar days: a stay, or the
/// control window itself.
///
/// The invariant `a <= b` (see [`DateInterval::wf`]) is established by
/// [`DateInterval::new`] and preserved by the two clipping operations, which
/// only ever narrow the range.
#[derive(Clone, Copy, Debug, PartialEq, Eq, Structural)]
pub struct DateInterval {
    pub a: Date,
    pub b: Date,
}

impl DateInterval {
    /// Well-formedness: both ends are calendar dates and the interval is not
    /// reversed.
    pub open spec fn wf(self) -> bool {
        self.a.valid() && self.b.valid() && self.a.day() <= self.b.day()
    }

    /// The inclusive day count: both the entry day and the exit day count as
    /// days of presence.
    pub open spec fn length_spec(self) -> int {
        self.b.day() - self.a.day() + 1
    }

    /// The closed-interval overlap test: touching at a single shared day
    /// counts as overlap.
    pub open spec fn overlaps_spec(self, other: DateInterval) -> bool {
        self.a.day() <= other.b.day() && other.a.day() <= self.b.day()
    }

    /// The interval after `start_no_earlier(d)`: the start is raised to `d`
    /// when `a < d <= b`, and nothing changes otherwise.
    pub open spec fn clip_start_spec(self, d: Date) -> DateInterval {
        if self.a.day() < d.day() && d.day() <= self.b.day() {
            DateInterval { a: d, b: self.b }
        } else {
            self
        }
    }

    /// The interval after `end_no_later(d)`: the end is lowered to `d` when
    /// `a <= d < b`, and nothing changes otherwise.
    pub open spec fn clip_end_spec(self, d: Date) -> DateInterval {
        if self.a.day() <= d.day() && d.day() < self.b.day() {
            DateInterval { a: self.a, b: d }
        } else {
            self
        }
    }

    /// Whether this interval lies entirely within `w`.
    pub open spec fn within(self, w: DateInterval) -> bool {
        w.a.day() <= self.a.day() && self.b.day() <= w.b.day()
    }

    /// Whether the day with day number `d` falls inside this closed range.
    pub open spec fn contains_day(self, d: int) -> bool {
        self.a.day() <= d <= self.b.day()
    }

    /// Makes a new date interval, checking that the interval points are not
    /// reversed. Fails exactly when `a > b`; equal dates are a valid one-day
    /// interval.
    pub fn new(a: Date, b: Date) -> (r: Result<DateInterval, VisaError>)
        requires
            a.valid(),
            b.valid(),
        ensures
            match r {
                Ok(i) => a.day() <= b.day() && i == (DateInterval { a, b }),
                Err(e) => a.day() > b.day() && e == VisaError::InvalidInterval,
            },
    {
        if a.days > b.days {
            Err(VisaError::InvalidInterval)
        } else {
            Ok(DateInterval { a, b })
        }
    }

    /// Calculates the number of days in the interval, counting both the
    /// first and the last day. Always at least 1.
    pub fn abs_num_days(&self) -> (r: usize)
        requires
            self.wf(),
        ensures
            r == self.length_spec(),
            r >= 1,
    {
        (self.b.days - self.a.days) as usize + 1
    }

    /// Updates the start date of the interval to the given date `d` if the
    /// interval starts before `d` and ends on `d` or after. Never widens the
    /// interval and never reverses it.
    pub fn start_no_earlier(&mut self, d: Date)
        requires
            old(self).wf(),
            d.valid(),
        ensures
            *final(self) == old(self).clip_start_spec(d),
            final(self).wf(),
            final(self).a.day() >= old(self).a.day(),
            final(self).b == old(self).b,
    {
        if self.a.days < d.days && d.days <= self.b.days {
            self.a = d;
        }
    }

    /// Updates the end date of the interval to the given date `d` if the
    /// interval ends after `d` and starts on `d` or before. Never widens the
    /// interval and never reverses it.
    pub fn end_no_later(&mut self, d: Date)
        requires
            old(self).wf(),
            d.valid(),
        ensures
            *final(self) == old(self).clip_end_spec(d),
            final(self).wf(),
            final(self).b.day() <= old(self).b.day(),
            final(self).a == old(self).a,
    {
        if self.a.days <= d.days && d.days < self.b.days {
            self.b = d;
        }
    }

    /// Whether this interval and `di` share at least one day.
    pub fn overlaps(&self, di: DateInterval) -> (r: bool)
        ensures
            r == self.overlaps_spec(di),
    {
        self.a.days <= di.b.days && di.a.days <= self.b.days
    }
}

/// The control window of a run: the trailing range of `period` days that
/// ends on `end`, so `[end - period, end]`.
///
/// Returns `None` exactly when the window's start would fall before the
/// calendar range.
pub fn control_window(end: Date, period: usize) -> (r: Option<DateInterval>)
    requires
        end.valid(),
        period <= i64::MAX,
    ensures
        match r {
            Some(w) => w.a.day() == end.day() - period && w.b == end && w.wf(),
            None => end.day() - period < crate::date::MIN_DAY_NUMBER,
        },
{
    if period as i64 <= end.days - crate::date::MIN_DAY_NUMBER {
        let start = Date { days: end.days - period as i64 };
        Some(DateInterval { a: start, b: end })
    } else {
        None
    }
}

/// Clipping a start twice with the same date is the same as clipping once.
pub proof fn lemma_clip_start_idempotent(i: DateInterval, d: Date)
    ensures
        i.clip_start_spec(d).clip_start_spec(d) == i.clip_start_spec(d),
{
}

/// Clipping an end twice with the same date is the same as clipping once.
pub proof fn lemma_clip_end_idempotent(i: DateInterval, d: Date)
    ensures
        i.clip_end_spec(d).clip_end_spec(d) == i.clip_end_spec(d),
{
}

/// The overlap test is symmetric.
pub proof fn lemma_overlaps_symmetric(x: DateInterval, y: DateInterval)
    ensures
        x.overlaps_spec(y) == y.overlaps_spec(x),
{
}

/// Two well-formed intervals overlap exactly when some calendar day lies in
/// both: touching at a single shared day counts as overlap.
pub proof fn lemma_overlaps_shares_a_day(x: DateInterval, y: DateInterval)
    requires
        x.wf(),
        y.wf(),
    ensures
        x.overlaps_spec(y) <==> exists|d: int| #[trigger] x.contains_day(d) && y.contains_day(d),
{
    if x.overlaps_spec(y) {
        let d = if x.a.day() >= y.a.day() {
            x.a.day()
        } else {
            y.a.day()
        };
        assert(x.contains_day(d) && y.contains_day(d));
    }
}

} // verus!
