use vstd::prelude::*;

use crate::date::Date;
use crate::error::VisaError;
use crate::interval::DateInterval;

verus! {

/// Consecutive pairs of the list are not reversed: for every entry/exit pair
/// `(dates[2k], dates[2k+1])` the entry is on or before the exit. A trailing
/// unpaired date is ignored here and rejected separately.
pub open spec fn pairs_ok(dates: Seq<Date>) -> bool
    decreases dates.len(),
{
    if dates.len() < 2 {
        true
    } else {
        dates[0].day() <= dates[1].day() && pairs_ok(dates.skip(2))
    }
}

/// One stay-interval clipped to the control window: the start raised to the
/// window's start, then the end lowered to the window's end.
pub open spec fn clip_to_window(di: DateInterval, w: DateInterval) -> DateInterval {
    di.clip_start_spec(w.a).clip_end_spec(w.b)
}

/// The kept, clipped stay-intervals of a date list: consecutive pairs become
/// intervals, intervals that overlap the window are clipped and kept in
/// input order, the rest are discarded. A trailing unpaired date is ignored
/// here and rejected separately.
pub open spec fn build_spec(dates: Seq<Date>, w: DateInterval) -> Seq<DateInterval>
    decreases dates.len(),
{
    if dates.len() < 2 {
        Seq::empty()
    } else {
        let di = DateInterval { a: dates[0], b: dates[1] };
        let rest = build_spec(dates.skip(2), w);
        if di.overlaps_spec(w) {
            seq![clip_to_window(di, w)] + rest
        } else {
            rest
        }
    }
}

/// The total day count of a list of intervals: the sum of the inclusive
/// lengths.
pub open spec fn total_days(s: Seq<DateInterval>) -> int
    decreases s.len(),
{
    if s.len() == 0 {
        0
    } else {
        s[0].length_spec() + total_days(s.drop_first())
    }
}

/// The sum of inclusive lengths of well-formed intervals is never negative.
pub proof fn lemma_total_days_nonneg(s: Seq<DateInterval>)
    requires
        forall|i: int| 0 <= i < s.len() ==> (#[trigger] s[i]).wf(),
    ensures
        total_days(s) >= 0,
    decreases s.len(),
{
    if s.len() > 0 {
        assert(s[0].wf());
        lemma_total_days_nonneg(s.drop_first());
    }
}

/// The ordered stay-intervals that overlap the control window, each already
/// clipped to the window's bounds.
#[derive(Debug)]
pub struct DateIntervalVec(pub Vec<DateInterval>);

impl DateIntervalVec {
    /// Every held interval is well formed and lies within `w`.
    pub open spec fn wf_within(self, w: DateInterval) -> bool {
        forall|i: int|
            0 <= i < self.0@.len() ==> (#[trigger] self.0@[i]).wf() && self.0@[i].within(w)
    }

    /// Every held interval is well formed.
    pub open spec fn wf(self) -> bool {
        forall|i: int| 0 <= i < self.0@.len() ==> (#[trigger] self.0@[i]).wf()
    }

    /// Pairs the normalized dates into stay-intervals, validates each pair,
    /// and keeps every interval that overlaps the control window, clipped to
    /// the window's bounds and in input order.
    ///
    /// Fails with `InvalidInterval` exactly when the list has an odd length
    /// (a date is left unpaired) or some pair is reversed (entry after
    /// exit), whether or not that pair overlaps the window. Intervals that
    /// do not overlap the window are discarded silently.
    pub fn from_dates(dates: &Vec<Date>, control_period: DateInterval) -> (r: Result<
        DateIntervalVec,
        VisaError,
    >)
        requires
            control_period.wf(),
            forall|i: int| 0 <= i < dates@.len() ==> (#[trigger] dates@[i]).valid(),
        ensures
            match r {
                Ok(v) => dates@.len() % 2 == 0 && pairs_ok(dates@) && v.0@ == build_spec(
                    dates@,
                    control_period,
                ) && v.wf_within(control_period),
                Err(e) => e == VisaError::InvalidInterval && (dates@.len() % 2 != 0 || !pairs_ok(
                    dates@,
                )),
            },
    {
        if dates.len() % 2 != 0 {
            return Err(VisaError::InvalidInterval);
        }
        let mut out: Vec<DateInterval> = Vec::new();
        let mut i: usize = 0;
        proof {
            assert(dates@.skip(0) =~= dates@);
            assert(Seq::<DateInterval>::empty() + build_spec(dates@, control_period) =~= build_spec(
                dates@,
                control_period,
            ));
        }
        while i < dates.len()
            invariant
                control_period.wf(),
                forall|k: int| 0 <= k < dates@.len() ==> (#[trigger] dates@[k]).valid(),
                dates@.len() % 2 == 0,
                i % 2 == 0,
                0 <= i <= dates@.len(),
                pairs_ok(dates@) == pairs_ok(dates@.skip(i as int)),
                build_spec(dates@, control_period) == out@ + build_spec(
                    dates@.skip(i as int),
                    control_period,
                ),
                forall|k: int|
                    0 <= k < out@.len() ==> (#[trigger] out@[k]).wf() && out@[k].within(
                        control_period,
                    ),
            decreases dates@.len() - i,
        {
            let ghost rest = dates@.skip(i as int);
            proof {
                assert(rest.len() >= 2);
                assert(rest[0] == dates@[i as int]);
                assert(rest[1] == dates@[i + 1]);
                assert(rest.skip(2) =~= dates@.skip(i + 2));
            }
            let a = dates[i];
            let b = dates[i + 1];
            let di = match DateInterval::new(a, b) {
                Ok(di) => di,
                Err(e) => {
                    proof {
                        assert(!pairs_ok(rest));
                    }
                    return Err(e);
                },
            };
            if di.overlaps(control_period) {
                let mut clipped = di;
                clipped.start_no_earlier(control_period.a);
                clipped.end_no_later(control_period.b);
                proof {
                    assert(clipped == clip_to_window(di, control_period));
                    assert(clipped.within(control_period));
                }
                out.push(clipped);
                proof {
                    assert(out@.drop_last() + seq![clipped] =~= out@);
                    assert(out@.drop_last() + (seq![clipped] + build_spec(
                        dates@.skip(i + 2),
                        control_period,
                    )) =~= out@ + build_spec(dates@.skip(i + 2), control_period));
                }
            }
            i = i + 2;
        }
        proof {
            assert(dates@.skip(dates@.len() as int) =~= Seq::<Date>::empty());
            assert(out@ + Seq::<DateInterval>::empty() =~= out@);
        }
        Ok(DateIntervalVec(out))
    }

    /// The total number of days spent, the sum of the inclusive lengths of
    /// the kept, clipped intervals.
    ///
    /// The caller must know that the total fits the machine word; see
    /// [`DateIntervalVec::num_spent_days_checked`] for the unconditional
    /// form.
    pub fn num_spent_days(&self) -> (r: usize)
        requires
            self.wf(),
            total_days(self.0@) <= usize::MAX,
        ensures
            r == total_days(self.0@),
    {
        match self.num_spent_days_checked() {
            Some(t) => t,
            None => {
                proof {
                    assert(false);
                }
                0
            },
        }
    }

    /// The total number of days spent, or `None` when the sum does not fit
    /// the machine word.
    pub fn num_spent_days_checked(&self) -> (r: Option<usize>)
        requires
            self.wf(),
        ensures
            match r {
                Some(t) => t == total_days(self.0@),
                None => total_days(self.0@) > usize::MAX,
            },
    {
        let mut acc: usize = 0;
        let mut i: usize = 0;
        proof {
            assert(self.0@.skip(0) =~= self.0@);
        }
        while i < self.0.len()
            invariant
                self.wf(),
                0 <= i <= self.0@.len(),
                total_days(self.0@) == acc + total_days(self.0@.skip(i as int)),
            decreases self.0@.len() - i,
        {
            let ghost rest = self.0@.skip(i as int);
            proof {
                assert(rest[0] == self.0@[i as int]);
                assert(rest.drop_first() =~= self.0@.skip(i + 1));
                assert forall|k: int| 0 <= k < rest.drop_first().len() implies (#[trigger] rest
                    .drop_first()[k]).wf() by {
                    assert(rest.drop_first()[k] == self.0@[i + 1 + k]);
                }
                lemma_total_days_nonneg(rest.drop_first());
            }
            let len = self.0[i].abs_num_days();
            if len > usize::MAX - acc {
                proof {
                    assert(total_days(self.0@) >= acc + len);
                }
                return None;
            }
            acc = acc + len;
            i = i + 1;
        }
        proof {
            assert(self.0@.skip(self.0@.len() as int) =~= Seq::<DateInterval>::empty());
        }
        Some(acc)
    }
}

/// The outcome of a run: whether the spent total stays within the allowed
/// threshold.
#[derive(Clone, Copy, Debug, PartialEq, Eq, Structural)]
pub enum Verdict {
    /// The total is at or below the allowance.
    Within,
    /// The total is strictly above the allowance.
    Exceeds,
}

/// Compares the spent total against the allowed threshold. The verdict is
/// `Exceeds` exactly when `total > allowed`: a total exactly equal to the
/// allowance is compliant.
pub fn assess(total: usize, allowed: usize) -> (v: Verdict)
    ensures
        (v == Verdict::Exceeds) <==> total > allowed,
        (v == Verdict::Within) <==> total <= allowed,
{
    if total > allowed {
        Verdict::Exceeds
    } else {
        Verdict::Within
    }
}

/// On an overlapping stay the two clipping steps produce exactly the
/// intersection with the window: the later of the two starts and the earlier
/// of the two ends, a well-formed interval inside the window.
pub proof fn lemma_clip_is_intersection(di: DateInterval, w: DateInterval)
    requires
        di.wf(),
        w.wf(),
        di.overlaps_spec(w),
    ensures
        clip_to_window(di, w).a.day() == if di.a.day() >= w.a.day() {
            di.a.day()
        } else {
            w.a.day()
        },
        clip_to_window(di, w).b.day() == if di.b.day() <= w.b.day() {
            di.b.day()
        } else {
            w.b.day()
        },
        clip_to_window(di, w).wf(),
        clip_to_window(di, w).within(w),
{
}

/// A pair that lies entirely outside the window (wholly before it or wholly
/// after it) is excluded from the built collection.
pub proof fn lemma_outside_window_excluded(a: Date, b: Date, w: DateInterval)
    requires
        a.day() <= b.day(),
        b.day() < w.a.day() || a.day() > w.b.day(),
    ensures
        build_spec(seq![a, b], w) == Seq::<DateInterval>::empty(),
{
    reveal_with_fuel(build_spec, 2);
    let di = DateInterval { a, b };
    assert(!di.overlaps_spec(w));
    assert(seq![a, b][0] == a);
    assert(seq![a, b][1] == b);
    assert(seq![a, b].skip(2).len() == 0);
}

/// A pair that touches the window at exactly one shared day is kept, and
/// after clipping it covers exactly that one day.
pub proof fn lemma_touching_window_kept(a: Date, b: Date, w: DateInterval)
    requires
        a.valid(),
        b.valid(),
        w.wf(),
        a.day() <= b.day(),
        b.day() == w.a.day() || a.day() == w.b.day(),
    ensures
        build_spec(seq![a, b], w).len() == 1,
        build_spec(seq![a, b], w)[0].length_spec() == 1,
{
    reveal_with_fuel(build_spec, 2);
    let di = DateInterval { a, b };
    assert(di.overlaps_spec(w));
    assert(seq![a, b][0] == a);
    assert(seq![a, b][1] == b);
    assert(seq![a, b].skip(2).len() == 0);
    let clipped = clip_to_window(di, w);
    assert(build_spec(seq![a, b], w) =~= seq![clipped]);
    if b.day() == w.a.day() {
        assert(clipped.a.day() == w.a.day());
        assert(clipped.b.day() == b.day());
    } else {
        assert(clipped.a.day() == a.day());
        assert(clipped.b.day() == w.b.day());
    }
}

} // verus!
