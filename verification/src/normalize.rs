use vstd::prelude::*;

use crate::date::Date;

verus! {

broadcast use
    vstd::seq_lib::group_to_multiset_ensures,
    vstd::multiset::group_multiset_axioms,
    vstd::set::group_set_axioms,
;

/// The dates appear in ascending order, repeats allowed.
pub open spec fn sorted(s: Seq<Date>) -> bool {
    forall|i: int, j: int| 0 <= i <= j < s.len() ==> #[trigger] s[i].day() <= #[trigger] s[j].day()
}

/// The dates appear in strictly ascending order: sorted and duplicate-free.
pub open spec fn strictly_sorted(s: Seq<Date>) -> bool {
    forall|i: int, j: int| 0 <= i < j < s.len() ==> #[trigger] s[i].day() < #[trigger] s[j].day()
}

/// Membership carries over between two lists whose sets of dates coincide.
proof fn lemma_set_contains_transfer(s: Seq<Date>, t: Seq<Date>, x: Date)
    requires
        s.to_set() == t.to_set(),
        s.contains(x),
    ensures
        t.contains(x),
{
    assert(s.to_set().contains(x));
    assert(t.to_set().contains(x));
}

/// Sorts the dates ascending, keeping exactly the same multiset of values.
fn sort_dates(v: &mut Vec<Date>)
    ensures
        sorted(final(v)@),
        final(v)@.to_multiset() == old(v)@.to_multiset(),
        final(v)@.len() == old(v)@.len(),
        forall|x: Date| final(v)@.contains(x) <==> old(v)@.contains(x),
{
    let ghost orig = v@;
    let mut out: Vec<Date> = Vec::new();
    while v.len() > 0
        invariant
            sorted(out@),
            out@.to_multiset().add(v@.to_multiset()) == orig.to_multiset(),
            out@.len() + v@.len() == orig.len(),
            forall|i: int, j: int|
                0 <= i < out@.len() && 0 <= j < v@.len() ==> #[trigger] out@[i].day()
                    <= #[trigger] v@[j].day(),
        decreases v@.len(),
    {
        // Find the least remaining date.
        let mut m: usize = 0;
        let mut k: usize = 1;
        while k < v.len()
            invariant
                0 <= m < k <= v@.len(),
                v@.len() > 0,
                forall|j: int| 0 <= j < k ==> v@[m as int].day() <= #[trigger] v@[j].day(),
            decreases v@.len() - k,
        {
            if v[k].days < v[m].days {
                m = k;
            }
            k = k + 1;
        }
        let ghost pre = v@;
        let ghost preout = out@;
        let x = v.remove(m);
        out.push(x);
        proof {
            assert(pre[m as int] == x);
            assert(pre.contains(x));
            assert(v@ == pre.remove(m as int));
            assert(out@ == preout.push(x));
            assert(v@.to_multiset() =~= pre.to_multiset().remove(x));
            assert(out@.to_multiset() =~= preout.to_multiset().insert(x));
            assert(out@.to_multiset().add(v@.to_multiset()) =~= orig.to_multiset());
            assert forall|i: int, j: int|
                0 <= i < out@.len() && 0 <= j < v@.len() implies #[trigger] out@[i].day()
                <= #[trigger] v@[j].day() by {
                assert(v@[j] == if j < m { pre[j] } else { pre[j + 1] });
                if i < out@.len() - 1 {
                    assert(out@[i] == preout[i]);
                } else {
                    assert(out@[i] == x);
                }
            }
            assert forall|i: int, j: int|
                0 <= i <= j < out@.len() implies #[trigger] out@[i].day()
                <= #[trigger] out@[j].day() by {
                if j < out@.len() - 1 {
                    assert(out@[i] == preout[i] && out@[j] == preout[j]);
                } else if i < out@.len() - 1 {
                    assert(out@[i] == preout[i]);
                    assert(preout[i].day() <= pre[m as int].day());
                }
            }
        }
    }
    proof {
        assert forall|x: Date| #[trigger] out@.to_multiset().count(x) == orig.to_multiset().count(
            x,
        ) by {
            assert(!v@.contains(x));
            assert(v@.to_multiset().count(x) == 0);
            assert(out@.to_multiset().add(v@.to_multiset()).count(x) == out@.to_multiset().count(x)
                + v@.to_multiset().count(x));
        }
        assert(out@.to_multiset() =~= orig.to_multiset());
        assert forall|x: Date| out@.contains(x) <==> orig.contains(x) by {
            assert(out@.to_multiset().count(x) == orig.to_multiset().count(x));
        }
    }
    *v = out;
}

/// Removes adjacent duplicates from a sorted list, leaving a strictly sorted
/// list with the same set of dates.
fn dedup_sorted(v: &mut Vec<Date>)
    requires
        sorted(old(v)@),
    ensures
        strictly_sorted(final(v)@),
        final(v)@.to_set() == old(v)@.to_set(),
        final(v)@.len() <= old(v)@.len(),
{
    let ghost orig = v@;
    let mut out: Vec<Date> = Vec::new();
    let mut i: usize = 0;
    proof {
        assert(orig.take(0).len() == 0);
        assert(out@.to_set() =~= orig.take(0).to_set());
    }
    while i < v.len()
        invariant
            sorted(orig),
            v@ == orig,
            0 <= i <= orig.len(),
            strictly_sorted(out@),
            out@.to_set() == orig.take(i as int).to_set(),
            out@.len() <= i,
            out@.len() > 0 ==> i > 0 && out@.last() == orig[i - 1],
        decreases orig.len() - i,
    {
        let ghost pre = out@;
        let ghost cur = orig[i as int];
        if out.len() == 0 || out[out.len() - 1].days != v[i].days {
            out.push(v[i]);
        }
        proof {
            if pre.len() > 0 && pre.last().days == cur.days {
                // The repeat is already kept: nothing was pushed and the
                // sets coincide.
                assert(pre.last() == cur);
                assert(out@ == pre);
                assert(pre[pre.len() - 1] == cur);
                assert(pre.contains(cur));
                assert forall|x: Date| orig.take(i + 1).contains(x) implies out@.contains(x) by {
                    let w = choose|w: int|
                        0 <= w < orig.take(i + 1).len() && #[trigger] orig.take(i + 1)[w] == x;
                    if w < i {
                        assert(orig.take(i as int)[w] == x);
                        assert(orig.take(i as int).contains(x));
                        lemma_set_contains_transfer(orig.take(i as int), pre, x);
                    } else {
                        assert(x == cur);
                    }
                }
                assert forall|x: Date| out@.contains(x) implies orig.take(i + 1).contains(x) by {
                    lemma_set_contains_transfer(pre, orig.take(i as int), x);
                    let u = choose|u: int|
                        0 <= u < orig.take(i as int).len() && #[trigger] orig.take(i as int)[u]
                            == x;
                    assert(orig.take(i + 1)[u] == x);
                }
                assert(out@.to_set() =~= orig.take(i + 1).to_set());
            } else {
                // A new date: it is strictly larger than everything kept.
                assert(out@ == pre.push(cur));
                assert forall|j: int| 0 <= j < pre.len() implies #[trigger] pre[j].day()
                    < cur.day() by {
                    assert(pre.last() == orig[i - 1]);
                    assert(pre[j].day() <= pre.last().day());
                    assert(orig[i - 1].day() <= cur.day());
                    assert(pre.last().days != cur.days);
                }
                assert forall|p: int, q: int|
                    0 <= p < q < out@.len() implies #[trigger] out@[p].day()
                    < #[trigger] out@[q].day() by {
                    if q < out@.len() - 1 {
                        assert(out@[p] == pre[p] && out@[q] == pre[q]);
                    } else {
                        assert(out@[q] == cur);
                        assert(out@[p] == pre[p]);
                    }
                }
                assert forall|x: Date| orig.take(i + 1).contains(x) implies out@.contains(x) by {
                    let w = choose|w: int|
                        0 <= w < orig.take(i + 1).len() && #[trigger] orig.take(i + 1)[w] == x;
                    if w < i {
                        assert(orig.take(i as int)[w] == x);
                        assert(orig.take(i as int).contains(x));
                        lemma_set_contains_transfer(orig.take(i as int), pre, x);
                        let u = choose|u: int| 0 <= u < pre.len() && #[trigger] pre[u] == x;
                        assert(out@[u] == x);
                    } else {
                        assert(x == cur);
                        assert(out@.last() == x);
                    }
                }
                assert forall|x: Date| out@.contains(x) implies orig.take(i + 1).contains(x) by {
                    let w = choose|w: int| 0 <= w < out@.len() && #[trigger] out@[w] == x;
                    if w < out@.len() - 1 {
                        assert(pre[w] == x);
                        assert(pre.contains(x));
                        lemma_set_contains_transfer(pre, orig.take(i as int), x);
                        let u = choose|u: int|
                            0 <= u < orig.take(i as int).len() && #[trigger] orig.take(
                                i as int,
                            )[u] == x;
                        assert(orig.take(i + 1)[u] == x);
                    } else {
                        assert(x == cur);
                        assert(orig.take(i + 1)[i as int] == x);
                    }
                }
                assert(out@.to_set() =~= orig.take(i + 1).to_set());
            }
        }
        i = i + 1;
    }
    proof {
        assert(orig.take(orig.len() as int) =~= orig);
    }
    *v = out;
}

/// Sorts the raw input dates ascending and removes exact duplicates, leaving
/// the strictly sorted list of distinct input dates.
///
/// Returns how many duplicates were removed. The count is informational, not
/// an error; a count of 0 means nothing was removed. Normalizing never
/// lengthens the list, and normalizing an already normalized list returns it
/// unchanged (see [`lemma_strictly_sorted_same_set_equal`]).
pub fn sort_and_dedup_dates(dates: &mut Vec<Date>) -> (num_dups: usize)
    ensures
        strictly_sorted(final(dates)@),
        final(dates)@.to_set() == old(dates)@.to_set(),
        final(dates)@.len() <= old(dates)@.len(),
        num_dups == old(dates)@.len() - final(dates)@.len(),
{
    let n = dates.len();
    sort_dates(dates);
    proof {
        assert(dates@.to_set() =~= old(dates)@.to_set());
    }
    dedup_sorted(dates);
    n - dates.len()
}

/// Two strictly sorted lists over the same set of dates are the same list.
///
/// Together with the contract of [`sort_and_dedup_dates`] this says that
/// normalizing is idempotent: running it again on its own output returns
/// that output unchanged.
pub proof fn lemma_strictly_sorted_same_set_equal(s: Seq<Date>, t: Seq<Date>)
    requires
        strictly_sorted(s),
        strictly_sorted(t),
        s.to_set() == t.to_set(),
    ensures
        s == t,
    decreases s.len(),
{
    if s.len() == 0 {
        if t.len() > 0 {
            assert(t.contains(t[0]));
            lemma_set_contains_transfer(t, s, t[0]);
        }
        assert(s =~= t);
    } else {
        assert(s.contains(s[0]));
        lemma_set_contains_transfer(s, t, s[0]);
        assert(t.len() > 0);
        assert(t.contains(t[0]));
        lemma_set_contains_transfer(t, s, t[0]);
        // Both heads are the least element of the shared set.
        let u = choose|u: int| 0 <= u < t.len() && #[trigger] t[u] == s[0];
        assert(t[0].day() <= t[u].day());
        let w = choose|w: int| 0 <= w < s.len() && #[trigger] s[w] == t[0];
        assert(s[0].day() <= s[w].day());
        assert(s[0] == t[0]);
        // The heads do not recur in the tails, so the tails share their set.
        let s1 = s.drop_first();
        let t1 = t.drop_first();
        assert forall|x: Date| s1.contains(x) implies t1.contains(x) by {
            let p = choose|p: int| 0 <= p < s1.len() && #[trigger] s1[p] == x;
            assert(s[p + 1] == x);
            assert(s.contains(x));
            lemma_set_contains_transfer(s, t, x);
            let q = choose|q: int| 0 <= q < t.len() && #[trigger] t[q] == x;
            assert(x.day() > s[0].day());
            if q == 0 {
                assert(x == t[0]);
            }
            assert(t1[q - 1] == x);
        }
        assert forall|x: Date| t1.contains(x) implies s1.contains(x) by {
            let p = choose|p: int| 0 <= p < t1.len() && #[trigger] t1[p] == x;
            assert(t[p + 1] == x);
            assert(t.contains(x));
            lemma_set_contains_transfer(t, s, x);
            let q = choose|q: int| 0 <= q < s.len() && #[trigger] s[q] == x;
            assert(x.day() > t[0].day());
            if q == 0 {
                assert(x == s[0]);
            }
            assert(s1[q - 1] == x);
        }
        assert(s1.to_set() =~= t1.to_set());
        lemma_strictly_sorted_same_set_equal(s1, t1);
        assert(s1.len() == t1.len());
        assert forall|i: int| 0 <= i < s.len() implies s[i] == t[i] by {
            if i > 0 {
                assert(s1[i - 1] == t1[i - 1]);
            }
        }
        assert(s =~= t);
    }
}

} // verus!
