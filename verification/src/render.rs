use vstd::prelude::*;

use crate::builder::DateIntervalVec;
use crate::date::ymd_chars;
use crate::date::ymd_text;
use crate::interval::DateInterval;

verus! {

/// The decimal digit character of a value below ten.
pub open spec fn dec_digit(n: int) -> char {
    if n == 0 {
        '0'
    } else if n == 1 {
        '1'
    } else if n == 2 {
        '2'
    } else if n == 3 {
        '3'
    } else if n == 4 {
        '4'
    } else if n == 5 {
        '5'
    } else if n == 6 {
        '6'
    } else if n == 7 {
        '7'
    } else if n == 8 {
        '8'
    } else {
        '9'
    }
}

/// The base-10 text of a number: most significant digit first, no sign and
/// no leading zeros, a single `0` for zero.
pub open spec fn dec_rep(n: nat) -> Seq<char>
    decreases n,
{
    if n < 10 {
        seq![dec_digit(n as int)]
    } else {
        dec_rep(n / 10).push(dec_digit((n % 10) as int))
    }
}

/// The decimal digit character of a value below ten.
fn dec_digit_char(x: usize) -> (c: char)
    requires
        x < 10,
    ensures
        c == dec_digit(x as int),
{
    if x == 0 {
        '0'
    } else if x == 1 {
        '1'
    } else if x == 2 {
        '2'
    } else if x == 3 {
        '3'
    } else if x == 4 {
        '4'
    } else if x == 5 {
        '5'
    } else if x == 6 {
        '6'
    } else if x == 7 {
        '7'
    } else if x == 8 {
        '8'
    } else {
        '9'
    }
}

/// Writes a number in base 10, most significant digit first.
fn decimal_chars(n: usize) -> (r: Vec<char>)
    ensures
        r@ == dec_rep(n as nat),
{
    // Collect the digits least significant first, then reverse them.
    let mut digits: Vec<char> = Vec::new();
    let mut rest: usize = n;
    proof {
        assert(digits@.reverse() =~= Seq::<char>::empty());
        assert(dec_rep(n as nat) + Seq::<char>::empty() =~= dec_rep(n as nat));
    }
    while rest >= 10
        invariant
            dec_rep(n as nat) == dec_rep(rest as nat) + digits@.reverse(),
        decreases rest,
    {
        let ghost predig = digits@;
        let d = dec_digit_char(rest % 10);
        digits.push(d);
        proof {
            assert(digits@ == predig.push(d));
            assert(digits@.reverse() =~= seq![d] + predig.reverse());
            assert(dec_rep(rest as nat) == dec_rep((rest / 10) as nat).push(
                dec_digit((rest % 10) as int),
            ));
            assert(dec_rep((rest / 10) as nat).push(d) =~= dec_rep((rest / 10) as nat) + seq![d]);
            assert((dec_rep((rest / 10) as nat) + seq![d]) + predig.reverse() =~= dec_rep(
                (rest / 10) as nat,
            ) + (seq![d] + predig.reverse()));
        }
        rest = rest / 10;
    }
    let ghost predig = digits@;
    let d = dec_digit_char(rest);
    digits.push(d);
    proof {
        assert(dec_rep(rest as nat) == seq![dec_digit(rest as int)]);
        assert(digits@.reverse() =~= seq![d] + predig.reverse());
        assert(seq![d] + predig.reverse() =~= dec_rep(rest as nat) + predig.reverse());
        assert(dec_rep(n as nat) == digits@.reverse());
    }
    let mut out: Vec<char> = Vec::new();
    let mut i: usize = digits.len();
    while i > 0
        invariant
            0 <= i <= digits@.len(),
            out@.len() == digits@.len() - i,
            forall|j: int| 0 <= j < out@.len() ==> #[trigger] out@[j] == digits@[digits@.len() - 1
                - j],
        decreases i,
    {
        i = i - 1;
        out.push(digits[i]);
    }
    proof {
        assert(out@ =~= digits@.reverse());
    }
    out
}

/// Relies on `String`'s `FromIterator<char>` (std): collecting characters
/// yields the string of exactly those characters in order.
#[verifier::external_body]
fn chars_to_string(cs: &Vec<char>) -> (r: String)
    ensures
        r@ == cs@,
{
    cs.iter().collect()
}

/// The display text of one interval: `from A to B` with both dates in
/// `YYYY-MM-DD` form.
pub open spec fn interval_text(di: DateInterval) -> Seq<char> {
    "from "@ + ymd_text(di.a.day()) + " to "@ + ymd_text(di.b.day())
}

/// The display text of the kept intervals from position `i` on, numbered
/// from `n` and separated by commas: `n) from A to B, n+1) from C to D`.
pub open spec fn listing_text(s: Seq<DateInterval>, i: int, n: nat) -> Seq<char>
    decreases s.len() - i,
{
    if i < 0 || i >= s.len() {
        Seq::empty()
    } else {
        dec_rep(n) + ") "@ + interval_text(s[i]) + (if i + 1 < s.len() {
            ", "@ + listing_text(s, i + 1, n + 1)
        } else {
            Seq::empty()
        })
    }
}

fn interval_chars(di: &DateInterval) -> (r: Vec<char>)
    requires
        di.wf(),
    ensures
        r@ == interval_text(*di),
{
    let mut out: Vec<char> = Vec::new();
    out.push('f');
    out.push('r');
    out.push('o');
    out.push('m');
    out.push(' ');
    proof {
        reveal_strlit("from ");
        assert(out@ =~= "from "@);
    }
    let mut av = ymd_chars(di.a);
    out.append(&mut av);
    out.push(' ');
    out.push('t');
    out.push('o');
    out.push(' ');
    let ghost mid = out@;
    proof {
        reveal_strlit(" to ");
        assert(mid =~= "from "@ + ymd_text(di.a.day()) + " to "@);
    }
    let mut bv = ymd_chars(di.b);
    out.append(&mut bv);
    proof {
        assert(out@ =~= interval_text(*di));
    }
    out
}

impl DateInterval {
    /// The human-readable text of this interval: `from A to B`.
    pub fn render(&self) -> (r: String)
        requires
            self.wf(),
        ensures
            r@ == interval_text(*self),
    {
        let cs = interval_chars(self);
        chars_to_string(&cs)
    }
}

impl DateIntervalVec {
    /// The human-readable, numbered list of the kept intervals:
    /// `1) from A to B, 2) from C to D`. Empty when no interval was kept.
    pub fn render(&self) -> (r: String)
        requires
            self.wf(),
        ensures
            r@ == listing_text(self.0@, 0, 1),
    {
        let s = &self.0;
        let mut out: Vec<char> = Vec::new();
        let mut i: usize = 0;
        while i < s.len()
            invariant
                self.wf(),
                s == self.0,
                0 <= i <= s@.len(),
                out@ + listing_text(s@, i as int, (i + 1) as nat) == listing_text(s@, 0, 1),
            decreases s@.len() - i,
        {
            let ghost before = out@;
            let mut num = decimal_chars(i + 1);
            out.append(&mut num);
            out.push(')');
            out.push(' ');
            let mut piece = interval_chars(&s[i]);
            out.append(&mut piece);
            if i + 1 < s.len() {
                out.push(',');
                out.push(' ');
            }
            proof {
                reveal_strlit(") ");
                reveal_strlit(", ");
                if i + 1 < s@.len() {
                    assert(out@ =~= before + (dec_rep((i + 1) as nat) + ") "@ + interval_text(
                        s@[i as int],
                    ) + ", "@));
                    assert(listing_text(s@, i as int, (i + 1) as nat) == dec_rep((i + 1) as nat)
                        + ") "@ + interval_text(s@[i as int]) + (", "@ + listing_text(
                        s@,
                        i + 1,
                        (i + 2) as nat,
                    )));
                    assert(out@ + listing_text(s@, i + 1, (i + 2) as nat) =~= before
                        + listing_text(s@, i as int, (i + 1) as nat));
                } else {
                    assert(out@ =~= before + (dec_rep((i + 1) as nat) + ") "@ + interval_text(
                        s@[i as int],
                    )));
                    assert(listing_text(s@, i as int, (i + 1) as nat) == dec_rep((i + 1) as nat)
                        + ") "@ + interval_text(s@[i as int]) + Seq::<char>::empty());
                    assert(out@ + listing_text(s@, i + 1, (i + 2) as nat) =~= before
                        + listing_text(s@, i as int, (i + 1) as nat));
                }
            }
            i = i + 1;
        }
        proof {
            assert(out@ + Seq::<char>::empty() =~= out@);
        }
        chars_to_string(&out)
    }
}

} // verus!
