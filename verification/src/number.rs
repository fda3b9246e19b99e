//! `PreciseNumber`: a non-negative fixed-point number with eighteen decimal
//! places, held exactly as an integer count of 10^-18 parts.
//!
//! Every operation is exact on that count. Multiplication and division round
//! down to the next part; nothing else rounds. An operation whose result
//! does not fit in 128 bits returns `None`.

use crate::sums::{
    lemma_positives_bounds, lemma_shares_sum, lemma_sum_bounds_item, lemma_sum_empty,
    lemma_sum_extend, lemma_sum_monotone, lemma_sum_whole, lemma_sum_zero, positives, shares, sum,
    sum_from,
};
use crate::wide::{mul_div, scale};
use vstd::arithmetic::div_mod::{lemma_div_by_multiple, lemma_div_denominator};
use vstd::prelude::*;

verus! {

/// The number of parts in one: ten to the power eighteen.
pub const PRECISION: u128 = 1_000_000_000_000_000_000;

/// A non-negative number with eighteen decimal places. `raw` counts parts of
/// 10^-18, so the number one has `raw == PRECISION`.
#[derive(Clone, Copy, Debug, PartialEq, Eq, Structural)]
pub struct PreciseNumber {
    pub raw: u128,
}

impl View for PreciseNumber {
    type V = nat;

    /// The number, counted in parts of 10^-18.
    open spec fn view(&self) -> nat {
        self.raw as nat
    }
}

/// The part counts of a sequence of numbers.
pub open spec fn parts(values: Seq<PreciseNumber>) -> Seq<nat> {
    Seq::new(values.len(), |i: int| values[i]@)
}

/// What normalising the counts `w` gives: each count's share of one whole,
/// rounded down, or all zeros where the counts add up to zero.
pub open spec fn normalised(w: Seq<nat>) -> Seq<nat> {
    if sum(w) == 0 {
        Seq::new(w.len(), |i: int| 0nat)
    } else {
        shares(w, PRECISION as nat, sum(w))
    }
}

/// Normalised counts add up to one, short of less than one part per count
/// that is not zero; counts that add up to zero stay zero.
pub proof fn lemma_normalised_total(w: Seq<nat>)
    ensures
        sum(w) > 0 ==> PRECISION - positives(w) < sum(normalised(w)) <= PRECISION,
        positives(w) <= w.len(),
        sum(w) == 0 ==> forall|i: int| 0 <= i < w.len() ==> normalised(w)[i] == 0,
        sum(w) == 0 ==> sum(normalised(w)) == 0,
{
    lemma_positives_bounds(w);
    if sum(w) > 0 {
        lemma_shares_sum(w, PRECISION as nat);
    } else {
        lemma_sum_zero(normalised(w));
    }
}

/// Multiplying a number by a whole number and dividing the product by
/// another rounds once: the result is the number times the first, divided by
/// the second and rounded down, as it would be without rounding in between.
pub proof fn lemma_scale_by_ratio(x: nat, count: nat, total: nat)
    requires
        total > 0,
    ensures
        ({
            let one = PRECISION as nat;
            let product = (x * (count * one)) / one;
            (product * one) / (total * one)
        }) == (x * count) / total,
{
    let p = PRECISION as int;
    let xc = (x * count) as int;
    let t = total as int;
    assert(x * (count * p) == xc * p) by (nonlinear_arith)
        requires
            xc == x * count,
    ;
    lemma_div_by_multiple(xc, p);
    lemma_div_denominator(xc * p, p, t);
    assert(p * t == t * p) by (nonlinear_arith);
}

impl PreciseNumber {
    /// The whole number `value`.
    pub fn from(value: u64) -> (r: Self)
        ensures
            r@ == value * PRECISION,
    {
        let wide_value: u128 = value as u128;
        assert(wide_value * PRECISION <= u128::MAX) by (nonlinear_arith)
            requires
                wide_value <= u64::MAX,
                PRECISION == 1_000_000_000_000_000_000,
        ;
        PreciseNumber { raw: wide_value * PRECISION }
    }

    /// Zero.
    pub fn zero() -> (r: Self)
        ensures
            r@ == 0,
    {
        PreciseNumber { raw: 0 }
    }

    /// Whether the number is zero.
    pub fn is_zero(&self) -> (r: bool)
        ensures
            r == (self@ == 0),
    {
        self.raw == 0
    }

    /// The sum, or `None` where it does not fit.
    pub fn checked_add(self, rhs: Self) -> (r: Option<Self>)
        ensures
            match r {
                Some(s) => s@ == self@ + rhs@,
                None => self@ + rhs@ > u128::MAX,
            },
    {
        match self.raw.checked_add(rhs.raw) {
            Some(raw) => Some(PreciseNumber { raw }),
            None => None,
        }
    }

    /// The difference, or `None` where `rhs` is the larger.
    pub fn checked_sub(self, rhs: Self) -> (r: Option<Self>)
        ensures
            match r {
                Some(s) => s@ == self@ - rhs@,
                None => self@ < rhs@,
            },
    {
        if self.raw >= rhs.raw {
            Some(PreciseNumber { raw: self.raw - rhs.raw })
        } else {
            None
        }
    }

    /// The product, rounded down to the next part, or `None` where it does
    /// not fit.
    pub fn checked_mul(self, rhs: Self) -> (r: Option<Self>)
        ensures
            match r {
                Some(p) => p@ == (self@ * rhs@) / (PRECISION as nat),
                None => (self@ * rhs@) / (PRECISION as nat) > u128::MAX,
            },
    {
        match mul_div(self.raw, rhs.raw, PRECISION) {
            Some(raw) => Some(PreciseNumber { raw }),
            None => None,
        }
    }

    /// The quotient, rounded down to the next part, or `None` where `rhs` is
    /// zero or the quotient does not fit.
    pub fn checked_div(self, rhs: Self) -> (r: Option<Self>)
        ensures
            match r {
                Some(q) => rhs@ != 0 && q@ == (self@ * (PRECISION as nat)) / rhs@,
                None => rhs@ == 0 || (self@ * (PRECISION as nat)) / rhs@ > u128::MAX,
            },
    {
        match mul_div(self.raw, PRECISION, rhs.raw) {
            Some(raw) => Some(PreciseNumber { raw }),
            None => None,
        }
    }

    /// `self < other`.
    pub fn lt(&self, other: &Self) -> (r: bool)
        ensures
            r == (self@ < other@),
    {
        self.raw < other.raw
    }

    /// `self <= other`.
    pub fn le(&self, other: &Self) -> (r: bool)
        ensures
            r == (self@ <= other@),
    {
        self.raw <= other.raw
    }

    /// `self > other`.
    pub fn gt(&self, other: &Self) -> (r: bool)
        ensures
            r == (self@ > other@),
    {
        self.raw > other.raw
    }

    /// `self >= other`.
    pub fn ge(&self, other: &Self) -> (r: bool)
        ensures
            r == (self@ >= other@),
    {
        self.raw >= other.raw
    }
}

/// The sum of `values` from index `start` on, or `None` where it does not
/// fit. A `start` at or beyond the end gives zero.
pub fn sum_from_index(values: &Vec<PreciseNumber>, start: usize) -> (r: Option<PreciseNumber>)
    ensures
        match r {
            Some(s) => s@ == sum_from(parts(values@), start as int),
            None => sum_from(parts(values@), start as int) > u128::MAX,
        },
{
    let n = values.len();
    if start >= n {
        return Some(PreciseNumber::zero());
    }
    let ghost w = parts(values@);
    let mut acc: u128 = 0;
    let mut j: usize = start;
    proof {
        lemma_sum_empty(w, start as int);
    }
    while j < n
        invariant
            start <= j <= n,
            n == values.len(),
            w == parts(values@),
            acc == sum(w.subrange(start as int, j as int)),
        decreases n - j,
    {
        proof {
            lemma_sum_extend(w, start as int, j as int);
            lemma_sum_monotone(w, start as int, j + 1, n as int);
        }
        match acc.checked_add(values[j].raw) {
            Some(next) => {
                acc = next;
            },
            None => {
                return None;
            },
        }
        j = j + 1;
    }
    Some(PreciseNumber { raw: acc })
}

/// The sum of all of `values`, or `None` where it does not fit.
pub fn checked_sum(values: &Vec<PreciseNumber>) -> (r: Option<PreciseNumber>)
    ensures
        match r {
            Some(s) => s@ == sum(parts(values@)),
            None => sum(parts(values@)) > u128::MAX,
        },
{
    proof {
        lemma_sum_whole(parts(values@));
    }
    sum_from_index(values, 0)
}

/// Scales `values` so that they add up to one: each becomes its share of
/// the total, rounded down to the next part. Values that add up to zero all
/// become zero. `None` is returned exactly when the total does not fit.
pub fn normalise(values: &Vec<PreciseNumber>) -> (r: Option<Vec<PreciseNumber>>)
    ensures
        match r {
            Some(out) => {
                &&& sum(parts(values@)) <= u128::MAX
                &&& out@.len() == values@.len()
                &&& parts(out@) == normalised(parts(values@))
            },
            None => sum(parts(values@)) > u128::MAX,
        },
{
    let total = match checked_sum(values) {
        Some(t) => t,
        None => {
            return None;
        },
    };
    let ghost w = parts(values@);
    let mut out: Vec<PreciseNumber> = Vec::new();
    let mut i: usize = 0;
    while i < values.len()
        invariant
            i <= values.len(),
            w == parts(values@),
            total@ == sum(w),
            out@.len() == i,
            forall|k: int| 0 <= k < i ==> out@[k]@ == #[trigger] normalised(w)[k],
        decreases values.len() - i,
    {
        if total.raw == 0 {
            out.push(PreciseNumber::zero());
        } else {
            proof {
                lemma_sum_bounds_item(w, i as int);
            }
            out.push(PreciseNumber { raw: scale(values[i].raw, PRECISION, total.raw) });
        }
        i = i + 1;
    }
    proof {
        assert(parts(out@) =~= normalised(w));
    }
    Some(out)
}

} // verus!
