//! Finite sums of natural numbers, and the facts about them that the block
//! update rests on.

use vstd::arithmetic::div_mod::{lemma_fundamental_div_mod, lemma_mod_bound};
use vstd::prelude::*;

verus! {

/// The sum of the items of `s`.
pub open spec fn sum(s: Seq<nat>) -> nat
    decreases s.len(),
{
    if s.len() == 0 {
        0
    } else {
        sum(s.drop_last()) + s.last()
    }
}

/// The sum of the items of `s` from index `start` on; zero when `start` lies
/// at or beyond the end.
pub open spec fn sum_from(s: Seq<nat>, start: int) -> nat {
    if 0 <= start < s.len() {
        sum(s.subrange(start, s.len() as int))
    } else {
        0
    }
}

/// The sum over the empty range is zero.
pub proof fn lemma_sum_empty(s: Seq<nat>, a: int)
    requires
        0 <= a <= s.len(),
    ensures
        sum(s.subrange(a, a)) == 0,
{
    assert(s.subrange(a, a).len() == 0);
}

/// Extending a range by one item adds that item to the sum.
pub proof fn lemma_sum_extend(s: Seq<nat>, a: int, j: int)
    requires
        0 <= a <= j < s.len(),
    ensures
        sum(s.subrange(a, j + 1)) == sum(s.subrange(a, j)) + s[j],
{
    assert(s.subrange(a, j + 1).drop_last() =~= s.subrange(a, j));
}

/// The sum over a range grows with the range's end.
pub proof fn lemma_sum_monotone(s: Seq<nat>, a: int, j: int, k: int)
    requires
        0 <= a <= j <= k <= s.len(),
    ensures
        sum(s.subrange(a, j)) <= sum(s.subrange(a, k)),
    decreases k - j,
{
    if j < k {
        lemma_sum_monotone(s, a, j, k - 1);
        lemma_sum_extend(s, a, k - 1);
    }
}

/// The sum over the whole sequence, written as a range.
pub proof fn lemma_sum_whole(s: Seq<nat>)
    ensures
        sum(s.subrange(0, s.len() as int)) == sum(s),
{
    assert(s.subrange(0, s.len() as int) =~= s);
}

/// No item exceeds the sum.
pub proof fn lemma_sum_bounds_item(s: Seq<nat>, i: int)
    requires
        0 <= i < s.len(),
    ensures
        s[i] <= sum(s),
{
    lemma_sum_extend(s, 0, i);
    lemma_sum_monotone(s, 0, i + 1, s.len() as int);
    lemma_sum_whole(s);
}

/// A sum is zero exactly when every item is zero.
pub proof fn lemma_sum_zero(s: Seq<nat>)
    ensures
        sum(s) == 0 <==> (forall|i: int| 0 <= i < s.len() ==> s[i] == 0),
    decreases s.len(),
{
    if s.len() > 0 {
        lemma_sum_zero(s.drop_last());
        if sum(s) == 0 {
            assert forall|i: int| 0 <= i < s.len() implies s[i] == 0 by {
                if i < s.len() - 1 {
                    assert(s.drop_last()[i] == s[i]);
                }
            }
        }
        if forall|i: int| 0 <= i < s.len() ==> s[i] == 0 {
            assert forall|i: int| 0 <= i < s.drop_last().len() implies s.drop_last()[i] == 0 by {
                assert(s.drop_last()[i] == s[i]);
            }
        }
    }
}

/// Sequences that agree item by item have the same sum.
pub proof fn lemma_sum_equal(s: Seq<nat>, t: Seq<nat>)
    requires
        s.len() == t.len(),
        forall|i: int| 0 <= i < s.len() ==> s[i] == t[i],
    ensures
        sum(s) == sum(t),
{
    assert(s =~= t);
}

/// The share of `w[i]` in `unit`, for a whole of `whole`, rounded down.
pub open spec fn shares(w: Seq<nat>, unit: nat, whole: nat) -> Seq<nat> {
    Seq::new(w.len(), |i: int| (w[i] * unit) / whole)
}

/// The number of items of `s` that are not zero.
pub open spec fn positives(s: Seq<nat>) -> nat
    decreases s.len(),
{
    if s.len() == 0 {
        0
    } else {
        positives(s.drop_last()) + if s.last() > 0 {
            1nat
        } else {
            0nat
        }
    }
}

/// Extending a range by one item counts that item where it is not zero.
pub proof fn lemma_positives_extend(s: Seq<nat>, j: int)
    requires
        0 <= j < s.len(),
    ensures
        positives(s.subrange(0, j + 1)) == positives(s.subrange(0, j)) + if s[j] > 0 {
            1nat
        } else {
            0nat
        },
        positives(s.subrange(0, j + 1)) <= j + 1,
    decreases j,
{
    assert(s.subrange(0, j + 1).drop_last() =~= s.subrange(0, j));
    if j > 0 {
        lemma_positives_extend(s, j - 1);
    } else {
        assert(s.subrange(0, 0).len() == 0);
    }
}

/// There are no more items that are not zero than items, and at least one
/// where the sum is not zero.
pub proof fn lemma_positives_bounds(s: Seq<nat>)
    ensures
        positives(s) <= s.len(),
        sum(s) > 0 ==> positives(s) > 0,
    decreases s.len(),
{
    if s.len() > 0 {
        lemma_positives_bounds(s.drop_last());
    }
}

proof fn lemma_shares_prefix(w: Seq<nat>, unit: nat, whole: nat, k: int)
    requires
        whole > 0,
        0 <= k <= w.len(),
    ensures
        whole * sum(shares(w, unit, whole).subrange(0, k)) <= unit * sum(w.subrange(0, k)),
        unit * sum(w.subrange(0, k)) <= whole * sum(shares(w, unit, whole).subrange(0, k))
            + positives(w.subrange(0, k)) * (whole - 1),
    decreases k,
{
    let sh = shares(w, unit, whole);
    if k == 0 {
        lemma_sum_empty(w, 0);
        lemma_sum_empty(sh, 0);
        assert(w.subrange(0, 0).len() == 0);
        assert(whole * 0 == 0) by (nonlinear_arith);
        assert(unit * 0 == 0) by (nonlinear_arith);
        assert(0 * (whole - 1) == 0) by (nonlinear_arith);
    } else {
        lemma_shares_prefix(w, unit, whole, k - 1);
        lemma_sum_extend(w, 0, k - 1);
        lemma_sum_extend(sh, 0, k - 1);
        lemma_positives_extend(w, k - 1);
        let x = (w[k - 1] * unit) as int;
        let d = whole as int;
        lemma_fundamental_div_mod(x, d);
        lemma_mod_bound(x, d);
        let a = sum(sh.subrange(0, k - 1)) as int;
        let b = sum(w.subrange(0, k - 1)) as int;
        let q = sh[k - 1] as int;
        let u = unit as int;
        let wk = w[k - 1] as int;
        let m = positives(w.subrange(0, k - 1)) as int;
        assert(q == x / d);
        assert(d * (a + q) == d * a + d * q) by (nonlinear_arith);
        assert(u * (b + wk) == u * b + wk * u) by (nonlinear_arith);
        if wk == 0 {
            assert(0 * u == 0) by (nonlinear_arith);
            assert(x == 0);
            assert(q == 0 && x % d == 0);
        } else {
            assert(m * (d - 1) + (d - 1) == (m + 1) * (d - 1)) by (nonlinear_arith);
        }
    }
}

/// Shares that are rounded down add up to the unit, short of less than one
/// part per share of an item that is not zero: with `m` such items of a
/// positive whole, the sum lies in the range from `unit - m + 1` to `unit`.
pub proof fn lemma_shares_sum(w: Seq<nat>, unit: nat)
    requires
        sum(w) > 0,
    ensures
        sum(shares(w, unit, sum(w))) <= unit,
        unit < sum(shares(w, unit, sum(w))) + positives(w),
{
    let whole = sum(w);
    let sh = shares(w, unit, whole);
    let n = w.len() as int;
    lemma_shares_prefix(w, unit, whole, n);
    lemma_sum_whole(w);
    lemma_sum_whole(sh);
    lemma_positives_bounds(w);
    assert(w.subrange(0, n) =~= w);
    let s = sum(sh) as int;
    let d = whole as int;
    let u = unit as int;
    let m = positives(w) as int;
    assert(s <= u) by (nonlinear_arith)
        requires
            d * s <= u * d,
            d > 0,
    ;
    assert(m * (d - 1) == d * m - m) by (nonlinear_arith);
    assert(d * s + d * m == d * (s + m)) by (nonlinear_arith);
    assert(u < s + m) by (nonlinear_arith)
        requires
            u * d < d * (s + m),
            d > 0,
    ;
}

/// A share is never more than the unit.
pub proof fn lemma_share_bound(part: nat, unit: nat, whole: nat)
    requires
        part <= whole,
        whole > 0,
    ensures
        (part * unit) / whole <= unit,
{
    let x = (part * unit) as int;
    let d = whole as int;
    lemma_fundamental_div_mod(x, d);
    lemma_mod_bound(x, d);
    let q = x / d;
    let u = unit as int;
    let p = part as int;
    assert(q <= u) by (nonlinear_arith)
        requires
            p * u == d * q + x % d,
            0 <= x % d,
            0 <= p <= d,
            d > 0,
            u >= 0,
    ;
}

} // verus!
