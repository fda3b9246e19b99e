//! Exact 256-bit intermediates for 128-bit fixed-point arithmetic.
//!
//! A product of two `u128` values is held as a pair of 128-bit words, and a
//! pair of words is divided by a `u128` with schoolbook binary long division.
//! Together they give `mul_div`, the floor of `a * b / c` with no intermediate
//! overflow.

use crate::sums::lemma_share_bound;
use vstd::arithmetic::div_mod::lemma_fundamental_div_mod_converse;
use vstd::arithmetic::power2::{
    lemma2_to64, lemma_pow2_adds, lemma_pow2_strictly_increases, lemma_pow2_unfold, pow2,
};
use vstd::prelude::*;

verus! {

/// Two to the power 64: the base in which a 128-bit word splits into halves.
pub const HALF: u128 = 0x1_0000_0000_0000_0000;

/// Two to the power 127: the weight of the top bit of a 128-bit word.
pub const TOP_BIT: u128 = 0x8000_0000_0000_0000_0000_0000_0000_0000;

/// Two to the power 128: the weight of the high word of a pair.
pub open spec fn word() -> nat {
    0x1_0000_0000_0000_0000_0000_0000_0000_0000nat
}

/// The number that the pair of words `(hi, lo)` stands for.
pub open spec fn wide(hi: u128, lo: u128) -> nat {
    (hi as nat) * word() + (lo as nat)
}

/// The floor of `a * b / c`, where it is defined and fits in 128 bits.
pub open spec fn mul_div_spec(a: nat, b: nat, c: nat) -> Option<nat> {
    if c == 0 || (a * b) / c > u128::MAX {
        None
    } else {
        Some((a * b) / c)
    }
}

proof fn lemma_half_product(x: u128, y: u128)
    by (nonlinear_arith)
    requires
        x < HALF,
        y < HALF,
    ensures
        x * y <= (HALF - 1) * (HALF - 1),
{
}

proof fn lemma_split_product(a1: int, a0: int, b1: int, b0: int, h: int)
    ensures
        (a1 * h + a0) * (b1 * h + b0) == (a1 * b1) * (h * h) + (a0 * b1 + a1 * b0) * h + a0 * b0,
{
    let x = a1 * h;
    let y = b1 * h;
    assert((x + a0) * (y + b0) == x * y + x * b0 + a0 * y + a0 * b0) by (nonlinear_arith);
    assert(x * y == (a1 * b1) * (h * h)) by (nonlinear_arith)
        requires
            x == a1 * h,
            y == b1 * h,
    ;
    assert(x * b0 == (a1 * b0) * h) by (nonlinear_arith)
        requires
            x == a1 * h,
    ;
    assert(a0 * y == (a0 * b1) * h) by (nonlinear_arith)
        requires
            y == b1 * h,
    ;
    assert((a0 * b1) * h + (a1 * b0) * h == (a0 * b1 + a1 * b0) * h) by (nonlinear_arith);
}

proof fn lemma_pow2_128()
    ensures
        pow2(128) == word(),
        pow2(127) == TOP_BIT,
{
    lemma2_to64();
    lemma_pow2_adds(64, 64);
    lemma_pow2_unfold(128);
    assert(pow2(64) * pow2(64) == word()) by (nonlinear_arith)
        requires
            pow2(64) == 0x1_0000_0000_0000_0000,
    ;
}

/// The full 256-bit product of two 128-bit numbers, as a pair of words.
pub fn mul_wide(a: u128, b: u128) -> (r: (u128, u128))
    ensures
        wide(r.0, r.1) == a * b,
{
    let a0: u128 = a % HALF;
    let a1: u128 = a / HALF;
    let b0: u128 = b % HALF;
    let b1: u128 = b / HALF;
    proof {
        lemma_half_product(a0, b0);
        lemma_half_product(a0, b1);
        lemma_half_product(a1, b0);
        lemma_half_product(a1, b1);
    }
    let p00: u128 = a0 * b0;
    let p01: u128 = a0 * b1;
    let p10: u128 = a1 * b0;
    let p11: u128 = a1 * b1;
    let t: u128 = p00 / HALF + p01 % HALF + p10 % HALF;
    let lo: u128 = p00 % HALF + (t % HALF) * HALF;
    let hi: u128 = p11 + p01 / HALF + p10 / HALF + t / HALF;
    proof {
        let h = HALF as int;
        lemma_split_product(a1 as int, a0 as int, b1 as int, b0 as int, h);
        assert(a as int == a1 * h + a0);
        assert(b as int == b1 * h + b0);
        assert(h * h == word()) by (nonlinear_arith)
            requires
                h == 0x1_0000_0000_0000_0000,
        ;
        assert((p01 + p10) * h == (p01 / HALF + p10 / HALF) * (h * h) + (p01 % HALF + p10 % HALF)
            * h) by (nonlinear_arith)
            requires
                h == HALF,
                p01 == (p01 / HALF) * h + p01 % HALF,
                p10 == (p10 / HALF) * h + p10 % HALF,
        ;
        assert(p11 * (h * h) + (p01 / HALF + p10 / HALF) * (h * h) + (t / HALF) * (h * h) == hi
            * (h * h)) by (nonlinear_arith)
            requires
                hi == p11 + p01 / HALF + p10 / HALF + t / HALF,
        ;
        assert(t * h == (t / HALF) * (h * h) + (t % HALF) * h) by (nonlinear_arith)
            requires
                h == HALF,
                t == (t / HALF) * h + t % HALF,
        ;
    }
    (hi, lo)
}

/// The quotient of the pair `(hi, lo)` by `c`, for a quotient that fits in one
/// word: that is the case exactly when `hi < c`.
pub fn div_wide(hi: u128, lo: u128, c: u128) -> (q: u128)
    requires
        hi < c,
    ensures
        q == wide(hi, lo) / (c as nat),
{
    let mut q: u128 = 0;
    let mut r: u128 = hi;
    let mut rest: u128 = lo;
    let mut i: u32 = 0;
    let ghost mut scale: nat = 1;
    let ghost mut done: nat = 0;
    let ghost mut qc: nat = 0;
    let ghost mut hs: nat = hi as nat;
    let ghost mut ls: nat = lo as nat;
    proof {
        lemma2_to64();
        lemma_pow2_128();
    }
    while i < 128
        invariant
            i <= 128,
            hi < c,
            scale == pow2(i as nat),
            hs == hi * scale,
            ls == lo * scale,
            ls == done * word() + rest,
            qc == q * c,
            hs + done == qc + r,
            r < c,
            q < scale,
            pow2(128) == word(),
            pow2(127) == TOP_BIT,
        decreases 128 - i,
    {
        let t: u128 = rest / TOP_BIT;
        let s: u128 = rest % TOP_BIT;
        let gap: u128 = c - r - t;
        proof {
            if i < 127 {
                lemma_pow2_strictly_increases(i as nat, 127);
            }
            lemma_pow2_unfold((i + 1) as nat);
            assert(hi * (2 * scale) == 2 * (hi * scale)) by (nonlinear_arith);
            assert(lo * (2 * scale) == 2 * (lo * scale)) by (nonlinear_arith);
            assert((2 * q + 1) * c == 2 * (q * c) + c) by (nonlinear_arith);
            assert((2 * q) * c == 2 * (q * c)) by (nonlinear_arith);
        }
        if r >= gap {
            r = r - gap;
            q = 2 * q + 1;
            proof {
                qc = 2 * qc + c as nat;
            }
        } else {
            r = r + r + t;
            q = 2 * q;
            proof {
                qc = 2 * qc;
            }
        }
        rest = 2 * s;
        i = i + 1;
        proof {
            scale = 2 * scale;
            hs = 2 * hs;
            ls = 2 * ls;
            done = 2 * done + t as nat;
        }
    }
    proof {
        let w = word() as int;
        assert(ls == lo * w);
        assert(done == lo && rest == 0) by (nonlinear_arith)
            requires
                lo * w == done * w + rest,
                0 <= rest < w,
        ;
        assert(wide(hi, lo) == q * c + r);
        lemma_fundamental_div_mod_converse(wide(hi, lo) as int, c as int, q as int, r as int);
    }
    q
}

proof fn lemma_quotient_fits(hi: u128, lo: u128, c: u128)
    requires
        c > 0,
    ensures
        hi < c <==> wide(hi, lo) / (c as nat) <= u128::MAX,
{
    let n = wide(hi, lo) as int;
    let d = c as int;
    let w = word() as int;
    vstd::arithmetic::div_mod::lemma_fundamental_div_mod(n, d);
    vstd::arithmetic::div_mod::lemma_mod_bound(n, d);
    let k = n / d;
    assert(n == d * k + n % d);
    if hi < c {
        if k >= w {
            assert(d * k >= d * w) by (nonlinear_arith)
                requires
                    k >= w,
                    d > 0,
            ;
            assert(hi * w + w <= d * w) by (nonlinear_arith)
                requires
                    hi + 1 <= d,
                    w > 0,
            ;
        }
    } else {
        if k < w {
            assert(d * k + d <= d * w) by (nonlinear_arith)
                requires
                    k + 1 <= w,
                    d > 0,
            ;
            assert(hi * w >= d * w) by (nonlinear_arith)
                requires
                    hi >= d,
                    w > 0,
            ;
        }
    }
}

/// The floor of `a * b / c`, computed without intermediate overflow.
///
/// `None` is returned exactly when `c` is zero or the quotient does not fit
/// in 128 bits.
pub fn mul_div(a: u128, b: u128, c: u128) -> (r: Option<u128>)
    ensures
        match r {
            Some(q) => mul_div_spec(a as nat, b as nat, c as nat) == Some(q as nat),
            None => mul_div_spec(a as nat, b as nat, c as nat) is None,
        },
{
    if c == 0 {
        return None;
    }
    let (hi, lo) = mul_wide(a, b);
    proof {
        lemma_quotient_fits(hi, lo, c);
    }
    if hi >= c {
        None
    } else {
        Some(div_wide(hi, lo, c))
    }
}

/// The share of `part` in `unit`, for a whole of `whole`: the floor of
/// `part * unit / whole`. As `part` is no more than `whole`, the share is no
/// more than `unit`.
pub fn scale(part: u128, unit: u128, whole: u128) -> (r: u128)
    requires
        part <= whole,
        whole > 0,
    ensures
        r == (part * unit) / (whole as int),
        r <= unit,
{
    let (hi, lo) = mul_wide(part, unit);
    proof {
        lemma_share_bound(part as nat, unit as nat, whole as nat);
        lemma_quotient_fits(hi, lo, whole);
    }
    div_wide(hi, lo, whole)
}

} // verus!
