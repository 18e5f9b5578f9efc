//! Integer and fixed-point numeric support.
//!
//! The library states every quantity over plain integers: probabilities as
//! exact fractions, relative errors as positive rationals, durations as
//! nanosecond counts, and base-two logarithms in fixed-point form with
//! [`FRAC_BITS`] fractional bits.

use vstd::arithmetic::power2::*;
use vstd::prelude::*;

use crate::Error;

verus! {

/// Number of fractional bits carried by fixed-point logarithms.
pub const FRAC_BITS: u64 = 32;

/// The fixed-point scale, `2^FRAC_BITS`.
pub const SCALE: u64 = 0x1_0000_0000;

/// A fraction `num / den` standing for a probability value in `[0, 1]`.
#[derive(Clone, Copy, Debug, PartialEq, Eq, Structural)]
pub struct Fraction {
    /// Numerator.
    pub num: u64,
    /// Denominator.
    pub den: u64,
}

impl Fraction {
    /// A well-formed probability: positive denominator, value at most one.
    pub open spec fn wf(self) -> bool {
        self.den > 0 && self.num <= self.den
    }

    /// Builds the fraction `num / den`, rejecting values outside `[0, 1]`.
    pub fn new(num: u64, den: u64) -> (r: Result<Fraction, Error>)
        ensures
            match r {
                Ok(f) => f == (Fraction { num, den }) && f.wf(),
                Err(e) => (den == 0 || num > den) && e == Error::InvalidArgument,
            },
    {
        if den == 0 || num > den {
            Err(Error::InvalidArgument)
        } else {
            Ok(Fraction { num, den })
        }
    }
}

/// A positive rational `num / den`, used as the relative-error target of a
/// measurement run.
#[derive(Clone, Copy, Debug, PartialEq, Eq, Structural)]
pub struct Ratio {
    /// Numerator.
    pub num: u64,
    /// Denominator.
    pub den: u64,
}

impl Ratio {
    /// A well-formed (strictly positive) ratio.
    pub open spec fn wf(self) -> bool {
        self.num > 0 && self.den > 0
    }

    /// Builds the ratio `num / den`, rejecting non-positive values.
    pub fn new(num: u64, den: u64) -> (r: Result<Ratio, Error>)
        ensures
            match r {
                Ok(f) => f == (Ratio { num, den }) && f.wf(),
                Err(e) => (den == 0 || num == 0) && e == Error::InvalidArgument,
            },
    {
        if den == 0 || num == 0 {
            Err(Error::InvalidArgument)
        } else {
            Ok(Ratio { num, den })
        }
    }
}

/// An exact, signed rational `num / den`. A zero denominator stands for
/// an undefined value — the integer counterpart of a vanishing
/// floating-point denominator — and no division is ever performed on it.
#[derive(Clone, Copy, Debug, PartialEq, Eq, Structural)]
pub struct Rational {
    /// Numerator.
    pub num: i128,
    /// Denominator.
    pub den: i128,
}

/// The floor of the base-two logarithm, with `log2_floor(0) == 0`.
pub open spec fn log2_floor(x: nat) -> nat
    decreases x,
{
    if x < 2 {
        0
    } else {
        1 + log2_floor(x / 2)
    }
}

/// `2^k <= x < 2^(k+1)` characterises `log2_floor(x)` for positive `x`.
pub proof fn lemma_log2_floor_bounds(x: nat)
    requires
        x >= 1,
    ensures
        pow2(log2_floor(x)) <= x < pow2(log2_floor(x) + 1),
    decreases x,
{
    if x < 2 {
        lemma2_to64();
    } else {
        lemma_log2_floor_bounds(x / 2);
        let k = log2_floor(x / 2);
        lemma_pow2_unfold(k + 1);
        lemma_pow2_unfold(k + 2);
        assert(pow2(k) <= x / 2 < pow2(k + 1));
        assert(2 * (x / 2) <= x < 2 * (x / 2) + 2);
    }
}

/// Computes `log2_floor` of a machine integer.
pub fn floor_log2(x: u64) -> (r: u64)
    ensures
        r == log2_floor(x as nat),
        r <= 63,
{
    let mut v: u64 = x;
    let mut r: u64 = 0;
    proof {
        lemma2_to64();
        assert(pow2(0) == 1);
    }
    while v >= 2
        invariant
            log2_floor(x as nat) == r + log2_floor(v as nat),
            pow2(r as nat) * v <= x,
            v >= 1 ==> r <= 63,
            v >= 1 || r == 0,
        decreases v,
    {
        proof {
            let vv = v as nat;
            let rr = r as nat;
            lemma_pow2_unfold(rr + 1);
            assert(pow2(rr + 1) * (vv / 2) <= pow2(rr) * vv) by (nonlinear_arith)
                requires
                    pow2(rr + 1) == 2 * pow2(rr),
                    vv >= 2,
            {}
            assert(2 * pow2(rr) <= pow2(rr) * vv) by (nonlinear_arith)
                requires
                    vv >= 2,
                    pow2(rr) >= 0,
            {}
            if r >= 63 {
                lemma_pow2_unfold(64);
                lemma2_to64_rest();
                assert(pow2(64) == 0x10000000000000000);
                assert(false);
            }
        }
        v = v / 2;
        r = r + 1;
    }
    r
}

/// Largest `k` with `q * 2^k <= p` (and `0` when `q > p` or `q == 0`).
pub open spec fn ratio_exp(p: nat, q: nat) -> nat
    decreases p - q,
{
    if q < 1 || p < 2 * q {
        0
    } else {
        1 + ratio_exp(p, 2 * q)
    }
}

/// One square-and-normalise pass of the fixed-point fraction iteration:
/// starting from `x` (scaled by [`SCALE`], in `[1, 2)`), `k` squarings
/// yield the first `k` fractional bits of `log2` and the residual value.
pub open spec fn frac_iter(x: nat, k: nat) -> (nat, nat)
    decreases k,
{
    if k == 0 {
        (0, x)
    } else {
        let prev = frac_iter(x, (k - 1) as nat);
        let sq = (prev.1 * prev.1) / (SCALE as nat);
        if sq >= 2 * (SCALE as nat) {
            (2 * prev.0 + 1, sq / 2)
        } else {
            (2 * prev.0, sq)
        }
    }
}

/// The iteration keeps its residual normalised and produces `k` bits.
pub proof fn lemma_frac_iter_bounds(x: nat, k: nat)
    requires
        SCALE <= x < 2 * SCALE,
    ensures
        SCALE <= frac_iter(x, k).1 < 2 * SCALE,
        frac_iter(x, k).0 < pow2(k),
    decreases k,
{
    let s = SCALE as nat;
    if k == 0 {
        lemma_pow2_pos(0);
        assert(pow2(0) == 1) by {
            lemma2_to64();
        }
    } else {
        lemma_frac_iter_bounds(x, (k - 1) as nat);
        let prev = frac_iter(x, (k - 1) as nat);
        let xp = prev.1;
        let sq = (xp * xp) / s;
        assert(s * s <= xp * xp && xp * xp < 4 * (s * s)) by (nonlinear_arith)
            requires
                s <= xp < 2 * s,
                s >= 1,
        {}
        assert(sq >= s) by (nonlinear_arith)
            requires
                sq == (xp * xp) / s,
                xp * xp >= s * s,
                s >= 1,
        {}
        assert(sq < 4 * s) by (nonlinear_arith)
            requires
                sq == (xp * xp) / s,
                xp * xp < 4 * (s * s),
                s >= 1,
        {}
        lemma_pow2_unfold(k);
        assert(pow2(k) == 2 * pow2((k - 1) as nat));
    }
}

/// Fixed-point `log2(p / q)`, scaled by [`SCALE`]: the true integer part
/// joined with [`FRAC_BITS`] fractional bits from the squaring iteration.
pub open spec fn log2_fix_spec(p: nat, q: nat) -> nat {
    let k = ratio_exp(p, q);
    let x0 = (p * (SCALE as nat)) / (q * pow2(k));
    k * (SCALE as nat) + frac_iter(x0, FRAC_BITS as nat).0
}

/// Computes the fixed-point base-two logarithm of the ratio `p / q`.
pub fn log2_fix(p: u128, q: u128) -> (r: u64)
    requires
        1 <= q <= p,
        p < 0x1000000000000000000000000,  // 2^96, so that p * SCALE fits in u128
    ensures
        r == log2_fix_spec(p as nat, q as nat),
        r < 0x80_0000_0000,  // 128 * SCALE
{
    proof {
        lemma2_to64();
        lemma2_to64_rest();
    }
    // Integer part: the largest k with q * 2^k <= p.
    let mut k: u64 = 0;
    let mut qk: u128 = q;
    while qk <= p / 2
        invariant
            1 <= q <= p,
            p < 0x1000000000000000000000000,
            1 <= qk,
            qk == q * pow2(k as nat),
            qk <= p,
            ratio_exp(p as nat, q as nat) == k + ratio_exp(p as nat, qk as nat),
            k <= 95,
        decreases p - qk,
    {
        proof {
            let pp = p as nat;
            let qq = qk as nat;
            assert(2 * qq <= pp) by {
                assert(qq <= pp / 2);
                assert(pp / 2 * 2 <= pp);
                assert(2 * qq <= 2 * (pp / 2)) by (nonlinear_arith)
                    requires
                        qq <= pp / 2,
                {}
            }
            assert(ratio_exp(pp, qq) == 1 + ratio_exp(pp, 2 * qq));
            lemma_pow2_unfold(k as nat + 1);
            assert(2 * qq == q * pow2(k as nat + 1)) by (nonlinear_arith)
                requires
                    qq == q * pow2(k as nat),
                    pow2(k as nat + 1) == 2 * pow2(k as nat),
            {}
            if k >= 95 {
                lemma2_to64();
                lemma2_to64_rest();
                lemma_pow2_adds(64, 32);
                assert(pow2(96) == 0x1000000000000000000000000);
                if k as nat + 1 > 96 {
                    lemma_pow2_strictly_increases(96, k as nat + 1);
                }
                assert(q * pow2(k as nat + 1) >= pow2(96)) by (nonlinear_arith)
                    requires
                        q >= 1,
                        pow2(k as nat + 1) >= pow2(96),
                {}
                assert(false);
            }
        }
        qk = qk * 2;
        k = k + 1;
    }
    proof {
        assert(2 * (qk as nat) > p as nat) by {
            assert(qk > p / 2);
            assert((p as nat) < 2 * ((p as nat) / 2) + 2);
        }
        assert(ratio_exp(p as nat, qk as nat) == 0);
    }
    // Normalised start value x0 = p * SCALE / (q * 2^k), in [SCALE, 2 * SCALE).
    proof {
        assert((p as nat) * (SCALE as nat) < 0x100000000000000000000000000000000)
            by (nonlinear_arith)
            requires
                (p as nat) < 0x1000000000000000000000000,
                SCALE == 0x100000000,
        {}
    }
    let x0w: u128 = (p * (SCALE as u128)) / qk;
    proof {
        let s = SCALE as nat;
        let pp = p as nat;
        let qq = qk as nat;
        assert(x0w as nat == (pp * s) / qq);
        assert((pp * s) / qq >= s) by (nonlinear_arith)
            requires
                qq <= pp,
                qq >= 1,
                s >= 1,
        {}
        assert((pp * s) / qq < 2 * s) by (nonlinear_arith)
            requires
                pp < 2 * qq,
                qq >= 1,
                s >= 1,
        {}
    }
    let x0: u64 = x0w as u64;
    // Fractional bits by repeated squaring of the normalised value.
    let mut bits: u64 = 0;
    let mut x: u64 = x0;
    let mut j: u64 = 0;
    while j < FRAC_BITS
        invariant
            j <= FRAC_BITS,
            SCALE <= x0 < 2 * SCALE,
            bits == frac_iter(x0 as nat, j as nat).0,
            x == frac_iter(x0 as nat, j as nat).1,
            SCALE <= x < 2 * SCALE,
            bits < pow2(j as nat),
        decreases FRAC_BITS - j,
    {
        proof {
            lemma2_to64();
            lemma_frac_iter_bounds(x0 as nat, j as nat + 1);
            lemma_pow2_unfold(j as nat + 1);
            if (j as nat) < 31 {
                lemma_pow2_strictly_increases(j as nat, 31);
            }
            assert(pow2(31) == 0x80000000);
            let s = SCALE as nat;
            let xx = x as nat;
            assert(xx * xx < 4 * (s * s)) by (nonlinear_arith)
                requires
                    xx < 2 * s,
                    s >= 1,
            {}
        }
        let sq: u64 = (((x as u128) * (x as u128)) / (SCALE as u128)) as u64;
        if sq >= 2 * SCALE {
            bits = 2 * bits + 1;
            x = sq / 2;
        } else {
            bits = 2 * bits;
            x = sq;
        }
        j = j + 1;
    }
    proof {
        lemma_frac_iter_bounds(x0 as nat, FRAC_BITS as nat);
        assert(pow2(32) == SCALE);
        assert((k as nat) * (SCALE as nat) <= 95 * (SCALE as nat)) by (nonlinear_arith)
            requires
                k <= 95,
                SCALE > 0,
        {}
    }
    k * SCALE + bits
}

} // verus!
