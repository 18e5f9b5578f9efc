//! Probability distributions over input sizes.
//!
//! A [`Distribution`] turns a count `n` into `n` sizes. The predefined
//! laws ([`Uniform`], [`Exponential`], [`Reciprocal`]) are described by
//! their inverse cumulative distribution function through the
//! [`ProbabilityDistribution`] capability: every index `i` is first mapped
//! to a uniform fraction `u` in `[0, 1]` — evenly spaced under
//! [`GenerationType::FixedIntervals`], drawn at random under
//! [`GenerationType::Random`] — and the inverse CDF of `u`, truncated to
//! an integer, is the generated size.

use vstd::arithmetic::div_mod::*;
use vstd::arithmetic::mul::*;
use vstd::prelude::*;

use crate::numeric::{log2_fix, log2_fix_spec, Fraction, SCALE};
use crate::Error;

verus! {

/// How the uniform fractions fed to the inverse CDF are produced.
#[derive(Debug, Clone, PartialEq, Eq, Structural)]
pub enum GenerationType {
    /// Evenly spaced fractions `i / (n - 1)`: deterministic, reproducible,
    /// and covering both extremes of the range.
    FixedIntervals,
    /// Independent uniform draws from `[0, 1]`.
    Random,
}

/// Relies on `core::ops::RangeInclusive::start`: returns the lower bound
/// of the range.
pub assume_specification<Idx>[ core::ops::RangeInclusive::<Idx>::start ](
    r: &core::ops::RangeInclusive<Idx>,
) -> (ret: &Idx)
    ensures
        *ret == r@.start,
;

/// Relies on `core::ops::RangeInclusive::end`: returns the upper bound of
/// the range.
pub assume_specification<Idx>[ core::ops::RangeInclusive::<Idx>::end ](
    r: &core::ops::RangeInclusive<Idx>,
) -> (ret: &Idx)
    ensures
        *ret == r@.end,
;

/// Relies on rand's `Rng::gen_range` on `thread_rng`: a value uniformly
/// distributed in `0..bound`; it panics only on an empty range.
#[verifier::external_body]
pub(crate) fn rand_below(bound: u64) -> (r: u64)
    requires
        bound >= 1,
    ensures
        r < bound,
{
    rand::Rng::gen_range(&mut rand::thread_rng(), 0..bound)
}

/// A distribution in the abstract: the capability of generating a vector
/// of input sizes.
pub trait Distribution {
    /// Whether the configuration of this distribution is valid.
    spec fn dist_wf(&self) -> bool;

    /// A lower bound on every generated size.
    spec fn size_lo(&self) -> usize;

    /// An upper bound on every generated size.
    spec fn size_hi(&self) -> usize;

    /// Whether generation involves no randomness.
    spec fn is_deterministic(&self) -> bool;

    /// The exact sequence a deterministic generation produces.
    spec fn gen_spec(&self, n: nat) -> Seq<usize>;

    /// Generates `n` input sizes, each within the configured bounds;
    /// rejects `n == 0`. When the distribution is deterministic the
    /// result is exactly `gen_spec(n)`.
    fn generate(&self, n: usize) -> (r: Result<Vec<usize>, Error>)
        requires
            self.dist_wf(),
        ensures
            match r {
                Ok(v) => n >= 1 && v@.len() == n && (forall|i: int|
                    0 <= i < n ==> self.size_lo() <= #[trigger] v@[i] <= self.size_hi()) && (
                self.is_deterministic() ==> v@ == self.gen_spec(n as nat)),
                Err(e) => n == 0 && e == Error::InvalidArgument,
            },
    ;
}

/// A probability law described by its inverse cumulative distribution
/// function. Every such law is a [`Distribution`] by inverse transform
/// sampling.
pub trait ProbabilityDistribution: Sized {
    /// Whether the configuration of this law is valid.
    spec fn pd_wf(&self) -> bool;

    /// The smallest size the inverse CDF can produce.
    spec fn min_size(&self) -> usize;

    /// The largest size the inverse CDF can produce.
    spec fn max_size(&self) -> usize;

    /// The configured generation mode.
    spec fn gen_type_spec(&self) -> GenerationType;

    /// The exact size the inverse CDF assigns to the fraction `num / den`.
    spec fn icdf_spec(&self, num: nat, den: nat) -> usize;

    /// Maps a uniform fraction `u` in `[0, 1]` to a size distributed
    /// according to this law: the inverse CDF of `u`, truncated to an
    /// integer.
    fn inverse_cdf(&self, u: Fraction) -> (r: usize)
        requires
            self.pd_wf(),
            u.wf(),
        ensures
            r == self.icdf_spec(u.num as nat, u.den as nat),
            self.min_size() <= r <= self.max_size(),
    ;

    /// Returns the generation mode of this law.
    fn get_gen_type(&self) -> (g: &GenerationType)
        ensures
            *g == self.gen_type_spec(),
    ;
}

/// The denominator of the fractions drawn under [`GenerationType::Random`].
pub(crate) const RANDOM_DEN: u64 = 0x1_0000_0000;

impl<T: ProbabilityDistribution> Distribution for T {
    open spec fn dist_wf(&self) -> bool {
        self.pd_wf()
    }

    open spec fn size_lo(&self) -> usize {
        self.min_size()
    }

    open spec fn size_hi(&self) -> usize {
        self.max_size()
    }

    open spec fn is_deterministic(&self) -> bool {
        self.gen_type_spec() == GenerationType::FixedIntervals
    }

    open spec fn gen_spec(&self, n: nat) -> Seq<usize> {
        Seq::new(
            n,
            |i: int| self.icdf_spec(i as nat, if n == 1 { 1nat } else { (n - 1) as nat }),
        )
    }

    fn generate(&self, n: usize) -> (r: Result<Vec<usize>, Error>) {
        if n == 0 {
            return Err(Error::InvalidArgument);
        }
        let mut sizes: Vec<usize> = Vec::new();
        for i in 0..n
            invariant
                n >= 1,
                self.pd_wf(),
                sizes@.len() == i,
                forall|j: int|
                    0 <= j < i ==> self.min_size() <= #[trigger] sizes@[j] <= self.max_size(),
                self.is_deterministic() ==> forall|j: int|
                    0 <= j < i ==> sizes@[j] == #[trigger] self.gen_spec(n as nat)[j],
        {
            let u: Fraction = match self.get_gen_type() {
                GenerationType::FixedIntervals => {
                    if n != 1 {
                        Fraction { num: i as u64, den: (n - 1) as u64 }
                    } else {
                        Fraction { num: 0, den: 1 }
                    }
                },
                GenerationType::Random => {
                    let v = rand_below(RANDOM_DEN + 1);
                    Fraction { num: v, den: RANDOM_DEN }
                },
            };
            let x = self.inverse_cdf(u);
            sizes.push(x);
        }
        proof {
            if self.is_deterministic() {
                assert(sizes@ =~= self.gen_spec(n as nat));
            }
        }
        Ok(sizes)
    }
}

/// Fixed-interval generation is reproducible: `generate` pins its result
/// to `gen_spec`, a function of the configuration and the count alone, so
/// two runs with identical configuration and count coincide.
pub proof fn lemma_fixed_intervals_deterministic<D: Distribution>(
    d: &D,
    n: nat,
    first: Seq<usize>,
    second: Seq<usize>,
)
    requires
        d.is_deterministic(),
        first == d.gen_spec(n),
        second == d.gen_spec(n),
    ensures
        first == second,
{
}

/// Under fixed intervals the first and last of `n >= 2` generated sizes
/// are the inverse CDF at the fractions `0` and `1`: the extremes of
/// the configured law are always sampled.
pub proof fn lemma_fixed_intervals_extremes<T: ProbabilityDistribution>(d: &T, n: nat)
    requires
        n >= 2,
    ensures
        d.gen_spec(n)[0] == d.icdf_spec(0, (n - 1) as nat),
        d.gen_spec(n)[n - 1] == d.icdf_spec((n - 1) as nat, (n - 1) as nat),
{
}

/// The uniform distribution: sizes spread evenly over a closed range.
#[derive(Clone)]
pub struct Uniform {
    /// The smallest size of the configured range.
    pub min: usize,
    /// The largest size of the configured range.
    pub max: usize,
    /// The generation mode.
    pub gen_type: GenerationType,
}

impl Uniform {
    /// Whether the configuration is valid: a non-empty range.
    pub open spec fn wf(self) -> bool {
        self.min <= self.max
    }

    /// Creates a uniform distribution over the given closed range, in
    /// fixed-interval mode; rejects an empty (inverted) range.
    pub fn new(range: core::ops::RangeInclusive<usize>) -> (r: Result<Uniform, Error>)
        ensures
            match r {
                Ok(u) => range@.start <= range@.end && u == (Uniform {
                    min: range@.start,
                    max: range@.end,
                    gen_type: GenerationType::FixedIntervals,
                }),
                Err(e) => range@.start > range@.end && e == Error::InvalidArgument,
            },
    {
        let min = *range.start();
        let max = *range.end();
        if min > max {
            Err(Error::InvalidArgument)
        } else {
            Ok(Uniform { min, max, gen_type: GenerationType::FixedIntervals })
        }
    }

    /// Sets the generation mode.
    pub fn set_gen_type(&mut self, gen_type: GenerationType)
        ensures
            final (self).min == old(self).min,
            final (self).max == old(self).max,
            final (self).gen_type == gen_type,
    {
        self.gen_type = gen_type;
    }
}

impl ProbabilityDistribution for Uniform {
    open spec fn pd_wf(&self) -> bool {
        self.wf()
    }

    open spec fn min_size(&self) -> usize {
        self.min
    }

    open spec fn max_size(&self) -> usize {
        self.max
    }

    open spec fn gen_type_spec(&self) -> GenerationType {
        self.gen_type
    }

    open spec fn icdf_spec(&self, num: nat, den: nat) -> usize {
        (self.min + ((self.max - self.min) * (num as int)) / (den as int)) as usize
    }

    fn inverse_cdf(&self, u: Fraction) -> (r: usize) {
        let span: u128 = (self.max - self.min) as u128;
        proof {
            assert((span as nat) * (u.num as nat) < 0x100000000000000000000000000000000)
                by (nonlinear_arith)
                requires
                    (span as nat) < 0x10000000000000000,
                    (u.num as nat) < 0x10000000000000000,
            {}
        }
        let val: u128 = (span * (u.num as u128)) / (u.den as u128);
        proof {
            let s = span as int;
            let num = u.num as int;
            let den = u.den as int;
            assert(s * num <= s * den) by (nonlinear_arith)
                requires
                    0 <= s,
                    num <= den,
            {}
            lemma_div_is_ordered(s * num, s * den, den);
            assert((s * den) / den == s) by {
                lemma_div_by_multiple(s, den);
            }
            assert(val <= span);
        }
        self.min + (val as usize)
    }

    fn get_gen_type(&self) -> (g: &GenerationType) {
        &self.gen_type
    }
}

/// The exponential inverse CDF over `[min, max]`, mean-matched to the
/// range (`lambda == ln(max/min) / (max - min)`), in fixed point.
///
/// With that `lambda`, the closed form
/// `F⁻¹(u) == (y - ln((1-u)·e^(y-x) + u)) / lambda` at `x == lambda·min`,
/// `y == lambda·max` reduces to
/// `max - (max - min) · log2(A) / log2(max/min)` with
/// `A == ((1-u)·max + u·min) / min`; the two base-two logarithms are taken
/// at [`SCALE`] precision, with the fraction `u` first rounded to
/// [`SCALE`]ths. The edges `u == 0` and `u == 1` map exactly to `min` and
/// `max`. Should the fixed-point logarithm of the ratio vanish
/// (a degenerate, near-unit ratio), the value falls back to linear
/// interpolation, which stays within the range.
pub open spec fn exp_icdf(min: nat, max: nat, num: nat, den: nat) -> usize {
    if max <= min || num == 0 {
        min as usize
    } else if num >= den {
        max as usize
    } else {
        let s = SCALE as nat;
        let nn = (num * s) / den;
        let an = ((s - nn) * max + nn * min) as nat;
        let ad = s * min;
        let t0 = log2_fix_spec(an, ad);
        let r0 = log2_fix_spec(max, min);
        if r0 == 0 {
            (min + ((max - min) * (num as int)) / (den as int)) as usize
        } else {
            let t: nat = if t0 > r0 {
                r0
            } else {
                t0
            };
            (max - ((max - min) * (t as int)) / (r0 as int)) as usize
        }
    }
}

/// The exponential distribution: sizes drawn so that their logarithms
/// spread evenly, mean-matched to the configured range.
#[derive(Clone)]
pub struct Exponential {
    /// The smallest size of the configured range.
    pub min: usize,
    /// The largest size of the configured range.
    pub max: usize,
    /// The generation mode.
    pub gen_type: GenerationType,
}

impl Exponential {
    /// Whether the configuration is valid: a non-empty range with a
    /// positive lower bound (the law takes the ratio `max / min`).
    pub open spec fn wf(self) -> bool {
        1 <= self.min <= self.max
    }

    /// Creates an exponential distribution over the given closed range,
    /// in fixed-interval mode; rejects an empty (inverted) range and a
    /// zero lower bound.
    pub fn new(range: core::ops::RangeInclusive<usize>) -> (r: Result<Exponential, Error>)
        ensures
            match r {
                Ok(e) => 1 <= range@.start <= range@.end && e == (Exponential {
                    min: range@.start,
                    max: range@.end,
                    gen_type: GenerationType::FixedIntervals,
                }),
                Err(e) => (range@.start > range@.end || range@.start == 0) && e
                    == Error::InvalidArgument,
            },
    {
        let min = *range.start();
        let max = *range.end();
        if min > max || min == 0 {
            Err(Error::InvalidArgument)
        } else {
            Ok(Exponential { min, max, gen_type: GenerationType::FixedIntervals })
        }
    }

    /// Sets the generation mode.
    pub fn set_gen_type(&mut self, gen_type: GenerationType)
        ensures
            final (self).min == old(self).min,
            final (self).max == old(self).max,
            final (self).gen_type == gen_type,
    {
        self.gen_type = gen_type;
    }
}

impl ProbabilityDistribution for Exponential {
    open spec fn pd_wf(&self) -> bool {
        self.wf()
    }

    open spec fn min_size(&self) -> usize {
        self.min
    }

    open spec fn max_size(&self) -> usize {
        self.max
    }

    open spec fn gen_type_spec(&self) -> GenerationType {
        self.gen_type
    }

    open spec fn icdf_spec(&self, num: nat, den: nat) -> usize {
        exp_icdf(self.min as nat, self.max as nat, num, den)
    }

    fn inverse_cdf(&self, u: Fraction) -> (r: usize) {
        if self.max <= self.min || u.num == 0 {
            return self.min;
        }
        if u.num >= u.den {
            return self.max;
        }
        let num = u.num as u128;
        let den = u.den as u128;
        let mn = self.min as u128;
        let mx = self.max as u128;
        proof {
            assert((num as int) * (SCALE as int) < (den as int) * (SCALE as int))
                by (nonlinear_arith)
                requires
                    num < den,
                    SCALE >= 1,
            {}
            lemma_multiply_divide_lt(num as int * SCALE as int, den as int, SCALE as int);
        }
        let nn: u128 = (num * (SCALE as u128)) / den;
        proof {
            let s = SCALE as int;
            let nni = nn as int;
            let mni = mn as int;
            let mxi = mx as int;
            assert((s - nni) * mxi + nni * mni < 0x1000000000000000000000000 && (s - nni) * mxi
                + nni * mni >= s * mni) by (nonlinear_arith)
                requires
                    0 <= nni < s,
                    s == 0x100000000,
                    1 <= mni <= mxi,
                    mxi < 0x10000000000000000,
            {}
        }
        let an: u128 = (SCALE as u128 - nn) * mx + nn * mn;
        let ad: u128 = (SCALE as u128) * mn;
        let t0 = log2_fix(an, ad);
        let r0 = log2_fix(mx, mn);
        let span: u128 = (self.max - self.min) as u128;
        if r0 == 0 {
            proof {
                let s = span as int;
                let numi = num as int;
                let deni = den as int;
                assert(s * numi <= s * deni && s * numi < 0x100000000000000000000000000000000)
                    by (nonlinear_arith)
                    requires
                        0 <= s < 0x10000000000000000,
                        0 <= numi <= deni < 0x10000000000000000,
                {}
                lemma_div_is_ordered(s * numi, s * deni, deni);
                assert((s * deni) / deni == s) by {
                    lemma_div_by_multiple(s, deni);
                }
            }
            let val: u128 = (span * num) / den;
            return self.min + (val as usize);
        }
        let t: u64 = if t0 > r0 {
            r0
        } else {
            t0
        };
        proof {
            let s = span as int;
            let ti = t as int;
            let ri = r0 as int;
            assert(s * ti <= s * ri && s * ti < 0x100000000000000000000000000000000)
                by (nonlinear_arith)
                requires
                    0 <= s < 0x10000000000000000,
                    0 <= ti <= ri < 0x10000000000000000,
            {}
            lemma_div_is_ordered(s * ti, s * ri, ri);
            assert((s * ri) / ri == s) by {
                lemma_div_by_multiple(s, ri);
            }
        }
        let off: u128 = (span * (t as u128)) / (r0 as u128);
        self.max - (off as usize)
    }

    fn get_gen_type(&self) -> (g: &GenerationType) {
        &self.gen_type
    }
}

/// Under fixed intervals the uniform distribution generates a
/// non-decreasing sequence of sizes.
pub proof fn lemma_uniform_fixed_nondecreasing(u: Uniform, n: nat, i: int, j: int)
    requires
        u.wf(),
        0 <= i <= j < n,
    ensures
        u.gen_spec(n)[i] <= u.gen_spec(n)[j],
{
    if n > 1 {
        let den = (n - 1) as int;
        let s = u.max - u.min;
        assert(s * i <= s * j && s * j <= s * den && 0 <= s * i) by (nonlinear_arith)
            requires
                0 <= s,
                0 <= i <= j <= den,
        {}
        lemma_div_is_ordered(s * i, s * j, den);
        lemma_div_is_ordered(s * j, s * den, den);
        assert((s * den) / den == s) by {
            lemma_div_by_multiple(s, den);
        }
        lemma_div_pos_is_pos(s * i, den);
    }
}

/// The binary search behind the reciprocal inverse CDF: within `[lo, hi)`
/// it narrows down to the last value whose fixed-point `log2` relative to
/// `min` still lies below the target.
pub open spec fn recip_search_spec(min: nat, target: nat, lo: nat, hi: nat) -> nat
    decreases hi - lo,
{
    if hi <= lo + 1 {
        lo
    } else {
        let mid = (lo + hi) / 2;
        if log2_fix_spec(mid, min) <= target {
            recip_search_spec(min, target, mid, hi)
        } else {
            recip_search_spec(min, target, lo, mid)
        }
    }
}

/// The search stays within its interval.
pub proof fn lemma_recip_search_bounds(min: nat, target: nat, lo: nat, hi: nat)
    requires
        lo < hi,
    ensures
        lo <= recip_search_spec(min, target, lo, hi) < hi,
    decreases hi - lo,
{
    if hi > lo + 1 {
        let mid = (lo + hi) / 2;
        lemma_recip_search_bounds(min, target, mid, hi);
        lemma_recip_search_bounds(min, target, lo, mid);
    }
}

/// The reciprocal inverse CDF over `[min, max]`:
/// `F⁻¹(u) == min · (max/min)^u`, located by binary search over the
/// fixed-point logarithm (`log2(s/min) <= u · log2(max/min)`). The edges
/// `u == 0` and `u == 1` map exactly to `min` and `max`.
pub open spec fn recip_icdf(min: nat, max: nat, num: nat, den: nat) -> usize {
    if max <= min || num == 0 {
        min as usize
    } else if num >= den {
        max as usize
    } else {
        let r0 = log2_fix_spec(max, min);
        let target = (num * r0) / den;
        recip_search_spec(min, target, min, max + 1) as usize
    }
}

/// The reciprocal distribution: sizes whose logarithms are uniformly
/// distributed over the configured range.
pub struct Reciprocal {
    /// The smallest size of the configured range.
    pub min: usize,
    /// The largest size of the configured range.
    pub max: usize,
    /// The generation mode.
    pub gen_type: GenerationType,
}

impl Reciprocal {
    /// Whether the configuration is valid: a non-empty range with a
    /// positive lower bound (the law takes the ratio `max / min`).
    pub open spec fn wf(self) -> bool {
        1 <= self.min <= self.max
    }

    /// Creates a reciprocal distribution over the given closed range, in
    /// fixed-interval mode; rejects an empty (inverted) range and a zero
    /// lower bound.
    pub fn new(range: core::ops::RangeInclusive<usize>) -> (r: Result<Reciprocal, Error>)
        ensures
            match r {
                Ok(d) => 1 <= range@.start <= range@.end && d == (Reciprocal {
                    min: range@.start,
                    max: range@.end,
                    gen_type: GenerationType::FixedIntervals,
                }),
                Err(e) => (range@.start > range@.end || range@.start == 0) && e
                    == Error::InvalidArgument,
            },
    {
        let min = *range.start();
        let max = *range.end();
        if min > max || min == 0 {
            Err(Error::InvalidArgument)
        } else {
            Ok(Reciprocal { min, max, gen_type: GenerationType::FixedIntervals })
        }
    }

    /// Sets the generation mode.
    pub fn set_gen_type(&mut self, gen_type: GenerationType)
        ensures
            final (self).min == old(self).min,
            final (self).max == old(self).max,
            final (self).gen_type == gen_type,
    {
        self.gen_type = gen_type;
    }
}

impl ProbabilityDistribution for Reciprocal {
    open spec fn pd_wf(&self) -> bool {
        self.wf()
    }

    open spec fn min_size(&self) -> usize {
        self.min
    }

    open spec fn max_size(&self) -> usize {
        self.max
    }

    open spec fn gen_type_spec(&self) -> GenerationType {
        self.gen_type
    }

    open spec fn icdf_spec(&self, num: nat, den: nat) -> usize {
        recip_icdf(self.min as nat, self.max as nat, num, den)
    }

    fn inverse_cdf(&self, u: Fraction) -> (r: usize) {
        if self.max <= self.min || u.num == 0 {
            return self.min;
        }
        if u.num >= u.den {
            return self.max;
        }
        let mn = self.min as u128;
        let mx = self.max as u128;
        let r0 = log2_fix(mx, mn);
        proof {
            let numi = u.num as int;
            let deni = u.den as int;
            let ri = r0 as int;
            assert(numi * ri <= deni * ri && numi * ri < 0x100000000000000000000000000000000)
                by (nonlinear_arith)
                requires
                    0 <= numi <= deni < 0x10000000000000000,
                    0 <= ri < 0x10000000000000000,
            {}
            lemma_div_is_ordered(numi * ri, deni * ri, deni);
            assert((deni * ri) / deni == ri) by {
                lemma_mul_is_commutative(deni, ri);
                lemma_div_by_multiple(ri, deni);
            }
        }
        let target: u64 = (((u.num as u128) * (r0 as u128)) / (u.den as u128)) as u64;
        let ghost whole = recip_search_spec(mn as nat, target as nat, mn as nat, mx as nat + 1);
        let mut lo: u128 = mn;
        let mut hi: u128 = mx + 1;
        while lo + 1 < hi
            invariant
                1 <= mn <= lo < hi <= mx + 1,
                mx < 0x10000000000000000,
                recip_search_spec(mn as nat, target as nat, lo as nat, hi as nat) == whole,
            decreases hi - lo,
        {
            let mid = (lo + hi) / 2;
            if log2_fix(mid, mn) <= target {
                lo = mid;
            } else {
                hi = mid;
            }
        }
        proof {
            lemma_recip_search_bounds(mn as nat, target as nat, mn as nat, mx as nat + 1);
        }
        lo as usize
    }

    fn get_gen_type(&self) -> (g: &GenerationType) {
        &self.gen_type
    }
}

/// The exponential inverse CDF is exact at the edges: the fraction `0`
/// maps to the lower bound of the range and the fraction `1` to the
/// upper bound, whatever the precision of the fixed-point logarithm.
pub proof fn lemma_exponential_edges(e: Exponential, den: nat)
    requires
        e.pd_wf(),
        den >= 1,
    ensures
        e.icdf_spec(0, den) == e.min_size(),
        e.icdf_spec(den, den) == e.max_size(),
{
}

/// The reciprocal inverse CDF is exact at the edges: the fraction `0`
/// maps to the lower bound of the range and the fraction `1` to the
/// upper bound.
pub proof fn lemma_reciprocal_edges(d: Reciprocal, den: nat)
    requires
        d.pd_wf(),
        den >= 1,
    ensures
        d.icdf_spec(0, den) == d.min_size(),
        d.icdf_spec(den, den) == d.max_size(),
{
}

} // verus!
