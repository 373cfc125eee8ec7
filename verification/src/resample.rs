//! The fractional phase accumulator of the sample-rate converter.
//!
//! The converter steps through the source stream at the rational rate ratio
//! `source_rate / target_rate`: before each output sample the fractional
//! position grows by the ratio, and one source frame is pulled into the
//! interpolation history for every whole step crossed. The position is kept
//! exactly, as a numerator over the target rate, so the bookkeeping never
//! drifts; the interpolation itself (a fixed-tap windowed sinc over the
//! pulled history) is real-valued and happens outside the core, at the
//! fractional offset this accumulator reports.

use vstd::prelude::*;

use vstd::arithmetic::div_mod::lemma_fundamental_div_mod;
use vstd::arithmetic::div_mod::lemma_mod_bound;

verus! {

/// Phase state of the sample-rate converter: the fractional position within
/// the current interpolation window is `num / den`, and each output sample
/// advances it by `step / den` (the source over target rate ratio).
pub struct Phase {
    num: u64,
    step: u64,
    den: u64,
}

impl Phase {
    /// Validity: the position is a proper fraction and one advance cannot
    /// overflow the numerator.
    pub closed spec fn wf(self) -> bool {
        &&& self.den > 0
        &&& self.num < self.den
        &&& self.step <= u64::MAX - self.den
    }

    pub closed spec fn spec_num(self) -> u64 {
        self.num
    }

    pub closed spec fn spec_step(self) -> u64 {
        self.step
    }

    pub closed spec fn spec_den(self) -> u64 {
        self.den
    }

    /// A fresh accumulator at position zero, stepping by
    /// `source_rate / target_rate` per output sample.
    pub fn new(source_rate: u32, target_rate: u32) -> (r: Phase)
        requires
            source_rate > 0,
            target_rate > 0,
        ensures
            r.wf(),
            r.spec_num() == 0,
            r.spec_step() == source_rate,
            r.spec_den() == target_rate,
    {
        Phase { num: 0, step: source_rate as u64, den: target_rate as u64 }
    }

    /// The fractional offset's numerator; the offset within the current
    /// interpolation window is this over the denominator.
    pub fn numerator(&self) -> (r: u64)
        ensures
            r == self.spec_num(),
    {
        self.num
    }

    /// The fractional offset's denominator: the target rate.
    pub fn denominator(&self) -> (r: u64)
        ensures
            r == self.spec_den(),
    {
        self.den
    }

    /// Advance the position by one output sample and report how many whole
    /// source frames the converter must pull into its history before
    /// interpolating: the number of integer boundaries the position crossed.
    pub fn advance(&mut self) -> (pulls: u64)
        requires
            old(self).wf(),
        ensures
            final(self).wf(),
            final(self).spec_step() == old(self).spec_step(),
            final(self).spec_den() == old(self).spec_den(),
            final(self).spec_num() as int == ((old(self).spec_num() + old(self).spec_step())
                as int) % (old(self).spec_den() as int),
            pulls as int == ((old(self).spec_num() + old(self).spec_step()) as int) / (old(
                self,
            ).spec_den() as int),
    {
        let moved = self.num + self.step;
        let pulls = moved / self.den;
        self.num = moved % self.den;
        proof {
            lemma_mod_bound(moved as int, self.den as int);
        }
        pulls
    }
}

/// The position reached after `n` advances from zero, as a numerator over
/// `den`: exactly `(n * step) mod den`.
pub open spec fn phase_after(n: nat, step: u64, den: u64) -> int {
    ((n as int) * (step as int)) % (den as int)
}

/// The total number of source frames pulled over the first `n` advances
/// from position zero.
pub open spec fn pulls_after(n: nat, step: u64, den: u64) -> int {
    ((n as int) * (step as int)) / (den as int)
}

/// One advance from the position reached after `n` advances lands on the
/// position after `n + 1`, and pulls the difference of the running totals:
/// over any run, the source frames consumed for `n` output samples add up
/// to exactly `floor(n * step / den)`, the rational rate conversion.
pub proof fn lemma_advance_run(n: nat, step: u64, den: u64)
    requires
        den > 0,
    ensures
        (phase_after(n, step, den) + step) % (den as int) == phase_after(n + 1, step, den),
        (phase_after(n, step, den) + step) / (den as int) == pulls_after(n + 1, step, den)
            - pulls_after(n, step, den),
{
    let d = den as int;
    let a = (n as int) * (step as int);
    let b = ((n + 1) as int) * (step as int);
    assert(((n as int) + 1) * (step as int) == (n as int) * (step as int) + (step as int))
        by (nonlinear_arith);
    assert(b == a + step);
    lemma_fundamental_div_mod(a, d);
    lemma_mod_bound(a, d);
    lemma_fundamental_div_mod(b, d);
    lemma_mod_bound(b, d);
    let q = a / d;
    let qb = b / d;
    assert(d * qb - d * q == d * (qb - q)) by (nonlinear_arith);
    assert(a % d + step == d * (qb - q) + b % d);
    lemma_fundamental_div_mod_converse_pair(a % d + step, d, qb - q, b % d);
}

proof fn lemma_fundamental_div_mod_converse_pair(x: int, d: int, q: int, r: int)
    requires
        d > 0,
        0 <= r < d,
        x == d * q + r,
    ensures
        x / d == q,
        x % d == r,
{
    assert(d * q == q * d) by (nonlinear_arith);
    vstd::arithmetic::div_mod::lemma_fundamental_div_mod_converse(x, d, q, r);
}

/// At the identity ratio the converter is a pass-through: from position
/// zero with `step == den`, every advance pulls exactly one source frame
/// and leaves the interpolation offset at zero, so each output sample is
/// interpolated at offset zero from a history advanced by exactly one
/// frame — the input stream reproduced sample-for-sample.
pub proof fn lemma_identity_ratio(n: nat, den: u64)
    requires
        den > 0,
    ensures
        phase_after(n, den, den) == 0,
        pulls_after(n, den, den) == n,
{
    let d = den as int;
    assert((n as int) * (den as int) == (den as int) * (n as int)) by (nonlinear_arith);
    assert((n as int) * (den as int) == d * (n as int) + 0);
    lemma_fundamental_div_mod_converse_pair((n as int) * (den as int), d, n as int, 0);
}

} // verus!
