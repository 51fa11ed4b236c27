//! The equal-variance hypothesis.
//!
//! Given two raw samples and a significance level: is it appropriate to
//! assume the two populations have the same variance?  The unbiased sample
//! variances are computed exactly, the observed F statistic is their ratio
//! oriented so the larger variance is the numerator, and the verdict
//! compares it with the right-tail Fisher-Snedecor critical value.

use vstd::prelude::*;
use vstd::arithmetic::div_mod::{lemma_div_by_multiple, lemma_div_is_ordered};
use vstd::arithmetic::mul::lemma_mul_inequality;
use crate::fixed::{Fixed, SCALE, q_div, q9_of_bits, bits_to_fixed, fx_div};
use crate::stats::{variance_q, unbiased_sample_variance};
use crate::dist::{Verdict, outcome_matches, fisher_quantile_of, fisher_quantile_bits};

verus! {

/// How solving an equal-variance hypothesis can fail.  The set may grow.
#[derive(Copy, Clone, PartialEq, Eq, Structural, Debug, Hash)]
#[non_exhaustive]
pub enum SVHError {
    /// The significance level is not strictly between zero and one.
    SignificanceInvalid,
    /// A degree-of-freedom count is not positive: a sample has fewer than
    /// two values.
    FreedomDegreesInvalid,
    /// The smaller sample variance is zero at the billionth, so no ratio
    /// can be formed.
    ZeroVariance,
    /// An exact intermediate left the raw fixed-point range.
    NumericOverflow,
    /// The critical value could not be read back into the raw range.
    CriticalValueOutOfRange,
}

impl SVHError {
    /// What the failure message reads, variant by variant.
    pub open spec fn message_spec(self) -> Seq<char> {
        match self {
            SVHError::SignificanceInvalid => "Significance must be between 0.0 and 1.0"@,
            SVHError::FreedomDegreesInvalid => "Freedom Degrees led to fail in initialization of Fisher-Snedecor"@,
            SVHError::ZeroVariance => "The smaller sample variance is zero"@,
            SVHError::NumericOverflow => "An intermediate value left the representable range"@,
            SVHError::CriticalValueOutOfRange => "The critical value left the representable range"@,
        }
    }

    /// A short account of the failure.
    pub fn message(&self) -> (r: &'static str)
        ensures
            r@ == self.message_spec(),
    {
        match self {
            SVHError::SignificanceInvalid => "Significance must be between 0.0 and 1.0",
            SVHError::FreedomDegreesInvalid => "Freedom Degrees led to fail in initialization of Fisher-Snedecor",
            SVHError::ZeroVariance => "The smaller sample variance is zero",
            SVHError::NumericOverflow => "An intermediate value left the representable range",
            SVHError::CriticalValueOutOfRange => "The critical value left the representable range",
        }
    }
}

/// The right-tail critical value of the Fisher-Snedecor distribution:
/// errors exactly on an out-of-range significance or a non-positive
/// degree-of-freedom count; otherwise the `1 - significance` quantile read
/// back as a fixed-point number, which must fit the raw range.
pub open spec fn fisher_critical_spec(d1: int, d2: int, sig: Fixed) -> Result<int, SVHError> {
    if !(0 < sig.q < SCALE) {
        Err(SVHError::SignificanceInvalid)
    } else if d1 < 1 || d2 < 1 {
        Err(SVHError::FreedomDegreesInvalid)
    } else {
        match q9_of_bits(fisher_quantile_of(d1, d2, SCALE - sig.q)) {
            Some(c) => Ok(c),
            None => Err(SVHError::CriticalValueOutOfRange),
        }
    }
}

/// Right-tail Fisher-Snedecor critical value at the given significance:
/// the value `x` with `P(X > x) = significance`, that is the
/// `1 - significance` quantile.
pub fn calculate_fished_snedecor_critical_value(
    freedom_degrees_1: u64,
    freedom_degrees_2: u64,
    significance: Fixed,
) -> (r: Result<Fixed, SVHError>)
    ensures
        (match (r, fisher_critical_spec(
            freedom_degrees_1 as int,
            freedom_degrees_2 as int,
            significance,
        )) {
            (Ok(c), Ok(cq)) => c.q == cq,
            (Err(e1), Err(e2)) => e1 == e2,
            _ => false,
        }),
{
    if !(0 < significance.q && significance.q < SCALE) {
        return Err(SVHError::SignificanceInvalid);
    }
    if freedom_degrees_1 < 1 || freedom_degrees_2 < 1 {
        return Err(SVHError::FreedomDegreesInvalid);
    }
    let p_num: i64 = SCALE - significance.q;
    let bits: u64 = fisher_quantile_bits(freedom_degrees_1, freedom_degrees_2, p_num);
    match bits_to_fixed(bits) {
        Some(c) => Ok(c),
        None => Err(SVHError::CriticalValueOutOfRange),
    }
}

/// The whole outcome of solving the hypothesis, as a function of the two
/// samples and the significance: the verdict, the observed F statistic and
/// the critical value, or the exact error.
pub open spec fn svh_solve_spec(x: Seq<Fixed>, y: Seq<Fixed>, sig: Fixed) -> Result<
    (bool, int, int),
    SVHError,
> {
    if !(0 < sig.q < SCALE) {
        Err(SVHError::SignificanceInvalid)
    } else if x.len() < 2 || y.len() < 2 {
        Err(SVHError::FreedomDegreesInvalid)
    } else {
        match (variance_q(x), variance_q(y)) {
            (Some(vx), Some(vy)) => {
                let vmax = if vx >= vy {
                    vx
                } else {
                    vy
                };
                let vmin = if vx >= vy {
                    vy
                } else {
                    vx
                };
                let d1 = if vx >= vy {
                    x.len() - 1
                } else {
                    y.len() - 1
                };
                let d2 = if vx >= vy {
                    y.len() - 1
                } else {
                    x.len() - 1
                };
                if vmin <= 0 {
                    Err(SVHError::ZeroVariance)
                } else {
                    match q_div(vmax, vmin) {
                        Some(f) => match fisher_critical_spec(d1 as int, d2 as int, sig) {
                            Ok(c) => Ok((f < c, f, c)),
                            Err(e) => Err(e),
                        },
                        None => Err(SVHError::NumericOverflow),
                    }
                }
            },
            _ => Err(SVHError::NumericOverflow),
        }
    }
}

/// Owns the two raw samples and the significance; immutable once built.
pub struct SameVarianceHypothesis {
    pub x_sample: Vec<Fixed>,
    pub y_sample: Vec<Fixed>,
    pub significance: Fixed,
}

impl SameVarianceHypothesis {
    /// Construction stores the inputs unchecked; validation happens when
    /// the hypothesis is solved.
    pub fn new(x_sample: Vec<Fixed>, y_sample: Vec<Fixed>, significance: Fixed) -> (r: Self)
        ensures
            r.x_sample@ == x_sample@,
            r.y_sample@ == y_sample@,
            r.significance == significance,
    {
        SameVarianceHypothesis { x_sample, y_sample, significance }
    }

    /// Solves the hypothesis, also reporting the observed F statistic and
    /// the critical value used.
    pub fn solve_full(&self) -> (r: Result<Verdict, SVHError>)
        requires
            self.x_sample@.len() < 0x8000_0000_0000_0000,
            self.y_sample@.len() < 0x8000_0000_0000_0000,
        ensures
            outcome_matches(r, svh_solve_spec(self.x_sample@, self.y_sample@, self.significance)),
    {
        if !(0 < self.significance.q && self.significance.q < SCALE) {
            return Err(SVHError::SignificanceInvalid);
        }
        if self.x_sample.len() < 2 || self.y_sample.len() < 2 {
            return Err(SVHError::FreedomDegreesInvalid);
        }
        let vxo: Option<Fixed> = unbiased_sample_variance(&self.x_sample);
        let vyo: Option<Fixed> = unbiased_sample_variance(&self.y_sample);
        let (vx, vy): (Fixed, Fixed) = match (vxo, vyo) {
            (Some(a), Some(b)) => (a, b),
            _ => {
                return Err(SVHError::NumericOverflow);
            },
        };
        let x_first: bool = vx.q >= vy.q;
        let vmax: Fixed = if x_first {
            vx
        } else {
            vy
        };
        let vmin: Fixed = if x_first {
            vy
        } else {
            vx
        };
        let d1: u64 = if x_first {
            (self.x_sample.len() - 1) as u64
        } else {
            (self.y_sample.len() - 1) as u64
        };
        let d2: u64 = if x_first {
            (self.y_sample.len() - 1) as u64
        } else {
            (self.x_sample.len() - 1) as u64
        };
        if vmin.q <= 0 {
            return Err(SVHError::ZeroVariance);
        }
        let f: Fixed = match fx_div(vmax, vmin) {
            Some(f) => f,
            None => {
                return Err(SVHError::NumericOverflow);
            },
        };
        let crit: Fixed = match calculate_fished_snedecor_critical_value(d1, d2, self.significance) {
            Ok(c) => c,
            Err(e) => {
                return Err(e);
            },
        };
        Ok(Verdict { accepted: f.q < crit.q, observed: f, critical: crit })
    }

    /// Solves the hypothesis: true when equal variances are not rejected.
    pub fn solve(&self) -> (r: Result<bool, SVHError>)
        requires
            self.x_sample@.len() < 0x8000_0000_0000_0000,
            self.y_sample@.len() < 0x8000_0000_0000_0000,
        ensures
            (match (r, svh_solve_spec(self.x_sample@, self.y_sample@, self.significance)) {
                (Ok(b), Ok((b2, _, _))) => b == b2,
                (Err(e1), Err(e2)) => e1 == e2,
                _ => false,
            }),
    {
        match self.solve_full() {
            Ok(v) => Ok(v.accepted),
            Err(e) => Err(e),
        }
    }
}

/// Law: the outcome of solving is a pure function of the owned state, so
/// any two outcomes that meet the solver's contract on the same hypothesis
/// are identical — observed statistic, critical value and verdict alike.
pub proof fn lemma_solve_deterministic(
    h: SameVarianceHypothesis,
    r1: Result<Verdict, SVHError>,
    r2: Result<Verdict, SVHError>,
)
    requires
        outcome_matches(r1, svh_solve_spec(h.x_sample@, h.y_sample@, h.significance)),
        outcome_matches(r2, svh_solve_spec(h.x_sample@, h.y_sample@, h.significance)),
    ensures
        r1 == r2,
{
}

/// Law: a significance outside the open unit interval is rejected as such,
/// whatever the samples hold.
pub proof fn lemma_invalid_significance_rejected(x: Seq<Fixed>, y: Seq<Fixed>, sig: Fixed)
    requires
        !(0 < sig.q < SCALE),
    ensures
        svh_solve_spec(x, y, sig) == Err::<(bool, int, int), SVHError>(
            SVHError::SignificanceInvalid,
        ),
{
}

/// Law: with a valid significance, a sample of fewer than two values leaves
/// a non-positive degree-of-freedom count and is rejected as such.
pub proof fn lemma_short_sample_rejected(x: Seq<Fixed>, y: Seq<Fixed>, sig: Fixed)
    requires
        0 < sig.q < SCALE,
        x.len() < 2 || y.len() < 2,
    ensures
        svh_solve_spec(x, y, sig) == Err::<(bool, int, int), SVHError>(
            SVHError::FreedomDegreesInvalid,
        ),
{
}

/// Law: whenever solving succeeds, the observed F statistic is at least
/// one, because the ratio is oriented with the larger variance on top.
pub proof fn lemma_f_ratio_at_least_one(
    x: Seq<Fixed>,
    y: Seq<Fixed>,
    sig: Fixed,
    b: bool,
    obs: int,
    crit: int,
)
    requires
        svh_solve_spec(x, y, sig) == Ok::<(bool, int, int), SVHError>((b, obs, crit)),
    ensures
        obs >= SCALE,
{
    let vx = variance_q(x).unwrap();
    let vy = variance_q(y).unwrap();
    let vmax = if vx >= vy {
        vx
    } else {
        vy
    };
    let vmin = if vx >= vy {
        vy
    } else {
        vx
    };
    assert(vmin >= 1);
    assert(vmax >= vmin);
    assert(obs == (vmax * SCALE) / vmin);
    lemma_mul_inequality(vmin, vmax, SCALE as int);
    lemma_div_is_ordered(vmin * SCALE, vmax * SCALE, vmin);
    lemma_div_by_multiple(SCALE as int, vmin);
    assert(vmin * SCALE == SCALE * vmin);
    assert((vmin * SCALE) / vmin == SCALE);
}

} // verus!
