//! The critical-value collaborator boundary.
//!
//! Everything the library needs from the outside numerics library — the
//! normal cumulative distribution function and right-tail quantiles of the
//! chi-squared and Fisher-Snedecor distributions — crosses here, through
//! trusted declarations.  Each result is a pure function of its arguments
//! and is given an uninterpreted name; every caller's own contract is stated
//! over that name.  Values enter a trusted body as exact decimal strings
//! assembled from verified parts and leave it as the raw bit pattern of the
//! computed double, which verified code reads back with
//! `crate::fixed::bits_to_fixed`.

use vstd::prelude::*;
use crate::fixed::{Fixed, q9_of_bits, q9_or_zero, signed_q};
use statrs::distribution::{ChiSquared, ContinuousCDF, FisherSnedecor, Normal};

verus! {

/// The outcome of solving a hypothesis: the decision, the observed test
/// statistic, and the critical value it was held against.
#[derive(Clone, Copy, PartialEq, Eq, Structural, Debug)]
pub struct Verdict {
    /// True when the hypothesis is not rejected.
    pub accepted: bool,
    /// The observed test statistic.
    pub observed: Fixed,
    /// The right-tail critical value the statistic was compared with.
    pub critical: Fixed,
}

/// Relates a solver's outcome to its specification: the raw counts and the
/// decision agree, or both sides report the same error.
pub open spec fn outcome_matches<E>(r: Result<Verdict, E>, s: Result<(bool, int, int), E>) -> bool {
    match (r, s) {
        (Ok(v), Ok((b, obs, crit))) => v.accepted == b && v.observed.q == obs && v.critical.q
            == crit,
        (Err(e1), Err(e2)) => e1 == e2,
        _ => false,
    }
}

/// Bits of the normal cumulative distribution value at the point with raw
/// count `x_q`, for the distribution with mean of raw count `mean_q` and
/// variance of raw count `var_q`.
pub uninterp spec fn normal_cdf_of(mean_q: int, var_q: int, x_q: int) -> u64;

/// Relies on statrs Normal::new and ContinuousCDF::cdf: construction
/// succeeds for a finite mean and a strictly positive finite standard
/// deviation, the cumulative distribution value lies in the closed unit
/// interval, and it depends on the arguments alone.  The mean, the variance
/// and the point arrive split into sign, whole part and billionth part; the
/// body assembles each into its decimal numeral, the argument type of the
/// outside calls.
#[verifier::external_body]
pub fn normal_cdf_bits(
    m_neg: bool,
    m_ip: u64,
    m_fr: u64,
    v_ip: u64,
    v_fr: u64,
    x_neg: bool,
    x_ip: u64,
    x_fr: u64,
) -> (r: u64)
    requires
        m_fr < 1_000_000_000,
        v_fr < 1_000_000_000,
        x_fr < 1_000_000_000,
        v_ip > 0 || v_fr > 0,
    ensures
        r == normal_cdf_of(
            signed_q(m_neg, m_ip, m_fr),
            v_ip * 1_000_000_000 + v_fr,
            signed_q(x_neg, x_ip, x_fr),
        ),
        q9_of_bits(r) is Some,
        0 <= q9_or_zero(r) <= 1_000_000_000,
{
    let mean = format!("{}{}.{:09}", if m_neg { "-" } else { "" }, m_ip, m_fr);
    let var = format!("{}.{:09}", v_ip, v_fr);
    let x = format!("{}{}.{:09}", if x_neg { "-" } else { "" }, x_ip, x_fr);
    // Each numeral always parses; the fallback constant is never taken.
    let sd = var.parse().unwrap_or(statrs::consts::SQRT_2PI).sqrt();
    let d = Normal::new(mean.parse().unwrap_or(statrs::consts::SQRT_2PI), sd).unwrap();
    d.cdf(x.parse().unwrap_or(statrs::consts::SQRT_2PI)).to_bits()
}

/// Bits of the `p_num / 1_000_000_000` quantile of the chi-squared
/// distribution with `dof` degrees of freedom.
pub uninterp spec fn chi_squared_quantile_of(dof: int, p_num: int) -> u64;

/// Relies on statrs ChiSquared::new and Gamma's inverse_cdf: construction
/// succeeds for a positive degree-of-freedom count, the quantile at a
/// probability strictly inside the unit interval raises nothing, and it
/// depends on the degrees of freedom and the probability alone.  The
/// probability arrives as a count of billionths and is assembled into its
/// decimal numeral, the argument type of the outside call.
#[verifier::external_body]
pub fn chi_squared_quantile_bits(dof: u64, p_num: i64) -> (r: u64)
    requires
        1 <= dof,
        1 <= p_num < 1_000_000_000,
    ensures
        r == chi_squared_quantile_of(dof as int, p_num as int),
{
    let d = ChiSquared::new(dof.to_string().parse().unwrap()).unwrap();
    d.inverse_cdf(format!("0.{:09}", p_num).parse().unwrap()).to_bits()
}

/// Bits of the `p_num / 1_000_000_000` quantile of the Fisher-Snedecor
/// distribution with degrees of freedom `d1` and `d2`.
pub uninterp spec fn fisher_quantile_of(d1: int, d2: int, p_num: int) -> u64;

/// Relies on statrs FisherSnedecor::new and ContinuousCDF::inverse_cdf:
/// construction succeeds for two positive finite degree-of-freedom counts,
/// the quantile at a probability strictly inside the unit interval raises
/// nothing, and it depends on the degrees of freedom and the probability
/// alone.  The probability arrives as a count of billionths and is
/// assembled into its decimal numeral, the argument type of the outside
/// call.
#[verifier::external_body]
pub fn fisher_quantile_bits(d1: u64, d2: u64, p_num: i64) -> (r: u64)
    requires
        1 <= d1,
        1 <= d2,
        1 <= p_num < 1_000_000_000,
    ensures
        r == fisher_quantile_of(d1 as int, d2 as int, p_num as int),
{
    let d = FisherSnedecor::new(
        d1.to_string().parse().unwrap(),
        d2.to_string().parse().unwrap(),
    ).unwrap();
    d.inverse_cdf(format!("0.{:09}", p_num).parse().unwrap()).to_bits()
}

} // verus!
