//! The normality hypothesis.
//!
//! Given a significance level and either a pair of empirical and theoretical
//! frequency samples, or empirical frequencies with the value ranges they
//! were counted over: is it appropriate to assume the sample came from a
//! normal distribution?  When only ranges are given, the expected
//! frequencies are estimated by fitting a normal distribution through the
//! method of moments on the range midpoints.  The verdict compares the
//! chi-squared statistic with the right-tail critical value.

use vstd::prelude::*;
use vstd::arithmetic::div_mod::lemma_div_basics;
use crate::fixed::{Fixed, SCALE, iabs, tdiv, opt_q, q_add, q_div, q_mid, q_mul, q_sub, q9_of_bits,
    q9_or_zero, signed_q, bits_to_fixed, fixed_parts, fx_add, fx_div, fx_mid, fx_mul, fx_sub};
use crate::stats::{q_sum, fx_sum};
use crate::dist::{Verdict, outcome_matches, normal_cdf_of, normal_cdf_bits, chi_squared_quantile_of,
    chi_squared_quantile_bits};

verus! {

/// How solving a normality hypothesis can fail.  The set may grow.
#[derive(Copy, Clone, PartialEq, Eq, Structural, Debug, Hash)]
#[non_exhaustive]
pub enum NDHError {
    /// Two sequences expected to pair element-wise differ in length.
    NonEqualSamplesLengths,
    /// The significance level is not strictly between zero and one.
    SignificanceInvalid,
    /// The degree-of-freedom count is not positive: fewer than four bins.
    FreedomDegreesInvalid,
    /// The estimated normal fit is degenerate: the total count is zero, or
    /// the estimated variance is zero at the billionth.
    NormalFitInvalid,
    /// A theoretical frequency is zero at the billionth, so the statistic's
    /// division cannot be carried out.
    ZeroTheoreticalFrequency,
    /// An exact intermediate left the raw fixed-point range.
    NumericOverflow,
    /// The critical value could not be read back into the raw range.
    CriticalValueOutOfRange,
}

impl NDHError {
    /// What the failure message reads, variant by variant.
    pub open spec fn message_spec(self) -> Seq<char> {
        match self {
            NDHError::NonEqualSamplesLengths => "Lengths of samples are different"@,
            NDHError::SignificanceInvalid => "Significance must be between 0.0 and 1.0"@,
            NDHError::FreedomDegreesInvalid => "Freedom Degrees led to fail in initialization of Gamma underlying Chi"@,
            NDHError::NormalFitInvalid => "The estimated normal distribution is degenerate"@,
            NDHError::ZeroTheoreticalFrequency => "A theoretical frequency is zero"@,
            NDHError::NumericOverflow => "An intermediate value left the representable range"@,
            NDHError::CriticalValueOutOfRange => "The critical value left the representable range"@,
        }
    }

    /// A short account of the failure.
    pub fn message(&self) -> (r: &'static str)
        ensures
            r@ == self.message_spec(),
    {
        match self {
            NDHError::NonEqualSamplesLengths => "Lengths of samples are different",
            NDHError::SignificanceInvalid => "Significance must be between 0.0 and 1.0",
            NDHError::FreedomDegreesInvalid => "Freedom Degrees led to fail in initialization of Gamma underlying Chi",
            NDHError::NormalFitInvalid => "The estimated normal distribution is degenerate",
            NDHError::ZeroTheoreticalFrequency => "A theoretical frequency is zero",
            NDHError::NumericOverflow => "An intermediate value left the representable range",
            NDHError::CriticalValueOutOfRange => "The critical value left the representable range",
        }
    }
}

/// The right-tail critical value of the chi-squared distribution: errors
/// exactly on an out-of-range significance or a non-positive
/// degree-of-freedom count; otherwise the `1 - significance` quantile read
/// back as a fixed-point number, which must fit the raw range.
pub open spec fn chi_critical_spec(dof: int, sig: Fixed) -> Result<int, NDHError> {
    if !(0 < sig.q < SCALE) {
        Err(NDHError::SignificanceInvalid)
    } else if dof < 1 {
        Err(NDHError::FreedomDegreesInvalid)
    } else {
        match q9_of_bits(chi_squared_quantile_of(dof, SCALE - sig.q)) {
            Some(c) => Ok(c),
            None => Err(NDHError::CriticalValueOutOfRange),
        }
    }
}

/// Right-tail chi-squared critical value at the given significance: the
/// value `x` with `P(X > x) = significance`, that is the `1 - significance`
/// quantile.
pub fn calculate_chi_squared_critical_value(freedom_degrees: u64, significance: Fixed) -> (r:
    Result<Fixed, NDHError>)
    ensures
        (match (r, chi_critical_spec(freedom_degrees as int, significance)) {
            (Ok(c), Ok(cq)) => c.q == cq,
            (Err(e1), Err(e2)) => e1 == e2,
            _ => false,
        }),
{
    if !(0 < significance.q && significance.q < SCALE) {
        return Err(NDHError::SignificanceInvalid);
    }
    if freedom_degrees < 1 {
        return Err(NDHError::FreedomDegreesInvalid);
    }
    let p_num: i64 = SCALE - significance.q;
    let bits: u64 = chi_squared_quantile_bits(freedom_degrees, p_num);
    match bits_to_fixed(bits) {
        Some(c) => Ok(c),
        None => Err(NDHError::CriticalValueOutOfRange),
    }
}

// ------------------------------------------------------------------
// Problem situations.
// ------------------------------------------------------------------

/// Both the empirical and the theoretical frequency samples are given.
pub struct CompleteNDHProblemSituation {
    pub empirical_sample: Vec<Fixed>,
    pub theoretical_sample: Vec<Fixed>,
    pub significance: Fixed,
}

impl CompleteNDHProblemSituation {
    pub open spec fn wf(self) -> bool {
        &&& self.empirical_sample@.len() == self.theoretical_sample@.len()
        &&& 0 < self.significance.q < SCALE
    }

    /// Validates eagerly: the samples must pair element-wise and the
    /// significance must lie strictly between zero and one.
    pub fn new(empirical_sample: Vec<Fixed>, theoretical_sample: Vec<Fixed>, significance: Fixed)
        -> (r: Result<Self, NDHError>)
        ensures
            (match r {
                Ok(s) => s.wf() && s.empirical_sample@ == empirical_sample@
                    && s.theoretical_sample@ == theoretical_sample@ && s.significance
                    == significance,
                Err(NDHError::NonEqualSamplesLengths) => empirical_sample@.len()
                    != theoretical_sample@.len(),
                Err(NDHError::SignificanceInvalid) => empirical_sample@.len()
                    == theoretical_sample@.len() && !(0 < significance.q < SCALE),
                _ => false,
            }),
    {
        if empirical_sample.len() != theoretical_sample.len() {
            return Err(NDHError::NonEqualSamplesLengths);
        }
        if !(0 < significance.q && significance.q < SCALE) {
            return Err(NDHError::SignificanceInvalid);
        }
        Ok(CompleteNDHProblemSituation { empirical_sample, theoretical_sample, significance })
    }

    /// The stored empirical sample, copied.
    pub fn empirical_sample(&self) -> (r: Vec<Fixed>)
        ensures
            r@ == self.empirical_sample@,
    {
        clone_sample(&self.empirical_sample)
    }

    /// The stored theoretical sample, copied.
    pub fn theoretical_sample(&self) -> (r: Vec<Fixed>)
        ensures
            r@ == self.theoretical_sample@,
    {
        clone_sample(&self.theoretical_sample)
    }

    /// The stored significance.
    pub fn significance(&self) -> (r: Fixed)
        ensures
            r == self.significance,
    {
        self.significance
    }
}

/// Only the value ranges and the empirical frequencies are given; the
/// theoretical frequencies are estimated on demand.
pub struct IncompleteNDHProblemSituation {
    pub random_value_ranges: Vec<(Fixed, Fixed)>,
    pub empirical_sample: Vec<Fixed>,
    pub significance: Fixed,
}

/// Frequency-weighted midpoint contribution of one range.
pub open spec fn w_term(r: (Fixed, Fixed), e: Fixed) -> Option<int> {
    match q_mid(r.0.q as int, r.1.q as int) {
        Some(m) => q_mul(e.q as int, m),
        None => None,
    }
}

/// Sum of the frequency-weighted range midpoints.
pub open spec fn w_sum(rs: Seq<(Fixed, Fixed)>, es: Seq<Fixed>) -> Option<int>
    decreases es.len(),
{
    if es.len() == 0 {
        Some(0)
    } else {
        match w_sum(rs.drop_last(), es.drop_last()) {
            Some(a) => match w_term(rs.last(), es.last()) {
                Some(t) => q_add(a, t),
                None => None,
            },
            None => None,
        }
    }
}

/// Frequency-weighted squared deviation of one range midpoint from the mean.
pub open spec fn w_sqdev_term(r: (Fixed, Fixed), e: Fixed, mean: int) -> Option<int> {
    match q_mid(r.0.q as int, r.1.q as int) {
        Some(m) => match q_sub(m, mean) {
            Some(d) => match q_mul(d, d) {
                Some(s) => q_mul(e.q as int, s),
                None => None,
            },
            None => None,
        },
        None => None,
    }
}

/// Sum of the frequency-weighted squared midpoint deviations.
pub open spec fn w_sqdev_sum(rs: Seq<(Fixed, Fixed)>, es: Seq<Fixed>, mean: int) -> Option<int>
    decreases es.len(),
{
    if es.len() == 0 {
        Some(0)
    } else {
        match w_sqdev_sum(rs.drop_last(), es.drop_last(), mean) {
            Some(a) => match w_sqdev_term(rs.last(), es.last(), mean) {
                Some(t) => q_add(a, t),
                None => None,
            },
            None => None,
        }
    }
}

/// One estimated theoretical frequency: the total count times the normal
/// probability mass of the range.
pub open spec fn theo_bin(n_q: int, mean_q: int, var_q: int, r: (Fixed, Fixed)) -> Option<int> {
    let chi = q9_or_zero(normal_cdf_of(mean_q, var_q, r.1.q as int));
    let clo = q9_or_zero(normal_cdf_of(mean_q, var_q, r.0.q as int));
    q_mul(n_q, chi - clo)
}

pub open spec fn theo_one(n_q: int, mean_q: int, var_q: int, r: (Fixed, Fixed)) -> int {
    match theo_bin(n_q, mean_q, var_q, r) {
        Some(v) => v,
        None => 0,
    }
}

/// The estimated theoretical sample, as a function of the stored ranges
/// and empirical frequencies alone: total count, frequency-weighted mean
/// and variance of the midpoints, then each range's normal probability
/// mass scaled by the total count.
pub open spec fn incomplete_theoretical_spec(rs: Seq<(Fixed, Fixed)>, es: Seq<Fixed>) -> Result<
    Seq<int>,
    NDHError,
> {
    match q_sum(es) {
        None => Err(NDHError::NumericOverflow),
        Some(n) => match w_sum(rs, es) {
            None => Err(NDHError::NumericOverflow),
            Some(w) => if n == 0 {
                Err(NDHError::NormalFitInvalid)
            } else {
                match q_div(w, n) {
                    None => Err(NDHError::NumericOverflow),
                    Some(mean) => match w_sqdev_sum(rs, es, mean) {
                        None => Err(NDHError::NumericOverflow),
                        Some(sq) => match q_div(sq, n) {
                            None => Err(NDHError::NumericOverflow),
                            Some(var) => if var <= 0 {
                                Err(NDHError::NormalFitInvalid)
                            } else {
                                if exists|i: int|
                                    0 <= i < rs.len() && theo_bin(n, mean, var, rs[i]) is None {
                                    Err(NDHError::NumericOverflow)
                                } else {
                                    Ok(Seq::new(rs.len(), |i: int| theo_one(n, mean, var, rs[i])))
                                }
                            },
                        },
                    },
                }
            },
        },
    }
}

/// Relates a computed sample to its specification.
pub open spec fn sample_matches(r: Result<Vec<Fixed>, NDHError>, s: Result<Seq<int>, NDHError>)
    -> bool {
    match (r, s) {
        (Ok(v), Ok(sq)) => v@.len() == sq.len() && (forall|i: int|
            0 <= i < sq.len() ==> v@[i].q == sq[i]),
        (Err(e1), Err(e2)) => e1 == e2,
        _ => false,
    }
}

impl IncompleteNDHProblemSituation {
    pub open spec fn wf(self) -> bool {
        &&& self.random_value_ranges@.len() == self.empirical_sample@.len()
        &&& 0 < self.significance.q < SCALE
    }

    /// Validates eagerly: the ranges must pair element-wise with the
    /// frequencies and the significance must lie strictly between zero and
    /// one.
    pub fn new(
        random_value_ranges: Vec<(Fixed, Fixed)>,
        empirical_sample: Vec<Fixed>,
        significance: Fixed,
    ) -> (r: Result<Self, NDHError>)
        ensures
            (match r {
                Ok(s) => s.wf() && s.random_value_ranges@ == random_value_ranges@
                    && s.empirical_sample@ == empirical_sample@ && s.significance == significance,
                Err(NDHError::NonEqualSamplesLengths) => random_value_ranges@.len()
                    != empirical_sample@.len(),
                Err(NDHError::SignificanceInvalid) => random_value_ranges@.len()
                    == empirical_sample@.len() && !(0 < significance.q < SCALE),
                _ => false,
            }),
    {
        if random_value_ranges.len() != empirical_sample.len() {
            return Err(NDHError::NonEqualSamplesLengths);
        }
        if !(0 < significance.q && significance.q < SCALE) {
            return Err(NDHError::SignificanceInvalid);
        }
        Ok(IncompleteNDHProblemSituation { random_value_ranges, empirical_sample, significance })
    }

    /// The stored empirical sample, copied.
    pub fn empirical_sample(&self) -> (r: Vec<Fixed>)
        ensures
            r@ == self.empirical_sample@,
    {
        clone_sample(&self.empirical_sample)
    }

    /// The stored significance.
    pub fn significance(&self) -> (r: Fixed)
        ensures
            r == self.significance,
    {
        self.significance
    }

    /// Estimates the theoretical sample from the stored fields; a pure
    /// function of them, recomputed on every call.
    pub fn theoretical_sample(&self) -> (r: Result<Vec<Fixed>, NDHError>)
        requires
            self.random_value_ranges@.len() == self.empirical_sample@.len(),
        ensures
            sample_matches(
                r,
                incomplete_theoretical_spec(self.random_value_ranges@, self.empirical_sample@),
            ),
    {
        let rs: &Vec<(Fixed, Fixed)> = &self.random_value_ranges;
        let es: &Vec<Fixed> = &self.empirical_sample;
        let n: Fixed = match fx_sum(es) {
            Some(f) => f,
            None => {
                return Err(NDHError::NumericOverflow);
            },
        };
        let mut acc: Option<Fixed> = Some(Fixed { q: 0 });
        let mut i: usize = 0;
        while i < es.len()
            invariant
                i <= es@.len(),
                rs@.len() == es@.len(),
                opt_q(acc) == w_sum(rs@.take(i as int), es@.take(i as int)),
            decreases es@.len() - i,
        {
            acc = match acc {
                Some(a) => {
                    let (lo, hi) = rs[i];
                    match fx_mid(lo, hi) {
                        Some(m) => match fx_mul(es[i], m) {
                            Some(t) => fx_add(a, t),
                            None => None,
                        },
                        None => None,
                    }
                },
                None => None,
            };
            proof {
                assert(rs@.take(i as int + 1).drop_last() =~= rs@.take(i as int));
                assert(es@.take(i as int + 1).drop_last() =~= es@.take(i as int));
                assert(rs@.take(i as int + 1).last() == rs@[i as int]);
                assert(es@.take(i as int + 1).last() == es@[i as int]);
            }
            i = i + 1;
        }
        proof {
            assert(rs@.take(rs@.len() as int) =~= rs@);
            assert(es@.take(es@.len() as int) =~= es@);
        }
        let w: Fixed = match acc {
            Some(f) => f,
            None => {
                return Err(NDHError::NumericOverflow);
            },
        };
        if n.q == 0 {
            return Err(NDHError::NormalFitInvalid);
        }
        let mean: Fixed = match fx_div(w, n) {
            Some(f) => f,
            None => {
                return Err(NDHError::NumericOverflow);
            },
        };
        let mut sacc: Option<Fixed> = Some(Fixed { q: 0 });
        let mut i: usize = 0;
        while i < es.len()
            invariant
                i <= es@.len(),
                rs@.len() == es@.len(),
                opt_q(sacc) == w_sqdev_sum(rs@.take(i as int), es@.take(i as int), mean.q as int),
            decreases es@.len() - i,
        {
            sacc = match sacc {
                Some(a) => {
                    let (lo, hi) = rs[i];
                    match fx_mid(lo, hi) {
                        Some(m) => match fx_sub(m, mean) {
                            Some(d) => match fx_mul(d, d) {
                                Some(s) => match fx_mul(es[i], s) {
                                    Some(t) => fx_add(a, t),
                                    None => None,
                                },
                                None => None,
                            },
                            None => None,
                        },
                        None => None,
                    }
                },
                None => None,
            };
            proof {
                assert(rs@.take(i as int + 1).drop_last() =~= rs@.take(i as int));
                assert(es@.take(i as int + 1).drop_last() =~= es@.take(i as int));
                assert(rs@.take(i as int + 1).last() == rs@[i as int]);
                assert(es@.take(i as int + 1).last() == es@[i as int]);
            }
            i = i + 1;
        }
        proof {
            assert(rs@.take(rs@.len() as int) =~= rs@);
            assert(es@.take(es@.len() as int) =~= es@);
        }
        let sq: Fixed = match sacc {
            Some(f) => f,
            None => {
                return Err(NDHError::NumericOverflow);
            },
        };
        let var: Fixed = match fx_div(sq, n) {
            Some(f) => f,
            None => {
                return Err(NDHError::NumericOverflow);
            },
        };
        if var.q <= 0 {
            return Err(NDHError::NormalFitInvalid);
        }
        let mp: (bool, u64, u64) = fixed_parts(mean);
        let vp: (bool, u64, u64) = fixed_parts(var);
        proof {
            assert(!vp.0 && vp.1 * 1_000_000_000 + vp.2 == var.q as int) by {
                assert(signed_q(vp.0, vp.1, vp.2) == var.q as int);
            }
        }
        let mut out: Vec<Fixed> = Vec::new();
        let mut i: usize = 0;
        while i < rs.len()
            invariant
                i <= rs@.len(),
                rs@ == self.random_value_ranges@,
                es@ == self.empirical_sample@,
                rs@.len() == es@.len(),
                out@.len() == i as int,
                mp.2 < 1_000_000_000,
                vp.2 < 1_000_000_000,
                signed_q(mp.0, mp.1, mp.2) == mean.q as int,
                !vp.0,
                vp.1 * 1_000_000_000 + vp.2 == var.q as int,
                var.q >= 1,
                n.q != 0,
                q_sum(es@) == Some(n.q as int),
                w_sum(rs@, es@) == Some(w.q as int),
                q_div(w.q as int, n.q as int) == Some(mean.q as int),
                w_sqdev_sum(rs@, es@, mean.q as int) == Some(sq.q as int),
                q_div(sq.q as int, n.q as int) == Some(var.q as int),
                forall|j: int|
                    0 <= j < i as int ==> theo_bin(n.q as int, mean.q as int, var.q as int, rs@[j])
                        is Some && out@[j].q == theo_one(
                        n.q as int,
                        mean.q as int,
                        var.q as int,
                        rs@[j],
                    ),
            decreases rs@.len() - i,
        {
            let (lo, hi) = rs[i];
            let hp: (bool, u64, u64) = fixed_parts(hi);
            let hb: u64 = normal_cdf_bits(mp.0, mp.1, mp.2, vp.1, vp.2, hp.0, hp.1, hp.2);
            let lp: (bool, u64, u64) = fixed_parts(lo);
            let lb: u64 = normal_cdf_bits(mp.0, mp.1, mp.2, vp.1, vp.2, lp.0, lp.1, lp.2);
            let ch: Fixed = match bits_to_fixed(hb) {
                Some(c) => c,
                None => {
                    proof {
                        assert(false);
                    }
                    return Err(NDHError::NumericOverflow);
                },
            };
            let cl: Fixed = match bits_to_fixed(lb) {
                Some(c) => c,
                None => {
                    proof {
                        assert(false);
                    }
                    return Err(NDHError::NumericOverflow);
                },
            };
            let diff: i64 = ch.q - cl.q;
            proof {
                assert(rs@[i as int] == (lo, hi));
                assert(signed_q(hp.0, hp.1, hp.2) == hi.q as int);
                assert(signed_q(lp.0, lp.1, lp.2) == lo.q as int);
                assert(hb == normal_cdf_of(mean.q as int, var.q as int, hi.q as int));
                assert(lb == normal_cdf_of(mean.q as int, var.q as int, lo.q as int));
                assert(q9_or_zero(hb) == ch.q as int);
                assert(q9_or_zero(lb) == cl.q as int);
                assert(theo_bin(n.q as int, mean.q as int, var.q as int, rs@[i as int]) == q_mul(
                    n.q as int,
                    ch.q as int - cl.q as int,
                ));
            }
            let t: Fixed = match fx_mul(n, Fixed { q: diff }) {
                Some(t) => t,
                None => {
                    proof {
                        assert(theo_bin(n.q as int, mean.q as int, var.q as int, rs@[i as int])
                            is None);
                        assert(exists|j: int|
                            0 <= j < rs@.len() && theo_bin(
                                n.q as int,
                                mean.q as int,
                                var.q as int,
                                rs@[j],
                            ) is None) by {
                            let ii: int = i as int;
                            assert(0 <= ii && ii < rs@.len() && theo_bin(
                                n.q as int,
                                mean.q as int,
                                var.q as int,
                                rs@[ii],
                            ) is None);
                        }
                    }
                    return Err(NDHError::NumericOverflow);
                },
            };
            out.push(t);
            i = i + 1;
        }
        Ok(out)
    }
}

/// A data source for the normality test: either both samples are given, or
/// the theoretical one is estimated from ranges.  Either variant offers the
/// empirical sample, the theoretical sample and the significance.
pub enum NDHProblemSituation {
    Complete(CompleteNDHProblemSituation),
    Incomplete(IncompleteNDHProblemSituation),
}

impl NDHProblemSituation {
    pub open spec fn wf(self) -> bool {
        match self {
            NDHProblemSituation::Complete(c) => c.wf(),
            NDHProblemSituation::Incomplete(i) => i.wf(),
        }
    }

    pub open spec fn empirical_seq(self) -> Seq<Fixed> {
        match self {
            NDHProblemSituation::Complete(c) => c.empirical_sample@,
            NDHProblemSituation::Incomplete(i) => i.empirical_sample@,
        }
    }

    pub open spec fn significance_spec(self) -> Fixed {
        match self {
            NDHProblemSituation::Complete(c) => c.significance,
            NDHProblemSituation::Incomplete(i) => i.significance,
        }
    }

    /// The theoretical sample this situation resolves to, as raw counts.
    pub open spec fn theoretical_spec(self) -> Result<Seq<int>, NDHError> {
        match self {
            NDHProblemSituation::Complete(c) => Ok(
                c.theoretical_sample@.map_values(|f: Fixed| f.q as int),
            ),
            NDHProblemSituation::Incomplete(i) => incomplete_theoretical_spec(
                i.random_value_ranges@,
                i.empirical_sample@,
            ),
        }
    }

    /// The stored significance.
    pub fn significance(&self) -> (r: Fixed)
        ensures
            r == self.significance_spec(),
    {
        match self {
            NDHProblemSituation::Complete(c) => c.significance,
            NDHProblemSituation::Incomplete(i) => i.significance,
        }
    }

    /// The empirical frequency sample.
    pub fn empirical_sample(&self) -> (r: &Vec<Fixed>)
        ensures
            r@ == self.empirical_seq(),
    {
        match self {
            NDHProblemSituation::Complete(c) => &c.empirical_sample,
            NDHProblemSituation::Incomplete(i) => &i.empirical_sample,
        }
    }

    /// The theoretical frequency sample this situation resolves to: stored
    /// for the complete variant, estimated anew for the incomplete one.
    pub fn theoretical_sample(&self) -> (r: Result<Vec<Fixed>, NDHError>)
        requires
            self.wf(),
        ensures
            sample_matches(r, self.theoretical_spec()),
    {
        match self {
            NDHProblemSituation::Complete(c) => Ok(clone_sample(&c.theoretical_sample)),
            NDHProblemSituation::Incomplete(i) => i.theoretical_sample(),
        }
    }
}

/// Copies a sample value for value.
fn clone_sample(s: &Vec<Fixed>) -> (r: Vec<Fixed>)
    ensures
        r@ == s@,
{
    let mut out: Vec<Fixed> = Vec::new();
    let mut i: usize = 0;
    while i < s.len()
        invariant
            i <= s@.len(),
            out@ == s@.take(i as int),
        decreases s@.len() - i,
    {
        out.push(s[i]);
        proof {
            assert(out@ =~= s@.take(i as int + 1));
        }
        i = i + 1;
    }
    proof {
        assert(s@.take(s@.len() as int) =~= s@);
    }
    out
}

// ------------------------------------------------------------------
// The engine.
// ------------------------------------------------------------------

/// A theoretical frequency of exactly zero, at the billionth.
pub open spec fn has_zero(ts: Seq<int>) -> bool {
    exists|i: int| 0 <= i < ts.len() && ts[i] == 0
}

/// Running chi-squared sum: each bin adds the squared difference of the
/// empirical and theoretical frequencies, divided by the theoretical one.
pub open spec fn chi2_terms(es: Seq<Fixed>, ts: Seq<int>) -> Option<int>
    decreases es.len(),
{
    if es.len() == 0 {
        Some(0)
    } else {
        match chi2_terms(es.drop_last(), ts.drop_last()) {
            Some(a) => match q_sub(es.last().q as int, ts.last()) {
                Some(d) => match q_mul(d, d) {
                    Some(s) => match q_div(s, ts.last()) {
                        Some(t) => q_add(a, t),
                        None => None,
                    },
                    None => None,
                },
                None => None,
            },
            None => None,
        }
    }
}

/// The observed chi-squared statistic of paired samples; errors on a zero
/// theoretical frequency (the statistic's division cannot be carried out)
/// or on an intermediate out of the raw range.
pub fn chi_squared_observed(es: &Vec<Fixed>, ts: &Vec<Fixed>) -> (r: Result<Fixed, NDHError>)
    requires
        es@.len() == ts@.len(),
    ensures
        (match (r, chi2_terms(es@, ts@.map_values(|f: Fixed| f.q as int))) {
            (Err(NDHError::ZeroTheoreticalFrequency), _) => has_zero(
                ts@.map_values(|f: Fixed| f.q as int),
            ),
            (Ok(v), Some(s)) => !has_zero(ts@.map_values(|f: Fixed| f.q as int)) && v.q == s,
            (Err(NDHError::NumericOverflow), None) => !has_zero(
                ts@.map_values(|f: Fixed| f.q as int),
            ),
            _ => false,
        }),
{
    let ghost tq: Seq<int> = ts@.map_values(|f: Fixed| f.q as int);
    let mut i: usize = 0;
    while i < ts.len()
        invariant
            i <= ts@.len(),
            tq == ts@.map_values(|f: Fixed| f.q as int),
            forall|j: int| 0 <= j < i as int ==> tq[j] != 0,
        decreases ts@.len() - i,
    {
        if ts[i].q == 0 {
            proof {
                assert(tq[i as int] == 0);
            }
            return Err(NDHError::ZeroTheoreticalFrequency);
        }
        i = i + 1;
    }
    let mut acc: Option<Fixed> = Some(Fixed { q: 0 });
    let mut i: usize = 0;
    while i < es.len()
        invariant
            i <= es@.len(),
            es@.len() == ts@.len(),
            tq == ts@.map_values(|f: Fixed| f.q as int),
            forall|j: int| 0 <= j < ts@.len() ==> tq[j] != 0,
            opt_q(acc) == chi2_terms(es@.take(i as int), tq.take(i as int)),
        decreases es@.len() - i,
    {
        acc = match acc {
            Some(a) => match fx_sub(es[i], ts[i]) {
                Some(d) => match fx_mul(d, d) {
                    Some(s) => match fx_div(s, ts[i]) {
                        Some(t) => fx_add(a, t),
                        None => None,
                    },
                    None => None,
                },
                None => None,
            },
            None => None,
        };
        proof {
            assert(es@.take(i as int + 1).drop_last() =~= es@.take(i as int));
            assert(tq.take(i as int + 1).drop_last() =~= tq.take(i as int));
            assert(es@.take(i as int + 1).last() == es@[i as int]);
            assert(tq.take(i as int + 1).last() == tq[i as int]);
        }
        i = i + 1;
    }
    proof {
        assert(es@.take(es@.len() as int) =~= es@);
        assert(tq.take(tq.len() as int) =~= tq);
    }
    match acc {
        Some(v) => Ok(v),
        None => Err(NDHError::NumericOverflow),
    }
}

/// The whole outcome of solving the hypothesis, as a function of the owned
/// situation: the verdict, the observed chi-squared statistic and the
/// critical value, or the exact error.  The degrees of freedom are the bin
/// count less three: one for the frequency constraint and two for the
/// estimated mean and variance, whichever variant supplied the data.
pub open spec fn ndh_solve_spec(sit: NDHProblemSituation) -> Result<(bool, int, int), NDHError> {
    let e = sit.empirical_seq();
    if e.len() < 4 {
        Err(NDHError::FreedomDegreesInvalid)
    } else {
        match sit.theoretical_spec() {
            Err(err) => Err(err),
            Ok(t) => if has_zero(t) {
                Err(NDHError::ZeroTheoreticalFrequency)
            } else {
                match chi2_terms(e, t) {
                    None => Err(NDHError::NumericOverflow),
                    Some(stat) => match chi_critical_spec(
                        e.len() - 3,
                        sit.significance_spec(),
                    ) {
                        Err(err) => Err(err),
                        Ok(crit) => Ok((stat < crit, stat, crit)),
                    },
                }
            },
        }
    }
}

/// Owns a problem situation; immutable once built.
pub struct NormalDistributionHypothesis {
    pub situation: NDHProblemSituation,
}

impl NormalDistributionHypothesis {
    /// Wraps an already validated situation.
    pub fn new(situation: NDHProblemSituation) -> (r: Result<Self, NDHError>)
        ensures
            (match r {
                Ok(h) => h.situation == situation,
                _ => false,
            }),
    {
        Ok(NormalDistributionHypothesis { situation })
    }

    /// Solves the hypothesis, also reporting the observed statistic and
    /// the critical value used.
    pub fn solve_full(&self) -> (r: Result<Verdict, NDHError>)
        requires
            self.situation.wf(),
        ensures
            outcome_matches(r, ndh_solve_spec(self.situation)),
    {
        let stat: Fixed;
        let e_len: usize;
        match &self.situation {
            NDHProblemSituation::Complete(c) => {
                e_len = c.empirical_sample.len();
                if e_len < 4 {
                    return Err(NDHError::FreedomDegreesInvalid);
                }
                stat = match chi_squared_observed(&c.empirical_sample, &c.theoretical_sample) {
                    Ok(v) => v,
                    Err(err) => {
                        return Err(err);
                    },
                };
            },
            NDHProblemSituation::Incomplete(i) => {
                e_len = i.empirical_sample.len();
                if e_len < 4 {
                    return Err(NDHError::FreedomDegreesInvalid);
                }
                let t: Vec<Fixed> = match i.theoretical_sample() {
                    Ok(v) => v,
                    Err(err) => {
                        return Err(err);
                    },
                };
                proof {
                    let s = incomplete_theoretical_spec(
                        i.random_value_ranges@,
                        i.empirical_sample@,
                    );
                    assert(t@.map_values(|f: Fixed| f.q as int) =~= s.unwrap());
                }
                stat = match chi_squared_observed(&i.empirical_sample, &t) {
                    Ok(v) => v,
                    Err(err) => {
                        return Err(err);
                    },
                };
            },
        }
        let dof: u64 = (e_len - 3) as u64;
        let sig: Fixed = self.situation.significance();
        let crit: Fixed = match calculate_chi_squared_critical_value(dof, sig) {
            Ok(c) => c,
            Err(err) => {
                return Err(err);
            },
        };
        Ok(Verdict { accepted: stat.q < crit.q, observed: stat, critical: crit })
    }

    /// Solves the hypothesis: true when normality is not rejected.
    pub fn solve(&self) -> (r: Result<bool, NDHError>)
        requires
            self.situation.wf(),
        ensures
            (match (r, ndh_solve_spec(self.situation)) {
                (Ok(b), Ok((b2, _, _))) => b == b2,
                (Err(e1), Err(e2)) => e1 == e2,
                _ => false,
            }),
    {
        match self.solve_full() {
            Ok(v) => Ok(v.accepted),
            Err(e) => Err(e),
        }
    }
}

/// Law: the outcome of solving is a pure function of the owned situation,
/// so any two outcomes that meet the solver's contract on the same
/// hypothesis are identical.
pub proof fn lemma_solve_deterministic(
    h: NormalDistributionHypothesis,
    r1: Result<Verdict, NDHError>,
    r2: Result<Verdict, NDHError>,
)
    requires
        outcome_matches(r1, ndh_solve_spec(h.situation)),
        outcome_matches(r2, ndh_solve_spec(h.situation)),
    ensures
        r1 == r2,
{
}

/// Law: fewer than four bins leave a non-positive degree-of-freedom count
/// (the bin count less three) and are rejected as such, for either variant.
pub proof fn lemma_few_bins_rejected(sit: NDHProblemSituation)
    requires
        sit.empirical_seq().len() < 4,
    ensures
        ndh_solve_spec(sit) == Err::<(bool, int, int), NDHError>(NDHError::FreedomDegreesInvalid),
{
}

proof fn lemma_chi2_of_equal_is_zero(es: Seq<Fixed>, ts: Seq<int>)
    requires
        ts.len() == es.len(),
        forall|i: int| 0 <= i < es.len() ==> ts[i] == es[i].q as int && ts[i] != 0,
    ensures
        chi2_terms(es, ts) == Some(0int),
    decreases es.len(),
{
    if es.len() > 0 {
        assert(forall|i: int|
            0 <= i < es.drop_last().len() ==> ts.drop_last()[i] == es.drop_last()[i].q as int
                && ts.drop_last()[i] != 0);
        lemma_chi2_of_equal_is_zero(es.drop_last(), ts.drop_last());
        assert(ts.last() == es.last().q as int && ts.last() != 0);
        lemma_div_basics(iabs(SCALE as int));
        lemma_div_basics(iabs(ts.last()));
        assert(q_sub(es.last().q as int, ts.last()) == Some(0int));
        assert(tdiv(0, SCALE as int) == 0);
        assert(q_mul(0, 0) == Some(0int));
        assert(0 * SCALE as int == 0);
        assert(tdiv(0 * SCALE as int, ts.last()) == 0);
        assert(q_div(0, ts.last()) == Some(0int));
    }
}

/// Law: when the empirical and theoretical samples agree element-wise and
/// every theoretical frequency is nonzero, the observed statistic is
/// exactly zero, so the hypothesis is accepted whenever the critical value
/// is positive at the billionth.
pub proof fn lemma_identical_samples_accept(c: CompleteNDHProblemSituation, crit: int)
    requires
        c.wf(),
        c.empirical_sample@.len() >= 4,
        c.empirical_sample@ == c.theoretical_sample@,
        forall|i: int|
            0 <= i < c.theoretical_sample@.len() ==> c.theoretical_sample@[i].q != 0,
        chi_critical_spec(c.empirical_sample@.len() - 3, c.significance) == Ok::<
            int,
            NDHError,
        >(crit),
        crit >= 1,
    ensures
        ndh_solve_spec(NDHProblemSituation::Complete(c)) == Ok::<(bool, int, int), NDHError>(
            (true, 0, crit),
        ),
{
    let es = c.empirical_sample@;
    let ts = c.theoretical_sample@.map_values(|f: Fixed| f.q as int);
    assert(forall|i: int| 0 <= i < es.len() ==> ts[i] == es[i].q as int && ts[i] != 0);
    lemma_chi2_of_equal_is_zero(es, ts);
    assert(!has_zero(ts));
}

} // verus!
