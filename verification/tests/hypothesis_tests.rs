use hypothesis_tests::fixed::{Fixed, SCALE};
use hypothesis_tests::normal_distribution_hypothesis::{
    CompleteNDHProblemSituation, IncompleteNDHProblemSituation, NDHError, NDHProblemSituation,
    NormalDistributionHypothesis,
};
use hypothesis_tests::same_variance_hypothesis::{SVHError, SameVarianceHypothesis};

fn whole(v: i64) -> Fixed {
    Fixed::from_int(v).unwrap()
}

fn wholes(vs: &[i64]) -> Vec<Fixed> {
    vs.iter().map(|v| whole(*v)).collect()
}

fn ranges(vs: &[(i64, i64)]) -> Vec<(Fixed, Fixed)> {
    vs.iter().map(|(a, b)| (whole(*a), whole(*b))).collect()
}

fn sig005() -> Fixed {
    Fixed { q: 50_000_000 }
}

fn sig001() -> Fixed {
    Fixed { q: 10_000_000 }
}

#[test]
fn ndh_complete_scenario() {
    let e = wholes(&[7, 12, 49, 66, 83, 67, 23, 13]);
    let t = wholes(&[5, 9, 46, 60, 89, 81, 19, 11]);
    let situation = CompleteNDHProblemSituation::new(e, t, sig005()).unwrap();
    let ndh =
        NormalDistributionHypothesis::new(NDHProblemSituation::Complete(situation)).unwrap();
    let v = ndh.solve_full().unwrap();
    // Exact chi-squared statistic in billionths: sum of the eight bin terms.
    assert_eq!(v.observed.q, 6_625_641_267);
    // Chi-squared right-tail critical value at significance 0.05 with five
    // degrees of freedom is near 11.0705.
    assert!(11_000_000_000 < v.critical.q && v.critical.q < 11_200_000_000);
    assert!(v.accepted);
    assert_eq!(ndh.solve(), Ok(true));
}

#[test]
fn ndh_identical_samples_statistic_is_zero() {
    let e = wholes(&[5, 9, 46, 60, 89, 81, 19, 11]);
    let t = wholes(&[5, 9, 46, 60, 89, 81, 19, 11]);
    let situation = CompleteNDHProblemSituation::new(e, t, sig005()).unwrap();
    let ndh =
        NormalDistributionHypothesis::new(NDHProblemSituation::Complete(situation)).unwrap();
    let v = ndh.solve_full().unwrap();
    assert_eq!(v.observed.q, 0);
    assert!(v.accepted);
}

#[test]
fn ndh_incomplete_scenario() {
    let rv = ranges(&[(22, 24), (24, 26), (26, 28), (28, 30), (30, 32), (32, 34)]);
    let e = wholes(&[2, 12, 34, 40, 10, 2]);
    let situation = IncompleteNDHProblemSituation::new(rv, e, sig001()).unwrap();
    let ndh =
        NormalDistributionHypothesis::new(NDHProblemSituation::Incomplete(situation)).unwrap();
    let v = ndh.solve_full().unwrap();
    // The method-of-moments fit has mean 28 and variance 3.72; the
    // chi-squared statistic of the derived frequencies is near 1.60.
    assert!(1_400_000_000 < v.observed.q && v.observed.q < 1_800_000_000);
    // Chi-squared right-tail critical value at significance 0.01 with three
    // degrees of freedom is near 11.345.
    assert!(11_200_000_000 < v.critical.q && v.critical.q < 11_500_000_000);
    assert!(v.accepted);
}

#[test]
fn svh_scenario() {
    // x = [100.0, 100.5, 99.5, 90.0, 100.0], y = [85.4, 80.6, 83.0, 81.0]
    let x = vec![
        whole(100),
        Fixed { q: 100_500_000_000 },
        Fixed { q: 99_500_000_000 },
        whole(90),
        whole(100),
    ];
    let y = vec![
        Fixed { q: 85_400_000_000 },
        Fixed { q: 80_600_000_000 },
        whole(83),
        whole(81),
    ];
    let svh = SameVarianceHypothesis::new(x, y, sig005());
    let v = svh.solve_full().unwrap();
    // Unbiased variances are exactly 20.125 and 4.84; the F statistic is
    // their exact ratio truncated at the billionth.
    assert_eq!(v.observed.q, 4_158_057_851);
    // Fisher-Snedecor right-tail critical value at significance 0.05 with
    // degrees of freedom (4, 3) is near 9.117.
    assert!(9_000_000_000 < v.critical.q && v.critical.q < 9_300_000_000);
    assert!(v.accepted);
    assert_eq!(svh.solve(), Ok(true));
}

#[test]
fn svh_orientation_keeps_ratio_at_least_one() {
    let x = wholes(&[1, 2, 3, 4]);
    let y = wholes(&[10, 30, 50, 90]);
    let a = SameVarianceHypothesis::new(x.clone(), y.clone(), sig005());
    let b = SameVarianceHypothesis::new(y, x, sig005());
    let va = a.solve_full().unwrap();
    let vb = b.solve_full().unwrap();
    assert!(va.observed.q >= SCALE);
    assert!(vb.observed.q >= SCALE);
    assert_eq!(va.observed.q, vb.observed.q);
}

#[test]
fn significance_out_of_range_is_rejected() {
    for bad in [0i64, SCALE as i64, -100_000_000, 1_500_000_000] {
        let sig = Fixed { q: bad };
        let r = CompleteNDHProblemSituation::new(wholes(&[1, 2]), wholes(&[1, 2]), sig);
        assert!(matches!(r, Err(NDHError::SignificanceInvalid)));
        let r = IncompleteNDHProblemSituation::new(ranges(&[(0, 1)]), wholes(&[1]), sig);
        assert!(matches!(r, Err(NDHError::SignificanceInvalid)));
        let svh = SameVarianceHypothesis::new(wholes(&[1, 2, 3]), wholes(&[1, 2, 4]), sig);
        assert_eq!(svh.solve(), Err(SVHError::SignificanceInvalid));
    }
}

#[test]
fn mismatched_lengths_are_rejected() {
    let r = CompleteNDHProblemSituation::new(wholes(&[1, 2, 3]), wholes(&[1, 2]), sig005());
    assert!(matches!(r, Err(NDHError::NonEqualSamplesLengths)));
    let r = IncompleteNDHProblemSituation::new(ranges(&[(0, 1)]), wholes(&[1, 2]), sig005());
    assert!(matches!(r, Err(NDHError::NonEqualSamplesLengths)));
}

#[test]
fn solving_twice_gives_identical_results() {
    let e = wholes(&[7, 12, 49, 66, 83, 67, 23, 13]);
    let t = wholes(&[5, 9, 46, 60, 89, 81, 19, 11]);
    let situation = CompleteNDHProblemSituation::new(e, t, sig005()).unwrap();
    let ndh =
        NormalDistributionHypothesis::new(NDHProblemSituation::Complete(situation)).unwrap();
    assert_eq!(ndh.solve_full(), ndh.solve_full());

    let rv = ranges(&[(22, 24), (24, 26), (26, 28), (28, 30), (30, 32), (32, 34)]);
    let e = wholes(&[2, 12, 34, 40, 10, 2]);
    let situation = IncompleteNDHProblemSituation::new(rv, e, sig001()).unwrap();
    let ndh =
        NormalDistributionHypothesis::new(NDHProblemSituation::Incomplete(situation)).unwrap();
    assert_eq!(ndh.solve_full(), ndh.solve_full());

    let svh = SameVarianceHypothesis::new(wholes(&[1, 5, 9]), wholes(&[2, 2, 3]), sig005());
    assert_eq!(svh.solve_full(), svh.solve_full());
}

#[test]
fn non_positive_degrees_of_freedom_are_rejected() {
    // One value: zero denominator degrees of freedom.
    let svh = SameVarianceHypothesis::new(wholes(&[5]), wholes(&[1, 2, 3]), sig005());
    assert_eq!(svh.solve(), Err(SVHError::FreedomDegreesInvalid));
    // Two bins: degrees of freedom would be minus one; three bins: zero.
    for n in [2usize, 3] {
        let vals: Vec<i64> = (1..=n as i64).collect();
        let situation =
            CompleteNDHProblemSituation::new(wholes(&vals), wholes(&vals), sig005()).unwrap();
        let ndh =
            NormalDistributionHypothesis::new(NDHProblemSituation::Complete(situation)).unwrap();
        assert_eq!(ndh.solve(), Err(NDHError::FreedomDegreesInvalid));
    }
}

#[test]
fn zero_theoretical_frequency_is_reported() {
    let e = wholes(&[1, 2, 3, 4]);
    let t = wholes(&[1, 0, 3, 4]);
    let situation = CompleteNDHProblemSituation::new(e, t, sig005()).unwrap();
    let ndh =
        NormalDistributionHypothesis::new(NDHProblemSituation::Complete(situation)).unwrap();
    assert_eq!(ndh.solve(), Err(NDHError::ZeroTheoreticalFrequency));
}

#[test]
fn zero_variance_is_reported() {
    let svh = SameVarianceHypothesis::new(wholes(&[1, 1]), wholes(&[1, 2]), sig005());
    assert_eq!(svh.solve(), Err(SVHError::ZeroVariance));
}

#[test]
fn degenerate_normal_fit_is_reported() {
    // All empirical frequencies zero: the total count is zero.
    let rv = ranges(&[(0, 1), (1, 2), (2, 3), (3, 4)]);
    let e = wholes(&[0, 0, 0, 0]);
    let situation = IncompleteNDHProblemSituation::new(rv, e, sig005()).unwrap();
    let ndh =
        NormalDistributionHypothesis::new(NDHProblemSituation::Incomplete(situation)).unwrap();
    assert_eq!(ndh.solve(), Err(NDHError::NormalFitInvalid));
    // All ranges identical: the estimated variance is zero.
    let rv = ranges(&[(1, 3), (1, 3), (1, 3), (1, 3)]);
    let e = wholes(&[1, 2, 3, 4]);
    let situation = IncompleteNDHProblemSituation::new(rv, e, sig005()).unwrap();
    let ndh =
        NormalDistributionHypothesis::new(NDHProblemSituation::Incomplete(situation)).unwrap();
    assert_eq!(ndh.solve(), Err(NDHError::NormalFitInvalid));
}

#[test]
fn error_messages_are_stable() {
    assert_eq!(
        NDHError::NonEqualSamplesLengths.message(),
        "Lengths of samples are different"
    );
    assert_eq!(
        SVHError::SignificanceInvalid.message(),
        "Significance must be between 0.0 and 1.0"
    );
}

#[test]
fn whole_number_conversion_scales() {
    assert_eq!(whole(25).q, 25 * SCALE);
    assert_eq!(Fixed::from_int(i64::MAX), None);
}

#[test]
fn huge_critical_value_is_reported() {
    // With one degree of freedom on each side and significance of one
    // billionth, the F critical value is near 4e17, far outside the raw
    // fixed-point range.
    let x = wholes(&[1, 3]);
    let y = wholes(&[1, 2]);
    let svh = SameVarianceHypothesis::new(x, y, Fixed { q: 1 });
    assert_eq!(svh.solve(), Err(SVHError::CriticalValueOutOfRange));
}

#[test]
fn numeric_overflow_is_reported() {
    let x = vec![Fixed::new(i64::MAX), Fixed::new(i64::MAX)];
    let y = wholes(&[1, 2]);
    let svh = SameVarianceHypothesis::new(x, y, sig005());
    assert_eq!(svh.solve(), Err(SVHError::NumericOverflow));
}

#[test]
fn situation_accessors_expose_the_samples() {
    let e = wholes(&[7, 12, 49, 66]);
    let t = wholes(&[5, 9, 46, 60]);
    let situation = CompleteNDHProblemSituation::new(e.clone(), t.clone(), sig005()).unwrap();
    assert_eq!(situation.empirical_sample(), e);
    assert_eq!(situation.theoretical_sample(), t);
    assert_eq!(situation.significance(), sig005());
    let tagged = NDHProblemSituation::Complete(situation);
    assert_eq!(tagged.empirical_sample(), &e);
    assert_eq!(tagged.theoretical_sample(), Ok(t));

    let rv = ranges(&[(22, 24), (24, 26), (26, 28), (28, 30), (30, 32), (32, 34)]);
    let e = wholes(&[2, 12, 34, 40, 10, 2]);
    let situation = IncompleteNDHProblemSituation::new(rv, e.clone(), sig001()).unwrap();
    assert_eq!(situation.empirical_sample(), e);
    // The derived sample pairs with the empirical one and is recomputed
    // identically on every access.
    let d1 = situation.theoretical_sample().unwrap();
    let d2 = situation.theoretical_sample().unwrap();
    assert_eq!(d1.len(), e.len());
    assert_eq!(d1, d2);
}
