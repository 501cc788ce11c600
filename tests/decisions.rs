use bootstats::{
    check_request, classify_correlation, f_test_layout, is_significant, test_outcome,
    BoundsShown, Correlation, FTestLayout, LargerSpread, RequestError, TailMode, TestOutcome,
    Verdict,
};

fn b(x: f64) -> u64 {
    x.to_bits()
}

#[test]
fn request_iteration_count_in_thousands() {
    assert_eq!(check_request(10, b(95.0), false, 5, 5), Ok(10_000));
    assert_eq!(check_request(1, b(95.0), false, 5, 5), Ok(1000));
    assert_eq!(check_request(9999, b(95.0), false, 5, 5), Ok(9_999_000));
    assert_eq!(check_request(0, b(95.0), false, 5, 5), Err(RequestError::IterationCount));
    assert_eq!(check_request(10_000, b(95.0), false, 5, 5), Err(RequestError::IterationCount));
    assert_eq!(check_request(-3, b(95.0), false, 5, 5), Err(RequestError::IterationCount));
    assert_eq!(check_request(i32::MAX, b(95.0), false, 5, 5), Err(RequestError::IterationCount));
}

#[test]
fn request_confidence_level_range() {
    assert_eq!(check_request(10, b(0.0), false, 5, 5), Ok(10_000));
    assert_eq!(check_request(10, b(100.0), false, 5, 5), Ok(10_000));
    assert_eq!(check_request(10, b(97.5), false, 5, 5), Ok(10_000));
    assert_eq!(check_request(10, b(100.5), false, 5, 5), Err(RequestError::ConfidenceLevel));
    assert_eq!(check_request(10, b(-1.0), false, 5, 5), Err(RequestError::ConfidenceLevel));
    assert_eq!(check_request(10, b(f64::NAN), false, 5, 5), Err(RequestError::ConfidenceLevel));
}

#[test]
fn request_with_an_empty_sample() {
    assert_eq!(check_request(1, b(95.0), false, 0, 5), Err(RequestError::EmptySample));
    assert_eq!(check_request(1, b(95.0), false, 5, 0), Err(RequestError::EmptySample));
    assert_eq!(check_request(1, b(95.0), true, 0, 0), Err(RequestError::EmptySample));
    assert_eq!(check_request(0, b(f64::NAN), true, 0, 3), Err(RequestError::EmptySample));
    assert_eq!(check_request(1, b(95.0), false, 1, 1), Ok(1000));
}

#[test]
fn request_paired_lengths() {
    assert_eq!(check_request(10, b(95.0), true, 5, 4), Err(RequestError::LengthMismatch));
    assert_eq!(check_request(10, b(95.0), false, 5, 4), Ok(10_000));
    assert_eq!(check_request(10, b(95.0), true, 4, 4), Ok(10_000));
    assert_eq!(check_request(0, b(95.0), true, 5, 4), Err(RequestError::IterationCount));
    assert_eq!(check_request(10, b(101.0), true, 5, 4), Err(RequestError::ConfidenceLevel));
}

#[test]
fn two_tailed_outcomes() {
    let t = TailMode::TwoTailed;
    let null = test_outcome(t, b(-0.5), b(1.5), b(3.0), b(3.5));
    assert_eq!(null, TestOutcome { verdict: Verdict::NullAccepted, shown: BoundsShown::Both });
    assert_eq!(test_outcome(t, b(0.5), b(1.5), b(3.0), b(4.0)).verdict, Verdict::ALess);
    assert_eq!(test_outcome(t, b(-1.5), b(-0.5), b(4.0), b(3.0)).verdict, Verdict::AGreater);
    assert_eq!(test_outcome(t, b(0.0), b(2.0), b(3.0), b(4.0)).verdict, Verdict::NullAccepted);
}

#[test]
fn one_tailed_outcomes() {
    let t = TailMode::OneTailed;
    let greater = test_outcome(t, b(-1.5), b(-0.5), b(4.0), b(3.0));
    assert_eq!(greater, TestOutcome { verdict: Verdict::AGreater, shown: BoundsShown::UpperOnly });
    let null_greater = test_outcome(t, b(-1.5), b(0.5), b(4.0), b(3.0));
    assert_eq!(null_greater.verdict, Verdict::NullAccepted);
    let less = test_outcome(t, b(0.5), b(1.5), b(3.0), b(4.0));
    assert_eq!(less, TestOutcome { verdict: Verdict::ALess, shown: BoundsShown::LowerOnly });
    let null_less = test_outcome(t, b(-0.5), b(1.5), b(3.0), b(4.0));
    assert_eq!(null_less.verdict, Verdict::NullAccepted);
}

#[test]
fn identical_paired_samples_accept_the_null() {
    for t in [TailMode::OneTailed, TailMode::TwoTailed] {
        assert_eq!(test_outcome(t, b(0.0), b(0.0), b(2.0), b(2.0)).verdict, Verdict::NullAccepted);
    }
}

#[test]
fn nan_bounds_never_accept_the_null() {
    let r = test_outcome(TailMode::TwoTailed, b(f64::NAN), b(f64::NAN), b(1.0), b(2.0));
    assert_eq!(r.verdict, Verdict::ALess);
}

#[test]
fn equal_spreads_give_a_unit_ratio() {
    let sd = 1.5811388300841898;
    let layout = f_test_layout(b(sd), b(sd), 5, 5);
    assert_eq!(
        layout,
        FTestLayout { larger: LargerSpread::Neither, df_numerator: 4, df_denominator: 4 }
    );
}

#[test]
fn larger_spread_goes_over_the_smaller() {
    let a = f_test_layout(b(2.0), b(1.0), 6, 9);
    assert_eq!(a, FTestLayout { larger: LargerSpread::A, df_numerator: 5, df_denominator: 8 });
    let bb = f_test_layout(b(1.0), b(2.0), 6, 9);
    assert_eq!(bb, FTestLayout { larger: LargerSpread::B, df_numerator: 8, df_denominator: 5 });
}

#[test]
fn significance_against_the_level() {
    assert!(is_significant(b(0.01), b(0.05)));
    assert!(is_significant(b(0.05), b(0.05)));
    assert!(!is_significant(b(0.2), b(0.05)));
    assert!(!is_significant(b(f64::NAN), b(0.05)));
}

#[test]
fn identical_ranks_correlate_perfectly() {
    assert_eq!(classify_correlation(b(1.0)), Correlation::PerfectPositive);
    assert_eq!(classify_correlation(b(-1.0)), Correlation::PerfectNegative);
}

#[test]
fn correlation_scale() {
    assert_eq!(classify_correlation(b(0.0)), Correlation::Zero);
    assert_eq!(classify_correlation(b(-0.0)), Correlation::Zero);
    assert_eq!(classify_correlation(b(0.29)), Correlation::WeakPositive);
    assert_eq!(classify_correlation(b(0.3)), Correlation::ModeratePositive);
    assert_eq!(classify_correlation(b(0.69)), Correlation::ModeratePositive);
    assert_eq!(classify_correlation(b(0.7)), Correlation::StrongPositive);
    assert_eq!(classify_correlation(b(1.0 - f64::EPSILON)), Correlation::StrongPositive);
    assert_eq!(classify_correlation(b(1.0 - f64::EPSILON / 2.0)), Correlation::StrongPositive);
    assert_eq!(classify_correlation(b(-1.0 + f64::EPSILON / 2.0)), Correlation::StrongNegative);
    assert_eq!(classify_correlation(b(-0.1)), Correlation::WeakNegative);
    assert_eq!(classify_correlation(b(-0.3)), Correlation::ModerateNegative);
    assert_eq!(classify_correlation(b(-0.7)), Correlation::StrongNegative);
    assert_eq!(classify_correlation(b(-0.99)), Correlation::StrongNegative);
    assert_eq!(classify_correlation(b(f64::NAN)), Correlation::Undefined);
    assert_eq!(classify_correlation(b(1.5)), Correlation::Undefined);
    assert_eq!(classify_correlation(b(-1.0 - f64::EPSILON * 2.0)), Correlation::Undefined);
}
