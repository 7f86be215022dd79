use rsomics_kpss_test::error::{check_series, KpssError};
use rsomics_kpss_test::lags::{schwert_lags, select_lags};
use rsomics_kpss_test::options::NLags;

#[test]
fn schwert_lags_matches_formula() {
    // ceil(12 * (n / 100)^0.25)
    assert_eq!(schwert_lags(200), 15);
    assert_eq!(schwert_lags(100), 12);
    assert_eq!(schwert_lags(1), 4);
    assert_eq!(schwert_lags(0), 0);
    assert_eq!(schwert_lags(1600), 24);
    assert_eq!(schwert_lags(1601), 25);
    for n in [3usize, 7, 50, 99, 101, 250, 1000, 2000, 12345, 1_000_000] {
        let want = (12.0 * (n as f64 / 100.0).powf(0.25)).ceil() as usize;
        assert_eq!(schwert_lags(n), want, "n = {n}");
    }
}

#[test]
fn schwert_lags_handles_the_largest_count() {
    let k = schwert_lags(usize::MAX);
    let k = k as u128;
    let n = usize::MAX as u128;
    assert!(100 * k * k * k * k >= 20736 * n);
    assert!(100 * (k - 1) * (k - 1) * (k - 1) * (k - 1) < 20736 * n);
}

#[test]
fn legacy_lags_for_two_hundred_observations() {
    assert_eq!(select_lags(&NLags::Legacy, 200, 0), Ok(15));
}

#[test]
fn legacy_lags_are_clamped() {
    assert_eq!(select_lags(&NLags::Legacy, 3, 0), Ok(2));
    assert_eq!(select_lags(&NLags::Legacy, 10, 0), Ok(7));
}

#[test]
fn auto_lags_are_clamped() {
    assert_eq!(select_lags(&NLags::Auto, 200, 9), Ok(9));
    assert_eq!(select_lags(&NLags::Auto, 200, 1000), Ok(199));
    assert_eq!(select_lags(&NLags::Auto, 200, 199), Ok(199));
}

#[test]
fn fixed_lags_below_nobs_are_kept() {
    assert_eq!(select_lags(&NLags::Fixed(5), 200, 77), Ok(5));
    assert_eq!(select_lags(&NLags::Fixed(199), 200, 0), Ok(199));
    assert_eq!(select_lags(&NLags::Fixed(0), 3, 0), Ok(0));
}

#[test]
fn fixed_lags_at_or_above_nobs_are_refused() {
    assert_eq!(
        select_lags(&NLags::Fixed(200), 200, 0),
        Err(KpssError::LagsTooLarge { nlags: 200, nobs: 200 })
    );
    assert_eq!(
        select_lags(&NLags::Fixed(usize::MAX), 3, 0),
        Err(KpssError::LagsTooLarge { nlags: usize::MAX, nobs: 3 })
    );
}

#[test]
fn lags_stay_below_nobs() {
    for nobs in 1usize..60 {
        for nl in [NLags::Auto, NLags::Legacy, NLags::Fixed(nobs / 2)] {
            let l = select_lags(&nl, nobs, usize::MAX).unwrap();
            assert!(l < nobs);
        }
    }
}

#[test]
fn short_series_are_refused_first() {
    assert_eq!(check_series(0, None), Err(KpssError::TooFewObservations { nobs: 0 }));
    assert_eq!(check_series(2, Some(1)), Err(KpssError::TooFewObservations { nobs: 2 }));
}

#[test]
fn non_finite_values_are_refused() {
    assert_eq!(check_series(3, Some(0)), Err(KpssError::NonFiniteValue { index: 0 }));
    assert_eq!(check_series(200, Some(150)), Err(KpssError::NonFiniteValue { index: 150 }));
}

#[test]
fn valid_series_pass() {
    assert_eq!(check_series(3, None), Ok(()));
    assert_eq!(check_series(200, None), Ok(()));
}
