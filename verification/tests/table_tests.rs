use rsomics_kpss_test::options::Regression;
use rsomics_kpss_test::table::{critical_values, significance_levels};
use rsomics_kpss_test::trend::trend_moments;

#[test]
fn level_critical_values() {
    assert_eq!(critical_values(Regression::C), [347, 463, 574, 739]);
    let as_f64 = critical_values(Regression::C).map(|c| c as f64 / 1000.0);
    assert_eq!(as_f64, [0.347, 0.463, 0.574, 0.739]);
}

#[test]
fn trend_critical_values() {
    assert_eq!(critical_values(Regression::Ct), [119, 146, 176, 216]);
    let as_f64 = critical_values(Regression::Ct).map(|c| c as f64 / 1000.0);
    assert_eq!(as_f64, [0.119, 0.146, 0.176, 0.216]);
}

#[test]
fn significance_levels_table() {
    assert_eq!(significance_levels(), [1000, 500, 250, 100]);
    let as_f64 = significance_levels().map(|p| p as f64 / 10000.0);
    assert_eq!(as_f64, [0.10, 0.05, 0.025, 0.01]);
}

#[test]
fn tables_are_monotone() {
    for r in [Regression::C, Regression::Ct] {
        let c = critical_values(r);
        assert!(c.windows(2).all(|w| w[0] < w[1]));
    }
    let p = significance_levels();
    assert!(p.windows(2).all(|w| w[0] > w[1]));
}

#[test]
fn trend_moments_small() {
    assert_eq!(trend_moments(0), (0, 0));
    assert_eq!(trend_moments(1), (1, 1));
    assert_eq!(trend_moments(3), (6, 14));
    assert_eq!(trend_moments(200), (20100, 2686700));
}

#[test]
fn trend_moments_match_float_formula_and_loop() {
    for n in [2usize, 5, 17, 1000, 123_456] {
        let (s1, s2) = trend_moments(n);
        let (mut a, mut b) = (0u128, 0u128);
        for t in 1..=n as u128 {
            a += t;
            b += t * t;
        }
        assert_eq!((s1, s2), (a, b));
        let nf = n as f64;
        assert_eq!(s1 as f64, nf * (nf + 1.0) / 2.0);
        assert_eq!(s2 as f64, nf * (nf + 1.0) * (2.0 * nf + 1.0) / 6.0);
    }
}

#[test]
fn trend_design_determinant_is_positive() {
    for n in 2usize..100 {
        let (s1, s2) = trend_moments(n);
        let det = n as u128 * s2 - s1 * s1;
        let n = n as u128;
        assert_eq!(12 * det, n * n * (n + 1) * (n - 1));
        assert!(det > 0);
    }
}

#[test]
fn trend_moments_large() {
    let n: usize = 1_000_000_000_000;
    let (s1, s2) = trend_moments(n);
    let m = n as u128;
    assert_eq!(s1, m * (m + 1) / 2);
    assert_eq!(s2, m * (m + 1) * (2 * m + 1) / 6);
}
