use vstd::prelude::*;

verus! {

/// `1 + 2 + ... + n`.
pub open spec fn sum_t(n: nat) -> nat
    decreases n,
{
    if n == 0 {
        0
    } else {
        sum_t((n - 1) as nat) + n
    }
}

/// `1^2 + 2^2 + ... + n^2`.
pub open spec fn sum_t2(n: nat) -> nat
    decreases n,
{
    if n == 0 {
        0
    } else {
        sum_t2((n - 1) as nat) + n * n
    }
}

/// Closed forms of the two sums.
pub proof fn lemma_trend_sums_closed_form(n: nat)
    ensures
        2 * sum_t(n) == n * (n + 1),
        6 * sum_t2(n) == n * (n + 1) * (2 * n + 1),
    decreases n,
{
    if n == 0 {
        assert(n * (n + 1) == 0);
        assert(n * (n + 1) * (2 * n + 1) == 0);
    } else {
        let m = (n - 1) as nat;
        lemma_trend_sums_closed_form(m);
        assert(sum_t(n) == sum_t(m) + n);
        assert(sum_t2(n) == sum_t2(m) + n * n);
        assert(m * (m + 1) + 2 * n == n * (n + 1)) by (nonlinear_arith)
            requires m + 1 == n;
        assert(m * (m + 1) * (2 * m + 1) + 6 * (n * n) == n * (n + 1) * (2 * n + 1)) by (nonlinear_arith)
            requires m + 1 == n;
    }
}

/// The determinant of the normal equations of the regression on
/// `[1, t]`, `t = 1..n`: `n * sum t^2 - (sum t)^2 = n^2 (n^2 - 1) / 12`, which is
/// positive as soon as there are two observations, so the trend regression
/// always has a unique solution.
pub proof fn lemma_trend_design_nonsingular(n: nat)
    ensures
        12 * (n * sum_t2(n) - sum_t(n) * sum_t(n)) == n * n * (n + 1) * (n - 1),
        n >= 2 ==> n * sum_t2(n) - sum_t(n) * sum_t(n) > 0,
{
    lemma_trend_sums_closed_form(n);
    let s1 = sum_t(n);
    let s2 = sum_t2(n);
    assert(12 * (n * s2 - s1 * s1) == n * n * (n + 1) * (n - 1)) by (nonlinear_arith)
        requires
            2 * s1 == n * (n + 1),
            6 * s2 == n * (n + 1) * (2 * n + 1),
    ;
    if n >= 2 {
        assert(n * n * (n + 1) * (n - 1) > 0) by (nonlinear_arith)
            requires n >= 2;
    }
}

/// The sums `sum t` and `sum t^2` over `t = 1..n` that the normal equations of
/// the regression on `[1, t]` hold, computed exactly.
pub fn trend_moments(n: usize) -> (r: (u128, u128))
    requires
        (n as int) * (n + 1) * (2 * n + 1) <= u128::MAX,
    ensures
        r.0 == sum_t(n as nat),
        r.1 == sum_t2(n as nat),
        2 * r.0 == n * (n + 1),
        6 * r.1 == n * (n + 1) * (2 * n + 1),
{
    proof {
        lemma_trend_sums_closed_form(n as nat);
    }
    let m: u128 = n as u128;
    assert(m * (m + 1) <= m * (m + 1) * (2 * m + 1)) by (nonlinear_arith);
    let a: u128 = m * (m + 1);
    let b: u128 = a * (2 * m + 1);
    (a / 2, b / 6)
}

} // verus!
