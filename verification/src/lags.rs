use vstd::prelude::*;
use crate::error::KpssError;
use crate::options::NLags;

verus! {

/// The fourth power of `k`.
pub open spec fn pow4(k: nat) -> nat {
    k * k * k * k
}

/// `k` is the Schwert (1989) lag bound for `n` observations,
/// `ceil(12 * (n / 100)^(1/4))`: the least `k` with `k^4 >= 12^4 * n / 100`,
/// that is `100 * k^4 >= 20736 * n`.
pub open spec fn is_schwert_bound(n: nat, k: nat) -> bool {
    &&& 100 * pow4(k) >= 20736 * n
    &&& forall|j: nat| j < k ==> 100 * pow4(j) < 20736 * n
}

proof fn lemma_pow4_step(k: nat)
    ensures
        pow4(k) < pow4(k + 1),
        pow4(k + 1) == pow4(k) + 4 * k * k * k + 6 * k * k + 4 * k + 1,
{
    assert(pow4(k + 1) == pow4(k) + 4 * k * k * k + 6 * k * k + 4 * k + 1) by (nonlinear_arith);
    assert(4 * k * k * k + 6 * k * k + 4 * k >= 0) by (nonlinear_arith);
}

proof fn lemma_pow4_monotone(j: nat, k: nat)
    requires
        j <= k,
    ensures
        pow4(j) <= pow4(k),
    decreases k - j,
{
    if j < k {
        lemma_pow4_monotone(j, (k - 1) as nat);
        lemma_pow4_step((k - 1) as nat);
    }
}

proof fn lemma_schwert_bound_from(n: nat, k: nat)
    requires
        forall|j: nat| j < k ==> 100 * pow4(j) < 20736 * n,
    ensures
        exists|m: nat| is_schwert_bound(n, m),
    decreases 20736 * n - k,
{
    assert(pow4(k) >= k) by (nonlinear_arith);
    if 100 * pow4(k) >= 20736 * n {
        assert(is_schwert_bound(n, k));
    } else {
        lemma_pow4_step(k);
        assert forall|j: nat| j < k + 1 implies 100 * pow4(j) < 20736 * n by {
            if j < k {
            }
        }
        lemma_schwert_bound_from(n, k + 1);
    }
}

proof fn lemma_schwert_bound_unique(n: nat, k1: nat, k2: nat)
    requires
        is_schwert_bound(n, k1),
        is_schwert_bound(n, k2),
    ensures
        k1 == k2,
{
    if k1 < k2 {
        assert(100 * pow4(k1) < 20736 * n);
    }
    if k2 < k1 {
        assert(100 * pow4(k2) < 20736 * n);
    }
}

/// The Schwert (1989) lag bound for `n` observations,
/// `ceil(12 * (n / 100)^(1/4))`.
pub open spec fn schwert_bound(n: nat) -> nat {
    choose|k: nat| is_schwert_bound(n, k)
}

/// The bound is well defined: exactly one `k` meets `is_schwert_bound`.
pub proof fn lemma_schwert_bound(n: nat)
    ensures
        is_schwert_bound(n, schwert_bound(n)),
        forall|k: nat| is_schwert_bound(n, k) ==> k == schwert_bound(n),
{
    lemma_schwert_bound_from(n, 0);
    assert forall|k: nat| is_schwert_bound(n, k) implies k == schwert_bound(n) by {
        lemma_schwert_bound_unique(n, k, schwert_bound(n));
    }
}

/// The Schwert (1989) lag bound `ceil(12 * (n / 100)^(1/4))`, in exact
/// integer arithmetic.
pub fn schwert_lags(n: usize) -> (k: usize)
    ensures
        k as nat == schwert_bound(n as nat),
        100 * (k * k * k * k) >= 20736 * n,
        k == 0 || 100 * ((k - 1) * (k - 1) * (k - 1) * (k - 1)) < 20736 * n,
{
    let target: u128 = 20736 * (n as u128);
    let mut k: u128 = 0;
    let mut p: u128 = 0;
    assert(pow4(0) == 0);
    assert(pow4(600000) == 129600000000000000000000nat) by (nonlinear_arith);
    while 100 * p < target
        invariant
            target == 20736 * n,
            p == pow4(k as nat),
            forall|j: nat| j < k ==> 100 * pow4(j) < 20736 * n,
            k <= 600000,
            p <= 129600000000000000000000,
        decreases target - k,
    {
        proof {
            assert(pow4(k as nat) >= k) by (nonlinear_arith);
            lemma_pow4_step(k as nat);
            assert(pow4(600000) == 129600000000000000000000nat) by (nonlinear_arith);
            if k >= 600000 {
                lemma_pow4_monotone(600000, k as nat);
            }
            lemma_pow4_monotone((k + 1) as nat, 600000);
            assert forall|j: nat| j < k + 1 implies 100 * pow4(j) < 20736 * n by {
                if j < k {
                }
            }
        }
        k = k + 1;
        assert(k * k <= 360000000000) by (nonlinear_arith)
            requires k <= 600000;
        assert(k * k * k <= 216000000000000000) by (nonlinear_arith)
            requires k <= 600000;
        assert(k * k * k * k <= 129600000000000000000000) by (nonlinear_arith)
            requires k <= 600000;
        p = k * k * k * k;
    }
    proof {
        lemma_schwert_bound(n as nat);
        lemma_schwert_bound_unique(n as nat, k as nat, schwert_bound(n as nat));
        if k >= 1 {
            assert(100 * pow4((k - 1) as nat) < 20736 * n);
        }
    }
    k as usize
}

/// The lag count the HAC estimator uses for `nobs` observations: the
/// data-dependent estimate for `Auto` (computed elsewhere from the residuals)
/// or the Schwert bound for `Legacy`, each clamped to `nobs - 1`; a fixed
/// count is kept when below `nobs` and refused otherwise.
pub open spec fn lag_choice(nlags: NLags, nobs: usize, auto_estimate: usize) -> Result<usize, KpssError> {
    match nlags {
        NLags::Auto => Ok(if auto_estimate < nobs { auto_estimate } else { (nobs - 1) as usize }),
        NLags::Legacy => Ok(
            if schwert_bound(nobs as nat) < nobs { schwert_bound(nobs as nat) as usize } else { (nobs - 1) as usize },
        ),
        NLags::Fixed(l) => if l < nobs {
            Ok(l)
        } else {
            Err(KpssError::LagsTooLarge { nlags: l, nobs })
        },
    }
}

/// Determines the lag count for `nobs` observations under `nlags`, given the
/// data-dependent estimate that `Auto` uses.
pub fn select_lags(nlags: &NLags, nobs: usize, auto_estimate: usize) -> (r: Result<usize, KpssError>)
    requires
        nobs >= 1,
    ensures
        r == lag_choice(*nlags, nobs, auto_estimate),
        r matches Ok(l) ==> l < nobs,
        r is Err <==> (*nlags matches NLags::Fixed(l) && l >= nobs),
        *nlags == NLags::Auto ==> r == Ok::<usize, KpssError>(
            if auto_estimate < nobs { auto_estimate } else { (nobs - 1) as usize },
        ),
        *nlags == NLags::Legacy ==> (r matches Ok(l) && l < nobs && (l == 0 || 100 * ((l - 1) * (l - 1)
            * (l - 1) * (l - 1)) < 20736 * nobs) && (l == nobs - 1 || 100 * (l * l * l * l) >= 20736
            * nobs)),
        forall|l: usize|
            *nlags == NLags::Fixed(l) ==> r == (if l < nobs {
                Ok::<usize, KpssError>(l)
            } else {
                Err(KpssError::LagsTooLarge { nlags: l, nobs })
            }),
{
    proof {
        lemma_legacy_lags(nobs);
    }
    match nlags {
        NLags::Auto => Ok(if auto_estimate < nobs { auto_estimate } else { nobs - 1 }),
        NLags::Legacy => {
            let s = schwert_lags(nobs);
            Ok(if s < nobs { s } else { nobs - 1 })
        },
        NLags::Fixed(l) => {
            if *l >= nobs {
                Err(KpssError::LagsTooLarge { nlags: *l, nobs })
            } else {
                Ok(*l)
            }
        },
    }
}

// ---------------------------------------------------------------------------
// Laws of lag selection
// ---------------------------------------------------------------------------

/// The automatic lag count is the estimate clamped to `nobs - 1`: never above
/// the estimate, always below `nobs`, and the estimate itself (zero included)
/// whenever it is below `nobs`.
pub proof fn lemma_auto_lags(nobs: usize, estimate: usize)
    requires
        nobs >= 1,
    ensures
        lag_choice(NLags::Auto, nobs, estimate) matches Ok(l) && l <= estimate && l < nobs && (
        estimate < nobs ==> l == estimate) && (estimate >= nobs ==> l == nobs - 1),
{
}

/// The legacy lag count is `ceil(12 * (nobs / 100)^(1/4))` clamped to
/// `nobs - 1`, written out: the count before it falls short of
/// `100 l^4 >= 20736 nobs`, and the count itself meets it unless it is
/// `nobs - 1`. It does not depend on the automatic estimate.
pub proof fn lemma_legacy_lags(nobs: usize)
    requires
        nobs >= 1,
    ensures
        forall|estimate: usize|
            #![trigger lag_choice(NLags::Legacy, nobs, estimate)]
            lag_choice(NLags::Legacy, nobs, estimate) matches Ok(l) && l < nobs && (l == 0 || 100 * ((l
                - 1) * (l - 1) * (l - 1) * (l - 1)) < 20736 * nobs) && (l == nobs - 1 || 100 * (l * l
                * l * l) >= 20736 * nobs),
{
    lemma_schwert_bound(nobs as nat);
    let k = schwert_bound(nobs as nat);
    if k >= 1 {
        assert(100 * pow4((k - 1) as nat) < 20736 * nobs);
    }
    if k >= nobs && nobs >= 2 {
        let j = (nobs - 2) as nat;
        assert(100 * pow4(j) < 20736 * nobs);
    }
}

/// A fixed lag count below `nobs` is used exactly as given, whatever the
/// automatic estimate; one at or above `nobs` is refused, naming both numbers.
pub proof fn lemma_fixed_lags(l: usize, nobs: usize, estimate: usize)
    ensures
        l < nobs ==> lag_choice(NLags::Fixed(l), nobs, estimate) == Ok::<usize, KpssError>(l),
        l >= nobs ==> lag_choice(NLags::Fixed(l), nobs, estimate) == Err::<usize, KpssError>(
            KpssError::LagsTooLarge { nlags: l, nobs },
        ),
{
}

/// The Schwert bound grows with the number of observations.
pub proof fn lemma_schwert_bound_monotone(n1: nat, n2: nat)
    requires
        n1 <= n2,
    ensures
        schwert_bound(n1) <= schwert_bound(n2),
{
    lemma_schwert_bound(n1);
    lemma_schwert_bound(n2);
    let k1 = schwert_bound(n1);
    let k2 = schwert_bound(n2);
    if k2 < k1 {
        assert(100 * pow4(k2) < 20736 * n1);
        assert(100 * pow4(k2) >= 20736 * n2);
    }
}

} // verus!
