use vstd::prelude::*;

verus! {

/// Why a KPSS test cannot be carried out on its input.
#[derive(Clone, Copy, Debug, PartialEq, Eq, Structural)]
pub enum KpssError {
    /// The series has fewer than three observations.
    TooFewObservations { nobs: usize },
    /// The series holds a NaN or an infinity; `index` is the first such position.
    NonFiniteValue { index: usize },
    /// A fixed lag count is not below the number of observations.
    LagsTooLarge { nlags: usize, nobs: usize },
    /// The residual variance is zero (constant or perfectly detrended series),
    /// so the statistic is undefined.
    ZeroVariance,
}

/// What checking a series of `nobs` observations gives, where
/// `first_non_finite` is the first position holding a non-finite value, if any:
/// too few observations come first, then a non-finite value.
pub open spec fn series_check(nobs: usize, first_non_finite: Option<usize>) -> Result<(), KpssError> {
    if nobs < 3 {
        Err(KpssError::TooFewObservations { nobs })
    } else {
        match first_non_finite {
            Some(index) => Err(KpssError::NonFiniteValue { index }),
            None => Ok(()),
        }
    }
}

/// Checks that a series can be tested: at least three observations, all finite.
pub fn check_series(nobs: usize, first_non_finite: Option<usize>) -> (r: Result<(), KpssError>)
    ensures
        r == series_check(nobs, first_non_finite),
        r is Ok <==> (nobs >= 3 && first_non_finite is None),
        nobs < 3 ==> r == Err::<(), KpssError>(KpssError::TooFewObservations { nobs }),
        forall|index: usize|
            nobs >= 3 && first_non_finite == Some(index) ==> r == Err::<(), KpssError>(
                KpssError::NonFiniteValue { index },
            ),
{
    if nobs < 3 {
        return Err(KpssError::TooFewObservations { nobs });
    }
    match first_non_finite {
        Some(index) => Err(KpssError::NonFiniteValue { index }),
        None => Ok(()),
    }
}

} // verus!
