use vstd::prelude::*;
use crate::options::Regression;

verus! {

/// The values of `s` increase strictly from first to last.
pub open spec fn strictly_increasing(s: Seq<u32>) -> bool {
    forall|i: int, j: int| 0 <= i < j < s.len() ==> s[i] < s[j]
}

/// The values of `s` decrease strictly from first to last.
pub open spec fn strictly_decreasing(s: Seq<u32>) -> bool {
    forall|i: int, j: int| 0 <= i < j < s.len() ==> s[i] > s[j]
}

/// Critical values of the KPSS statistic, in thousandths, at the
/// significance levels 10%, 5%, 2.5% and 1% (Kwiatkowski et al. 1992,
/// Table 1, row "infinite sample").
pub open spec fn critical_table(regression: Regression) -> Seq<u32> {
    match regression {
        Regression::C => seq![347, 463, 574, 739],
        Regression::Ct => seq![119, 146, 176, 216],
    }
}

/// The significance levels of the table, in ten-thousandths:
/// 10%, 5%, 2.5% and 1%.
pub open spec fn significance_table() -> Seq<u32> {
    seq![1000, 500, 250, 100]
}

/// The critical values for a regression type, in thousandths.
pub fn critical_values(regression: Regression) -> (r: [u32; 4])
    ensures
        r@ == critical_table(regression),
        strictly_increasing(r@),
        regression == Regression::C ==> r[0] == 347 && r[1] == 463 && r[2] == 574 && r[3] == 739,
        regression == Regression::Ct ==> r[0] == 119 && r[1] == 146 && r[2] == 176 && r[3] == 216,
{
    let r: [u32; 4] = match regression {
        Regression::C => [347, 463, 574, 739],
        Regression::Ct => [119, 146, 176, 216],
    };
    assert(r@ =~= critical_table(regression));
    r
}

/// The significance levels that the critical values stand for, in
/// ten-thousandths.
pub fn significance_levels() -> (r: [u32; 4])
    ensures
        r@ == significance_table(),
        strictly_decreasing(r@),
        r[0] == 1000 && r[1] == 500 && r[2] == 250 && r[3] == 100,
{
    let r: [u32; 4] = [1000, 500, 250, 100];
    assert(r@ =~= significance_table());
    r
}

} // verus!
