use vstd::prelude::*;
use crate::error::ErrorCode;

verus! {

/// The denominator of every ratio expressed in basis points.
pub const BASIS_POINTS_DENOMINATOR: u64 = 10_000;

/// One fixed tier: an annual rate and the loan-to-value ratio it demands,
/// both in basis points.
#[derive(Clone, Copy, Debug, PartialEq, Eq, Structural)]
pub struct RateTier {
    pub apy_bps: u16,
    pub ltv_bps: u64,
}

/// The tier table, ordered from the highest rate (and highest loan-to-value)
/// down to the lowest.
pub open spec fn tier_table() -> Seq<RateTier> {
    seq![
        RateTier { apy_bps: 800, ltv_bps: 5000 },
        RateTier { apy_bps: 500, ltv_bps: 3300 },
        RateTier { apy_bps: 100, ltv_bps: 2500 },
        RateTier { apy_bps: 0, ltv_bps: 2000 },
    ]
}

/// The loan-to-value ratio of `apy`'s tier, if `apy` is a tier's rate.
pub open spec fn tier_ltv(apy: u16) -> Option<u64> {
    if exists|i: int| 0 <= i < tier_table().len() && tier_table()[i].apy_bps == apy {
        let i = choose|i: int| 0 <= i < tier_table().len() && tier_table()[i].apy_bps == apy;
        Some(tier_table()[i].ltv_bps)
    } else {
        None
    }
}

/// Every tier's loan-to-value ratio is positive, and rates are not repeated.
pub proof fn lemma_tier_table_well_formed()
    ensures
        forall|i: int| 0 <= i < tier_table().len() ==> tier_table()[i].ltv_bps > 0,
        forall|i: int, j: int|
            0 <= i < j < tier_table().len() ==> tier_table()[i].apy_bps != tier_table()[j].apy_bps,
{
}

/// A tier's rate finds that tier's ratio; the ratio found is always positive.
pub proof fn lemma_tier_ltv_of_index(i: int)
    requires
        0 <= i < tier_table().len(),
    ensures
        tier_ltv(tier_table()[i].apy_bps) == Some(tier_table()[i].ltv_bps),
{
    let apy = tier_table()[i].apy_bps;
    let k = choose|k: int| 0 <= k < tier_table().len() && tier_table()[k].apy_bps == apy;
    lemma_tier_table_well_formed();
    assert(k == i);
}

/// The ratio that a tier's rate finds is positive.
pub proof fn lemma_tier_ltv_positive(apy: u16)
    requires
        tier_ltv(apy) is Some,
    ensures
        tier_ltv(apy)->Some_0 > 0,
{
    lemma_tier_table_well_formed();
}

/// The tier table as a vector.
pub fn rate_tiers() -> (r: Vec<RateTier>)
    ensures
        r@ == tier_table(),
{
    let r = vec![
        RateTier { apy_bps: 800, ltv_bps: 5000 },
        RateTier { apy_bps: 500, ltv_bps: 3300 },
        RateTier { apy_bps: 100, ltv_bps: 2500 },
        RateTier { apy_bps: 0, ltv_bps: 2000 },
    ];
    assert(r@ =~= tier_table());
    r
}

/// Looks up the loan-to-value ratio of the tier whose rate is exactly `apy`.
/// There is no interpolation: any other rate is refused.
pub fn lookup_ltv(apy: u16) -> (r: Result<u64, ErrorCode>)
    ensures
        match tier_ltv(apy) {
            Some(ltv) => r == Ok::<u64, ErrorCode>(ltv),
            None => r == Err::<u64, ErrorCode>(ErrorCode::UnknownRate),
        },
        r is Ok ==> r->Ok_0 > 0,
{
    let tiers = rate_tiers();
    let mut i: usize = 0;
    while i < tiers.len()
        invariant
            tiers@ == tier_table(),
            0 <= i <= tiers.len(),
            forall|j: int| 0 <= j < i ==> tier_table()[j].apy_bps != apy,
        decreases tiers.len() - i,
    {
        if tiers[i].apy_bps == apy {
            proof {
                lemma_tier_ltv_of_index(i as int);
                lemma_tier_table_well_formed();
            }
            return Ok(tiers[i].ltv_bps);
        }
        i = i + 1;
    }
    Err(ErrorCode::UnknownRate)
}

} // verus!
