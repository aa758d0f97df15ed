use vstd::prelude::*;
use crate::error::ErrorCode;
use crate::rates::{tier_ltv, BASIS_POINTS_DENOMINATOR};

verus! {

/// `10` raised to `n`.
pub open spec fn pow10(n: nat) -> nat
    decreases n,
{
    if n == 0 {
        1
    } else {
        10 * pow10((n - 1) as nat)
    }
}

/// `a / b` rounded up, for `a >= 0` and `b > 0`.
pub open spec fn ceil_div(a: int, b: int) -> int {
    if a % b == 0 {
        a / b
    } else {
        a / b + 1
    }
}

/// The numerator of the requirement: principal, scaled to collateral base
/// units and to basis points.
pub open spec fn collateral_numerator(principal: u64, asset_decimals: u8) -> int {
    principal * pow10(asset_decimals as nat) * BASIS_POINTS_DENOMINATOR
}

/// The denominator of the requirement: the loan-to-value ratio times the
/// price of one whole collateral unit.
pub open spec fn collateral_denominator(ltv_bps: u64, asset_price: u64) -> int {
    ltv_bps * asset_price
}

/// The least collateral, in base units, whose value at `asset_price` covers
/// `principal` at loan-to-value `ltv_bps`: the quotient is rounded up, so that
/// the requirement is always sufficient.
pub open spec fn required_collateral_value(
    principal: u64,
    ltv_bps: u64,
    asset_price: u64,
    asset_decimals: u8,
) -> int {
    ceil_div(
        collateral_numerator(principal, asset_decimals),
        collateral_denominator(ltv_bps, asset_price),
    )
}

/// Whether every intermediate value fits in `u128` and the result in `u64`.
pub open spec fn required_collateral_fits(
    principal: u64,
    ltv_bps: u64,
    asset_price: u64,
    asset_decimals: u8,
) -> bool {
    &&& pow10(asset_decimals as nat) <= u128::MAX
    &&& collateral_numerator(principal, asset_decimals) <= u128::MAX
    &&& required_collateral_value(principal, ltv_bps, asset_price, asset_decimals) <= u64::MAX
}

/// What computing the requirement yields: `InvalidPrice` for a zero price,
/// `Overflow` where a value does not fit, and otherwise the requirement.
pub open spec fn required_collateral_result(
    principal: u64,
    ltv_bps: u64,
    asset_price: u64,
    asset_decimals: u8,
) -> Result<u64, ErrorCode> {
    if asset_price == 0 {
        Err(ErrorCode::InvalidPrice)
    } else if !required_collateral_fits(principal, ltv_bps, asset_price, asset_decimals) {
        Err(ErrorCode::Overflow)
    } else {
        Ok(required_collateral_value(principal, ltv_bps, asset_price, asset_decimals) as u64)
    }
}

proof fn lemma_pow10_positive(n: nat)
    ensures
        pow10(n) >= 1,
    decreases n,
{
    if n > 0 {
        lemma_pow10_positive((n - 1) as nat);
    }
}

proof fn lemma_pow10_monotonic(a: nat, b: nat)
    requires
        a <= b,
    ensures
        pow10(a) <= pow10(b),
    decreases b - a,
{
    if a < b {
        lemma_pow10_monotonic(a, (b - 1) as nat);
        lemma_pow10_positive((b - 1) as nat);
    }
}

/// The rounded-up quotient is the least `c` with `c * b >= a`.
pub proof fn lemma_ceil_div_bounds(a: int, b: int)
    requires
        a >= 0,
        b > 0,
    ensures
        ceil_div(a, b) >= 0,
        ceil_div(a, b) * b >= a,
        (ceil_div(a, b) - 1) * b < a || ceil_div(a, b) == 0,
{
    let q = a / b;
    let r = a % b;
    assert(a == b * q + r && 0 <= r < b) by {
        vstd::arithmetic::div_mod::lemma_fundamental_div_mod(a, b);
        vstd::arithmetic::div_mod::lemma_mod_bound(a, b);
    }
    assert(q >= 0) by {
        vstd::arithmetic::div_mod::lemma_div_pos_is_pos(a, b);
    }
    if r == 0 {
        assert(q * b == a) by (nonlinear_arith)
            requires
                a == b * q + r,
                r == 0,
        ;
        assert(q == 0 || (q - 1) * b < a) by (nonlinear_arith)
            requires
                q * b == a,
                b > 0,
        ;
    } else {
        assert((q + 1) * b >= a && q * b < a) by (nonlinear_arith)
            requires
                a == b * q + r,
                0 < r < b,
        ;
    }
}

/// The rounded-up quotient grows with the numerator.
pub proof fn lemma_ceil_div_monotonic_numerator(a1: int, a2: int, b: int)
    requires
        0 <= a1 <= a2,
        b > 0,
    ensures
        ceil_div(a1, b) <= ceil_div(a2, b),
{
    lemma_ceil_div_bounds(a1, b);
    lemma_ceil_div_bounds(a2, b);
    let c1 = ceil_div(a1, b);
    let c2 = ceil_div(a2, b);
    if c1 > c2 {
        assert(c2 * b <= (c1 - 1) * b) by (nonlinear_arith)
            requires
                c2 <= c1 - 1,
                b > 0,
        ;
    }
}

/// The rounded-up quotient shrinks as the denominator grows.
pub proof fn lemma_ceil_div_antitonic_denominator(a: int, b1: int, b2: int)
    requires
        a >= 0,
        0 < b1 <= b2,
    ensures
        ceil_div(a, b1) >= ceil_div(a, b2),
{
    lemma_ceil_div_bounds(a, b1);
    lemma_ceil_div_bounds(a, b2);
    let c1 = ceil_div(a, b1);
    let c2 = ceil_div(a, b2);
    if c1 < c2 {
        assert(c1 * b2 <= (c2 - 1) * b2) by (nonlinear_arith)
            requires
                c1 <= c2 - 1,
                b2 > 0,
        ;
        assert(c1 * b1 <= c1 * b2) by (nonlinear_arith)
            requires
                c1 >= 0,
                b1 <= b2,
        ;
    }
}

/// Computes the least collateral, in base units of an asset with
/// `asset_decimals` decimals, that secures `principal` stable units at
/// loan-to-value `ltv_bps` when one whole collateral unit is worth
/// `asset_price` stable units. The quotient is rounded up.
pub fn required_collateral(principal: u64, ltv_bps: u64, asset_price: u64, asset_decimals: u8) -> (r:
    Result<u64, ErrorCode>)
    requires
        ltv_bps > 0,
    ensures
        r == required_collateral_result(principal, ltv_bps, asset_price, asset_decimals),
{
    if asset_price == 0 {
        return Err(ErrorCode::InvalidPrice);
    }
    let ghost num = collateral_numerator(principal, asset_decimals);
    let mut scale: u128 = 1;
    let mut i: u8 = 0;
    while i < asset_decimals
        invariant
            0 <= i <= asset_decimals,
            scale == pow10(i as nat),
            asset_price > 0,
        decreases asset_decimals - i,
    {
        if scale > u128::MAX / 10 {
            proof {
                lemma_pow10_monotonic((i + 1) as nat, asset_decimals as nat);
            }
            return Err(ErrorCode::Overflow);
        }
        scale = scale * 10;
        i = i + 1;
    }
    proof {
        lemma_pow10_positive(asset_decimals as nat);
    }
    let scaled = match (principal as u128).checked_mul(scale) {
        Some(v) => v,
        None => {
            assert(num > u128::MAX) by (nonlinear_arith)
                requires
                    principal * scale > u128::MAX,
                    num == principal * scale * 10000,
            ;
            return Err(ErrorCode::Overflow);
        },
    };
    let numerator = match scaled.checked_mul(BASIS_POINTS_DENOMINATOR as u128) {
        Some(v) => v,
        None => {
            return Err(ErrorCode::Overflow);
        },
    };
    assert(ltv_bps * asset_price <= u64::MAX * u64::MAX) by (nonlinear_arith);
    assert(ltv_bps * asset_price > 0) by (nonlinear_arith)
        requires
            ltv_bps > 0,
            asset_price > 0,
    ;
    let denominator: u128 = (ltv_bps as u128) * (asset_price as u128);
    let quotient = numerator / denominator;
    let required: u128 = if numerator % denominator == 0 {
        quotient
    } else {
        quotient + 1
    };
    if required > u64::MAX as u128 {
        return Err(ErrorCode::Overflow);
    }
    Ok(required as u64)
}

/// For a tier's rate, the collateral requirement never decreases as the
/// principal grows; and where the larger principal's requirement can be
/// computed, so can the smaller one's.
pub proof fn lemma_required_collateral_nondecreasing_in_principal(
    apy: u16,
    principal1: u64,
    principal2: u64,
    asset_price: u64,
    asset_decimals: u8,
)
    requires
        tier_ltv(apy) is Some,
        asset_price > 0,
        principal1 <= principal2,
    ensures
        ({
            let ltv = tier_ltv(apy)->Some_0;
            &&& required_collateral_value(principal1, ltv, asset_price, asset_decimals)
                <= required_collateral_value(principal2, ltv, asset_price, asset_decimals)
            &&& required_collateral_fits(principal2, ltv, asset_price, asset_decimals)
                ==> required_collateral_fits(principal1, ltv, asset_price, asset_decimals)
        }),
{
    let ltv = tier_ltv(apy)->Some_0;
    crate::rates::lemma_tier_ltv_positive(apy);
    let s = pow10(asset_decimals as nat);
    let n1 = collateral_numerator(principal1, asset_decimals);
    let n2 = collateral_numerator(principal2, asset_decimals);
    assert(0 <= n1 <= n2) by (nonlinear_arith)
        requires
            n1 == principal1 * s * 10000,
            n2 == principal2 * s * 10000,
            0 <= principal1 <= principal2,
            s >= 0,
    ;
    assert(collateral_denominator(ltv, asset_price) > 0) by (nonlinear_arith)
        requires
            ltv > 0,
            asset_price > 0,
    ;
    lemma_ceil_div_monotonic_numerator(n1, n2, collateral_denominator(ltv, asset_price));
}

/// For a tier's rate, the collateral requirement never increases as the
/// collateral price grows; and where the requirement at the lower price can
/// be computed, so can the one at the higher price.
pub proof fn lemma_required_collateral_nonincreasing_in_price(
    apy: u16,
    principal: u64,
    price1: u64,
    price2: u64,
    asset_decimals: u8,
)
    requires
        tier_ltv(apy) is Some,
        0 < price1 <= price2,
    ensures
        ({
            let ltv = tier_ltv(apy)->Some_0;
            &&& required_collateral_value(principal, ltv, price1, asset_decimals)
                >= required_collateral_value(principal, ltv, price2, asset_decimals)
            &&& required_collateral_fits(principal, ltv, price1, asset_decimals)
                ==> required_collateral_fits(principal, ltv, price2, asset_decimals)
        }),
{
    let ltv = tier_ltv(apy)->Some_0;
    crate::rates::lemma_tier_ltv_positive(apy);
    let n = collateral_numerator(principal, asset_decimals);
    let s = pow10(asset_decimals as nat);
    assert(n >= 0) by (nonlinear_arith)
        requires
            n == principal * s * 10000,
            principal >= 0,
            s >= 0,
    ;
    let d1 = collateral_denominator(ltv, price1);
    let d2 = collateral_denominator(ltv, price2);
    assert(0 < d1 <= d2) by (nonlinear_arith)
        requires
            d1 == ltv * price1,
            d2 == ltv * price2,
            ltv > 0,
            0 < price1 <= price2,
    ;
    lemma_ceil_div_antitonic_denominator(n, d1, d2);
    lemma_ceil_div_bounds(n, d2);
}

} // verus!
