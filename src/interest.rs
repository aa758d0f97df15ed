use vstd::prelude::*;
use crate::rates::BASIS_POINTS_DENOMINATOR;

verus! {

/// Seconds in the 365-day year over which an annual rate accrues.
pub const SECONDS_PER_YEAR: u64 = 31_536_000;

/// The denominator of the accrual formula: basis points times seconds per year.
pub const ACCRUAL_DENOMINATOR: u64 = BASIS_POINTS_DENOMINATOR * SECONDS_PER_YEAR;

/// Seconds from `since` to `now`; zero when the clock has not moved forward.
pub open spec fn elapsed_seconds_value(now: i64, since: i64) -> int {
    if now <= since {
        0
    } else {
        now - since
    }
}

/// Simple interest on `principal` at `apy_bps` basis points a year over
/// `elapsed` seconds, truncated toward zero.
pub open spec fn interest_value(principal: u64, apy_bps: u16, elapsed: u64) -> int {
    (principal * apy_bps * elapsed) / (BASIS_POINTS_DENOMINATOR * SECONDS_PER_YEAR)
}

/// Seconds from `since` to `now`, or zero where `now` is not later than
/// `since`: a clock that runs backwards never yields negative time.
pub fn elapsed_seconds(now: i64, since: i64) -> (r: u64)
    ensures
        r == elapsed_seconds_value(now, since),
{
    if now <= since {
        0
    } else {
        ((now as i128) - (since as i128)) as u64
    }
}

/// Interest accrued on `principal` at `apy_bps` basis points a year over
/// `elapsed_seconds`, truncated toward zero. The result always fits: whole
/// years and the remaining seconds are accounted for separately, so no
/// intermediate value leaves `u128`.
pub fn accrued_interest(principal: u64, apy_bps: u16, elapsed_seconds: u64) -> (r: u128)
    ensures
        r == interest_value(principal, apy_bps, elapsed_seconds),
        r < 0x1_0000_0000_0000_0000_0000_0000_0000u128,
{
    let d: u128 = ACCRUAL_DENOMINATOR as u128;
    assert(principal * apy_bps <= 0xffff_ffff_ffff_ffff * 0xffff) by (nonlinear_arith);
    let rate_product: u128 = (principal as u128) * (apy_bps as u128);
    let years: u128 = (elapsed_seconds as u128) / d;
    let rest: u128 = (elapsed_seconds as u128) % d;
    assert(years <= 58_494_241) by {
        vstd::arithmetic::div_mod::lemma_div_is_ordered(
            elapsed_seconds as int,
            0xffff_ffff_ffff_ffff,
            d as int,
        );
    }
    assert(rate_product * years <= 0xffff_ffff_ffff_ffff * 0xffff * 58_494_241) by (nonlinear_arith)
        requires
            rate_product <= 0xffff_ffff_ffff_ffff * 0xffff,
            years <= 58_494_241,
    ;
    assert(rate_product * rest <= 0xffff_ffff_ffff_ffff * 0xffff * 315_360_000_000) by (
    nonlinear_arith)
        requires
            rate_product <= 0xffff_ffff_ffff_ffff * 0xffff,
            rest < 315_360_000_000,
    ;
    let whole: u128 = rate_product * years;
    let part: u128 = rate_product * rest / d;
    assert(part <= rate_product * rest) by {
        vstd::arithmetic::div_mod::lemma_div_is_ordered_by_denominator(
            (rate_product * rest) as int,
            1,
            d as int,
        );
    }
    proof {
        let e = elapsed_seconds as int;
        let p = rate_product as int;
        let di = d as int;
        vstd::arithmetic::div_mod::lemma_fundamental_div_mod(e, di);
        vstd::arithmetic::div_mod::lemma_fundamental_div_mod(p * rest, di);
        vstd::arithmetic::div_mod::lemma_mod_bound(p * rest, di);
        let q2 = (p * rest) / di;
        let r2 = (p * rest) % di;
        assert(p * e == di * (p * years + q2) + r2) by (nonlinear_arith)
            requires
                e == di * years + rest,
                p * rest == di * q2 + r2,
        ;
        vstd::arithmetic::div_mod::lemma_fundamental_div_mod_converse_div(
            p * e,
            di,
            p * years + q2,
            r2,
        );
        assert(principal * apy_bps * elapsed_seconds == p * e);
    }
    whole + part
}

/// Over no elapsed time no interest accrues, whatever the principal and rate.
pub proof fn lemma_no_interest_without_elapsed_time(principal: u64, apy_bps: u16)
    ensures
        interest_value(principal, apy_bps, 0) == 0,
{
    assert(principal * apy_bps * 0 == 0) by (nonlinear_arith);
}

} // verus!
