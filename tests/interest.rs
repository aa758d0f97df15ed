use sol_savings::{accrued_interest, elapsed_seconds, Identity, Loan, SECONDS_PER_YEAR};

#[test]
fn no_time_no_interest() {
    assert_eq!(accrued_interest(1000, 500, 0), 0);
    assert_eq!(accrued_interest(u64::MAX, u16::MAX, 0), 0);
    assert_eq!(accrued_interest(0, 800, 0), 0);
}

#[test]
fn five_percent_for_one_year_on_one_thousand() {
    assert_eq!(accrued_interest(1000, 500, SECONDS_PER_YEAR), 50);
}

#[test]
fn interest_truncates_toward_zero() {
    assert_eq!(accrued_interest(1000, 500, 1000), 0);
    assert_eq!(accrued_interest(1_000_000, 800, 2 * SECONDS_PER_YEAR), 160_000);
}

#[test]
fn zero_rate_accrues_nothing() {
    assert_eq!(accrued_interest(1_000_000, 0, 10 * SECONDS_PER_YEAR), 0);
}

#[test]
fn interest_on_extreme_inputs_is_exact() {
    assert_eq!(
        accrued_interest(u64::MAX, u16::MAX, u64::MAX),
        70714120104527213979751522552954u128
    );
}

#[test]
fn elapsed_time_never_negative() {
    assert_eq!(elapsed_seconds(100, 40), 60);
    assert_eq!(elapsed_seconds(40, 100), 0);
    assert_eq!(elapsed_seconds(40, 40), 0);
    assert_eq!(elapsed_seconds(i64::MAX, i64::MIN), u64::MAX);
}

#[test]
fn loan_owes_principal_plus_interest() {
    let loan = Loan {
        id: 1,
        principal: 1000,
        apy: 500,
        collateral: 40,
        accrued_since: 10,
        borrower: Identity { bytes: [1; 32] },
    };
    assert_eq!(loan.accrued_interest_at(10 + SECONDS_PER_YEAR as i64), 50);
    assert_eq!(loan.total_owed(10 + SECONDS_PER_YEAR as i64), 1050);
    assert_eq!(loan.total_owed(5), 1000);
}
