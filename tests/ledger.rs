use sol_savings::{
    initialize, repay_loan, resolve_repayment, take_loan, DataAccount, ErrorCode, Identity, Loan,
    LoanRepaid, LoanTaken, RepaymentOutcome, MAX_OPEN_LOANS, SECONDS_PER_YEAR,
};

const YEAR: i64 = SECONDS_PER_YEAR as i64;

fn alice() -> Identity {
    Identity { bytes: [7; 32] }
}

fn bob() -> Identity {
    let mut bytes = [7u8; 32];
    bytes[31] = 8;
    Identity { bytes }
}

fn loan(principal: u64, apy: u16, since: i64) -> Loan {
    Loan { id: 1, principal, apy, collateral: 40, accrued_since: since, borrower: alice() }
}

fn account_with_loan(principal: u64, apy: u16, collateral: u64) -> DataAccount {
    let mut account = initialize(alice(), 255);
    take_loan(&mut account, alice(), principal, apy, collateral, 100, 0, 0).unwrap();
    account
}

#[test]
fn identities_differ_in_one_byte() {
    assert!(alice() == alice());
    assert!(alice() != bob());
}

#[test]
fn initialized_account_is_empty() {
    let account = initialize(alice(), 254);
    assert_eq!(account.admin, alice());
    assert_eq!(account.bump, 254);
    assert_eq!(account.loan_seq, 0);
    assert_eq!(account.collateral_balance, 0);
    assert_eq!(account.stable_balance, 0);
    assert!(account.loans.is_empty());
    assert!(account.is_well_formed());
}

#[test]
fn pledge_of_thirty_nine_is_refused_forty_admitted() {
    let mut account = initialize(alice(), 1);
    let before = account.clone();
    assert_eq!(
        take_loan(&mut account, alice(), 1000, 100, 39, 100, 0, 0),
        Err(ErrorCode::InsufficientCollateral)
    );
    assert_eq!(account, before);
    assert_eq!(
        take_loan(&mut account, alice(), 1000, 100, 40, 100, 0, 0),
        Ok(LoanTaken { loan_id: 1, borrower: alice(), principal: 1000, apy: 100, collateral: 40 })
    );
    assert_eq!(
        account.loans,
        vec![Loan {
            id: 1,
            principal: 1000,
            apy: 100,
            collateral: 40,
            accrued_since: 0,
            borrower: alice()
        }]
    );
    assert_eq!(account.loan_seq, 1);
}

#[test]
fn open_loan_refuses_unknown_rate_and_zero_price() {
    let mut account = initialize(alice(), 1);
    assert_eq!(
        account.open_loan(alice(), 1000, 300, 1_000_000, 100, 0, 0),
        Err(ErrorCode::UnknownRate)
    );
    assert_eq!(
        account.open_loan(alice(), 1000, 100, 1_000_000, 0, 0, 0),
        Err(ErrorCode::InvalidPrice)
    );
    assert_eq!(
        account.open_loan(alice(), u64::MAX, 100, u64::MAX, 1, 9, 0),
        Err(ErrorCode::Overflow)
    );
    assert!(account.loans.is_empty());
    assert_eq!(account.loan_seq, 0);
}

#[test]
fn same_request_twice_opens_two_loans() {
    let mut account = initialize(alice(), 1);
    assert_eq!(account.open_loan(alice(), 1000, 800, 20, 100, 0, 3), Ok(1));
    assert_eq!(account.open_loan(alice(), 1000, 800, 20, 100, 0, 3), Ok(2));
    assert_eq!(account.loans.len(), 2);
    assert_eq!(account.loans[0].id, 1);
    assert_eq!(account.loans[1].id, 2);
}

#[test]
fn open_loans_are_capped() {
    let mut account = initialize(alice(), 1);
    for i in 0..MAX_OPEN_LOANS {
        assert_eq!(account.open_loan(alice(), 1000, 0, 50, 100, 0, 0), Ok(i as u64 + 1));
    }
    let before = account.clone();
    assert_eq!(
        account.open_loan(alice(), 1000, 0, 50, 100, 0, 0),
        Err(ErrorCode::TooManyOpenLoans)
    );
    assert_eq!(account, before);
}

#[test]
fn loan_sequence_exhaustion_is_overflow() {
    let mut account = initialize(alice(), 1);
    account.loan_seq = u64::MAX;
    assert_eq!(account.open_loan(alice(), 1000, 0, 50, 100, 0, 0), Err(ErrorCode::Overflow));
    assert!(account.loans.is_empty());
}

#[test]
fn ids_are_not_reused_after_closing() {
    let mut account = initialize(alice(), 1);
    assert_eq!(account.open_loan(alice(), 1000, 0, 50, 100, 0, 0), Ok(1));
    assert_eq!(account.close_loan(1, 50), Ok(()));
    assert_eq!(account.open_loan(alice(), 1000, 0, 50, 100, 0, 0), Ok(2));
}

#[test]
fn close_loan_removes_and_credits() {
    let mut account = initialize(alice(), 1);
    account.open_loan(alice(), 1000, 0, 50, 100, 0, 0).unwrap();
    account.open_loan(alice(), 2000, 0, 100, 100, 0, 0).unwrap();
    account.open_loan(alice(), 3000, 0, 150, 100, 0, 0).unwrap();
    assert_eq!(account.close_loan(2, 100), Ok(()));
    assert_eq!(account.collateral_balance, 100);
    let ids: Vec<u64> = account.loans.iter().map(|l| l.id).collect();
    assert_eq!(ids, vec![1, 3]);
    assert_eq!(account.close_loan(2, 100), Err(ErrorCode::LoanNotFound));
}

#[test]
fn close_loan_refuses_balance_overflow() {
    let mut account = initialize(alice(), 1);
    account.open_loan(alice(), 1000, 0, 50, 100, 0, 0).unwrap();
    account.collateral_balance = u64::MAX - 10;
    let before = account.clone();
    assert_eq!(account.close_loan(1, 11), Err(ErrorCode::Overflow));
    assert_eq!(account, before);
}

#[test]
fn reduce_loan_sets_principal_and_baseline() {
    let mut account = initialize(alice(), 1);
    account.open_loan(alice(), 1000, 500, 50, 100, 0, 0).unwrap();
    assert_eq!(account.reduce_loan(1, 600, 77), Ok(()));
    assert_eq!(account.loans[0].principal, 600);
    assert_eq!(account.loans[0].accrued_since, 77);
    assert_eq!(account.loans[0].collateral, 50);
    assert_eq!(account.reduce_loan(9, 600, 77), Err(ErrorCode::LoanNotFound));
}

#[test]
fn zero_payment_keeps_principal() {
    // interest accrued
    assert_eq!(
        resolve_repayment(&loan(1000, 500, 0), 0, YEAR),
        Ok(RepaymentOutcome::PartialSettlement { new_principal: 1000 })
    );
    // no interest accrued
    assert_eq!(
        resolve_repayment(&loan(1000, 500, 0), 0, 0),
        Ok(RepaymentOutcome::PartialSettlement { new_principal: 1000 })
    );
}

#[test]
fn paying_total_owed_settles_in_full() {
    let l = loan(1000, 500, 0);
    let owed = l.total_owed(YEAR) as u64;
    assert_eq!(owed, 1050);
    assert_eq!(
        resolve_repayment(&l, owed, YEAR),
        Ok(RepaymentOutcome::FullSettlement { collateral_to_release: 40 })
    );
}

#[test]
fn paying_more_than_owed_is_refused() {
    assert_eq!(
        resolve_repayment(&loan(1000, 500, 0), 1051, YEAR),
        Err(ErrorCode::RepaymentExceedsOwed)
    );
    assert_eq!(
        resolve_repayment(&loan(1000, 500, 0), u64::MAX, YEAR),
        Err(ErrorCode::RepaymentExceedsOwed)
    );
}

#[test]
fn partial_payment_pays_interest_first() {
    // 1049 against 50 interest and 1000 principal leaves 1
    assert_eq!(
        resolve_repayment(&loan(1000, 500, 0), 1049, YEAR),
        Ok(RepaymentOutcome::PartialSettlement { new_principal: 1 })
    );
    // a payment below the interest leaves the principal
    assert_eq!(
        resolve_repayment(&loan(1000, 500, 0), 30, YEAR),
        Ok(RepaymentOutcome::PartialSettlement { new_principal: 1000 })
    );
    assert_eq!(
        resolve_repayment(&loan(1000, 500, 0), 50, YEAR),
        Ok(RepaymentOutcome::PartialSettlement { new_principal: 1000 })
    );
    assert_eq!(
        resolve_repayment(&loan(1000, 500, 0), 51, YEAR),
        Ok(RepaymentOutcome::PartialSettlement { new_principal: 999 })
    );
}

#[test]
fn repaying_one_year_at_five_percent() {
    let mut account = account_with_loan(1000, 500, 40);
    let mut partial = account.clone();

    assert_eq!(
        repay_loan(&mut account, 1, alice(), 1050, YEAR),
        Ok(LoanRepaid {
            loan_id: 1,
            borrower: alice(),
            principal: 1000,
            interest: 50,
            collateral: 40,
            remaining_principal: 0,
        })
    );
    assert!(account.loans.is_empty());
    assert_eq!(account.collateral_balance, 40);

    assert_eq!(
        repay_loan(&mut partial, 1, alice(), 1049, YEAR),
        Ok(LoanRepaid {
            loan_id: 1,
            borrower: alice(),
            principal: 999,
            interest: 50,
            collateral: 0,
            remaining_principal: 1,
        })
    );
    assert_eq!(partial.loans.len(), 1);
    assert_eq!(partial.loans[0].principal, 1);
    assert_eq!(partial.loans[0].accrued_since, YEAR);
    assert_eq!(partial.loans[0].collateral, 40);
    assert_eq!(partial.collateral_balance, 0);
}

#[test]
fn zero_repayment_releases_nothing() {
    let mut account = account_with_loan(1000, 500, 40);
    let r = repay_loan(&mut account, 1, alice(), 0, YEAR).unwrap();
    assert_eq!(r.collateral, 0);
    assert_eq!(r.remaining_principal, 1000);
    assert_eq!(account.loans[0].principal, 1000);
    assert_eq!(account.collateral_balance, 0);
}

#[test]
fn overpayment_leaves_account_unchanged() {
    let mut account = account_with_loan(1000, 500, 40);
    let before = account.clone();
    assert_eq!(
        repay_loan(&mut account, 1, alice(), 1051, YEAR),
        Err(ErrorCode::RepaymentExceedsOwed)
    );
    assert_eq!(account, before);
}

#[test]
fn repayment_by_another_identity_is_unauthorized() {
    let mut account = account_with_loan(1000, 500, 40);
    let before = account.clone();
    assert_eq!(repay_loan(&mut account, 1, bob(), 1050, YEAR), Err(ErrorCode::Unauthorized));
    assert_eq!(account, before);
}

#[test]
fn repayment_of_unknown_loan_is_not_found() {
    let mut account = account_with_loan(1000, 500, 40);
    assert_eq!(repay_loan(&mut account, 2, alice(), 10, YEAR), Err(ErrorCode::LoanNotFound));
    repay_loan(&mut account, 1, alice(), 1050, YEAR).unwrap();
    assert_eq!(repay_loan(&mut account, 1, alice(), 0, YEAR), Err(ErrorCode::LoanNotFound));
}

#[test]
fn full_repayment_refused_when_balance_would_overflow() {
    let mut account = account_with_loan(1000, 500, 40);
    account.collateral_balance = u64::MAX;
    let before = account.clone();
    assert_eq!(repay_loan(&mut account, 1, alice(), 1050, YEAR), Err(ErrorCode::Overflow));
    assert_eq!(account, before);
}

#[test]
fn clock_running_backwards_accrues_nothing() {
    let mut account = initialize(alice(), 1);
    account.open_loan(alice(), 1000, 500, 40, 100, 0, 1000).unwrap();
    assert_eq!(account.loans[0].total_owed(10), 1000);
    assert!(repay_loan(&mut account, 1, alice(), 1000, 10).unwrap().remaining_principal == 0);
}

#[test]
fn malformed_account_is_detected() {
    let mut account = account_with_loan(1000, 500, 40);
    assert!(account.is_well_formed());
    let mut dup = account.clone();
    dup.loans.push(dup.loans[0]);
    assert!(!dup.is_well_formed());
    let mut zero = account.clone();
    zero.loans[0].principal = 0;
    assert!(!zero.is_well_formed());
    account.loan_seq = 0;
    assert!(!account.is_well_formed());
}
