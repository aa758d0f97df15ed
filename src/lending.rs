use vstd::prelude::*;
use crate::error::ErrorCode;
use crate::identity::Identity;
use crate::ledger::{holds_loan, loan_position, open_loan_result, reduced_loan, DataAccount};
use crate::loan::Loan;
use crate::repayment::{
    interest_paid, principal_paid, repayment_outcome, resolve_repayment, RepaymentOutcome,
};

verus! {

/// Record of an admitted borrow.
#[derive(Clone, Copy, Debug, PartialEq, Eq)]
pub struct LoanTaken {
    pub loan_id: u64,
    pub borrower: Identity,
    pub principal: u64,
    pub apy: u16,
    pub collateral: u64,
}

/// Record of an applied repayment.
#[derive(Clone, Copy, Debug, PartialEq, Eq)]
pub struct LoanRepaid {
    pub loan_id: u64,
    pub borrower: Identity,
    /// The part of the payment that went to principal.
    pub principal: u64,
    /// The part of the payment that went to accrued interest.
    pub interest: u64,
    /// Collateral released to the account: the whole pledge on a full
    /// settlement, nothing otherwise.
    pub collateral: u64,
    /// Principal still outstanding: zero once the loan is closed.
    pub remaining_principal: u64,
}

/// The record of paying `payment` against `loan` at `now`, where that payment
/// is not refused.
pub open spec fn repaid_record(loan: Loan, payment: u64, now: i64) -> LoanRepaid {
    match repayment_outcome(loan, payment, now) {
        Ok(RepaymentOutcome::PartialSettlement { new_principal }) => LoanRepaid {
            loan_id: loan.id,
            borrower: loan.borrower,
            principal: principal_paid(loan, payment, now) as u64,
            interest: interest_paid(loan, payment, now) as u64,
            collateral: 0,
            remaining_principal: new_principal,
        },
        _ => LoanRepaid {
            loan_id: loan.id,
            borrower: loan.borrower,
            principal: loan.principal,
            interest: (payment - loan.principal) as u64,
            collateral: loan.collateral,
            remaining_principal: 0,
        },
    }
}

/// What repaying `payment` against loan `loan_id` of `account` at `now`, on
/// behalf of `caller`, yields: the loan must be open, `caller` must be its
/// borrower, the payment no more than is owed, and a released pledge must fit
/// the collateral balance.
pub open spec fn repay_loan_result(
    account: DataAccount,
    loan_id: u64,
    caller: Identity,
    payment: u64,
    now: i64,
) -> Result<LoanRepaid, ErrorCode> {
    if !holds_loan(account.loans@, loan_id) {
        Err(ErrorCode::LoanNotFound)
    } else {
        let loan = account.loans@[loan_position(account.loans@, loan_id)];
        if caller@ != loan.borrower@ {
            Err(ErrorCode::Unauthorized)
        } else {
            match repayment_outcome(loan, payment, now) {
                Err(e) => Err(e),
                Ok(RepaymentOutcome::FullSettlement { collateral_to_release }) => {
                    if account.collateral_balance + collateral_to_release > u64::MAX {
                        Err(ErrorCode::Overflow)
                    } else {
                        Ok(repaid_record(loan, payment, now))
                    }
                },
                Ok(RepaymentOutcome::PartialSettlement { .. }) => Ok(
                    repaid_record(loan, payment, now),
                ),
            }
        }
    }
}

/// On the ledger, a payment above what the loan owes is refused with
/// `RepaymentExceedsOwed`, and `repay_loan` then leaves the account as it was.
pub proof fn lemma_ledger_refuses_overpayment(
    account: DataAccount,
    loan_id: u64,
    caller: Identity,
    payment: u64,
    now: i64,
)
    requires
        holds_loan(account.loans@, loan_id),
        caller@ == account.loans@[loan_position(account.loans@, loan_id)].borrower@,
        payment > account.loans@[loan_position(account.loans@, loan_id)].owed_at(now),
    ensures
        repay_loan_result(account, loan_id, caller, payment, now) == Err::<LoanRepaid, ErrorCode>(
            ErrorCode::RepaymentExceedsOwed,
        ),
{
}

/// Admits a borrow for `borrower` on `account` (see `DataAccount::open_loan`)
/// and returns its record. On any refusal the account is unchanged.
pub fn take_loan(
    account: &mut DataAccount,
    borrower: Identity,
    principal: u64,
    apy: u16,
    collateral: u64,
    asset_price: u64,
    asset_decimals: u8,
    now: i64,
) -> (r: Result<LoanTaken, ErrorCode>)
    requires
        old(account).wf(),
        principal > 0,
    ensures
        final(account).wf(),
        match open_loan_result(
            old(account).loans@.len(),
            old(account).loan_seq,
            principal,
            apy,
            collateral,
            asset_price,
            asset_decimals,
        ) {
            Ok(id) => r == Ok::<LoanTaken, ErrorCode>(
                LoanTaken { loan_id: id, borrower, principal, apy, collateral },
            ),
            Err(e) => r == Err::<LoanTaken, ErrorCode>(e),
        },
        r is Err ==> *final(account) == *old(account),
        r matches Ok(taken) ==> {
            &&& final(account).loans@ == old(account).loans@.push(
                Loan { id: taken.loan_id, principal, apy, collateral, accrued_since: now, borrower },
            )
            &&& final(account).loan_seq == taken.loan_id
            &&& final(account).admin == old(account).admin
            &&& final(account).bump == old(account).bump
            &&& final(account).collateral_balance == old(account).collateral_balance
            &&& final(account).stable_balance == old(account).stable_balance
        },
{
    match account.open_loan(borrower, principal, apy, collateral, asset_price, asset_decimals, now) {
        Ok(loan_id) => Ok(LoanTaken { loan_id, borrower, principal, apy, collateral }),
        Err(e) => Err(e),
    }
}

/// Applies `payment` from `caller` against the open loan `loan_id` at `now`.
/// A full settlement closes the loan and credits its pledge to the
/// collateral balance; a partial one lowers its principal and restarts its
/// accrual at `now`. On any refusal the account is unchanged.
pub fn repay_loan(
    account: &mut DataAccount,
    loan_id: u64,
    caller: Identity,
    payment: u64,
    now: i64,
) -> (r: Result<LoanRepaid, ErrorCode>)
    requires
        old(account).wf(),
    ensures
        final(account).wf(),
        r == repay_loan_result(*old(account), loan_id, caller, payment, now),
        r is Err ==> *final(account) == *old(account),
        r is Ok ==> {
            let pos = loan_position(old(account).loans@, loan_id);
            let loan = old(account).loans@[pos];
            &&& final(account).loan_seq == old(account).loan_seq
            &&& final(account).admin == old(account).admin
            &&& final(account).bump == old(account).bump
            &&& final(account).stable_balance == old(account).stable_balance
            &&& match repayment_outcome(loan, payment, now) {
                Ok(RepaymentOutcome::PartialSettlement { new_principal }) => {
                    &&& final(account).loans@ == old(account).loans@.update(
                        pos,
                        reduced_loan(loan, new_principal, now),
                    )
                    &&& final(account).collateral_balance == old(account).collateral_balance
                },
                _ => {
                    &&& final(account).loans@ == old(account).loans@.remove(pos)
                    &&& final(account).collateral_balance == old(account).collateral_balance
                        + loan.collateral
                },
            }
        },
{
    let pos = match account.find_loan(loan_id) {
        Some(pos) => pos,
        None => {
            return Err(ErrorCode::LoanNotFound);
        },
    };
    let loan = account.loans[pos];
    if caller != loan.borrower {
        return Err(ErrorCode::Unauthorized);
    }
    let outcome = match resolve_repayment(&loan, payment, now) {
        Ok(outcome) => outcome,
        Err(e) => {
            return Err(e);
        },
    };
    match outcome {
        RepaymentOutcome::FullSettlement { collateral_to_release } => {
            match account.close_loan(loan_id, collateral_to_release) {
                Ok(()) => {},
                Err(e) => {
                    return Err(e);
                },
            }
            Ok(
                LoanRepaid {
                    loan_id,
                    borrower: loan.borrower,
                    principal: loan.principal,
                    interest: payment - loan.principal,
                    collateral: collateral_to_release,
                    remaining_principal: 0,
                },
            )
        },
        RepaymentOutcome::PartialSettlement { new_principal } => {
            match account.reduce_loan(loan_id, new_principal, now) {
                Ok(()) => {},
                Err(e) => {
                    return Err(e);
                },
            }
            let to_principal = loan.principal - new_principal;
            Ok(
                LoanRepaid {
                    loan_id,
                    borrower: loan.borrower,
                    principal: to_principal,
                    interest: payment - to_principal,
                    collateral: 0,
                    remaining_principal: new_principal,
                },
            )
        },
    }
}

} // verus!
