use vstd::prelude::*;
use crate::error::ErrorCode;
use crate::interest::ACCRUAL_DENOMINATOR;
use crate::loan::Loan;

verus! {

/// What a repayment does to an open loan.
#[derive(Clone, Copy, Debug, PartialEq, Eq, Structural)]
pub enum RepaymentOutcome {
    /// The payment covers everything owed: the loan closes and its whole
    /// pledge is released.
    FullSettlement { collateral_to_release: u64 },
    /// The payment covers less: the loan stays open with this principal, and
    /// no collateral is released.
    PartialSettlement { new_principal: u64 },
}

/// The part of `payment` that goes to accrued interest, which is paid first.
pub open spec fn interest_paid(loan: Loan, payment: u64, now: i64) -> int {
    if payment <= loan.interest_at(now) {
        payment as int
    } else {
        loan.interest_at(now)
    }
}

/// The part of `payment` that goes to principal, once interest is paid.
pub open spec fn principal_paid(loan: Loan, payment: u64, now: i64) -> int {
    payment - interest_paid(loan, payment, now)
}

/// The outcome of paying `payment` against `loan` at `now`.
pub open spec fn repayment_outcome(loan: Loan, payment: u64, now: i64) -> Result<
    RepaymentOutcome,
    ErrorCode,
> {
    if payment > loan.owed_at(now) {
        Err(ErrorCode::RepaymentExceedsOwed)
    } else if payment == loan.owed_at(now) {
        Ok(RepaymentOutcome::FullSettlement { collateral_to_release: loan.collateral })
    } else {
        Ok(
            RepaymentOutcome::PartialSettlement {
                new_principal: (loan.principal - principal_paid(loan, payment, now)) as u64,
            },
        )
    }
}

/// Applies `payment` against everything `loan` owes at `now`: principal plus
/// accrued interest. A payment above that is refused; one equal to it settles
/// the loan in full; one below it pays interest first, then principal.
pub fn resolve_repayment(loan: &Loan, payment: u64, now: i64) -> (r: Result<
    RepaymentOutcome,
    ErrorCode,
>)
    ensures
        r == repayment_outcome(*loan, payment, now),
        r matches Ok(RepaymentOutcome::PartialSettlement { new_principal }) ==> 0 < new_principal
            <= loan.principal,
{
    let interest = loan.accrued_interest_at(now);
    proof {
        let e = loan.elapsed_at(now) as u64;
        if loan.principal == 0 {
            assert(loan.principal * loan.apy * e == 0) by (nonlinear_arith)
                requires
                    loan.principal == 0,
            ;
        }
    }
    let owed = loan.total_owed(now);
    let paid = payment as u128;
    if paid > owed {
        Err(ErrorCode::RepaymentExceedsOwed)
    } else if paid == owed {
        Ok(RepaymentOutcome::FullSettlement { collateral_to_release: loan.collateral })
    } else {
        let to_interest: u128 = if paid <= interest {
            paid
        } else {
            interest
        };
        let to_principal: u64 = (paid - to_interest) as u64;
        Ok(RepaymentOutcome::PartialSettlement { new_principal: loan.principal - to_principal })
    }
}

/// A zero payment changes no principal and releases no collateral: on an
/// open loan it is a partial settlement that keeps the principal as it was,
/// whether or not interest has accrued.
pub proof fn lemma_zero_payment_keeps_loan(loan: Loan, now: i64)
    requires
        loan.principal > 0,
    ensures
        repayment_outcome(loan, 0, now) == Ok::<RepaymentOutcome, ErrorCode>(
            RepaymentOutcome::PartialSettlement { new_principal: loan.principal },
        ),
{
    vstd::arithmetic::div_mod::lemma_div_pos_is_pos(
        loan.principal * loan.apy * (loan.elapsed_at(now) as u64),
        ACCRUAL_DENOMINATOR as int,
    );
    assert(loan.principal * loan.apy * (loan.elapsed_at(now) as u64) >= 0) by (nonlinear_arith);
}

/// Paying exactly what is owed settles the loan in full and releases its
/// whole pledge. A payment is a `u64`, so what is owed must fit in one.
pub proof fn lemma_paying_owed_settles(loan: Loan, now: i64)
    requires
        loan.owed_at(now) <= u64::MAX,
    ensures
        repayment_outcome(loan, loan.owed_at(now) as u64, now) == Ok::<RepaymentOutcome, ErrorCode>(
            RepaymentOutcome::FullSettlement { collateral_to_release: loan.collateral },
        ),
{
}

/// Any payment above what is owed is refused.
pub proof fn lemma_overpayment_refused(loan: Loan, payment: u64, now: i64)
    requires
        payment > loan.owed_at(now),
    ensures
        repayment_outcome(loan, payment, now) == Err::<RepaymentOutcome, ErrorCode>(
            ErrorCode::RepaymentExceedsOwed,
        ),
{
}

} // verus!
