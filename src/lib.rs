//! A collateralized lending ledger: fixed rate tiers, collateral requirements,
//! interest accrual and the repayment state machine, all in integer arithmetic.

pub mod collateral;
pub mod error;
pub mod identity;
pub mod interest;
pub mod ledger;
pub mod lending;
pub mod loan;
pub mod rates;
pub mod repayment;

pub use collateral::{
    ceil_div, collateral_denominator, collateral_numerator, pow10, required_collateral,
    required_collateral_fits, required_collateral_result, required_collateral_value,
};
pub use error::ErrorCode;
pub use identity::Identity;
pub use interest::{
    accrued_interest, elapsed_seconds, elapsed_seconds_value, interest_value, ACCRUAL_DENOMINATOR,
    SECONDS_PER_YEAR,
};
pub use ledger::{
    holds_loan, initialize, loan_position, loans_well_formed, open_loan_result, reduced_loan,
    DataAccount, MAX_OPEN_LOANS,
};
pub use lending::{repay_loan, repay_loan_result, repaid_record, take_loan, LoanRepaid, LoanTaken};
pub use loan::Loan;
pub use rates::{lookup_ltv, rate_tiers, tier_ltv, tier_table, RateTier, BASIS_POINTS_DENOMINATOR};
pub use repayment::{
    interest_paid, principal_paid, repayment_outcome, resolve_repayment, RepaymentOutcome,
};
