use vstd::prelude::*;

verus! {

/// Every way a ledger operation can be refused. A refused operation leaves
/// the ledger exactly as it was.
#[derive(Clone, Copy, Debug, PartialEq, Eq, Structural)]
pub enum ErrorCode {
    /// The requested annual rate is not one of the fixed tiers.
    UnknownRate,
    /// The collateral price is zero or otherwise unusable.
    InvalidPrice,
    /// An intermediate value does not fit the integer domain it is computed in.
    Overflow,
    /// The pledged collateral is below the computed requirement.
    InsufficientCollateral,
    /// No open loan carries the given id.
    LoanNotFound,
    /// The caller is not the loan's recorded borrower.
    Unauthorized,
    /// The payment is larger than principal plus accrued interest.
    RepaymentExceedsOwed,
    /// The account already holds the largest number of open loans allowed.
    TooManyOpenLoans,
}

} // verus!
