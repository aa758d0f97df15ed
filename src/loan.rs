use vstd::prelude::*;
use crate::identity::Identity;
use crate::interest::{accrued_interest, elapsed_seconds, elapsed_seconds_value, interest_value};

verus! {

/// One open borrowing position.
#[derive(Clone, Copy, Debug, PartialEq, Eq)]
pub struct Loan {
    /// Unique within its account, assigned in increasing order.
    pub id: u64,
    /// Principal outstanding, in stable-asset units; positive while open.
    pub principal: u64,
    /// Annual rate in basis points, fixed at creation.
    pub apy: u16,
    /// Collateral pledged, in collateral-asset base units.
    pub collateral: u64,
    /// The accrual baseline: creation time, or the last partial repayment.
    pub accrued_since: i64,
    /// The borrower's identity.
    pub borrower: Identity,
}

impl Loan {
    /// Seconds over which interest has accrued at `now`.
    pub open spec fn elapsed_at(self, now: i64) -> int {
        elapsed_seconds_value(now, self.accrued_since)
    }

    /// Interest accrued at `now` since the accrual baseline.
    pub open spec fn interest_at(self, now: i64) -> int {
        interest_value(self.principal, self.apy, self.elapsed_at(now) as u64)
    }

    /// Principal plus the interest accrued at `now`.
    pub open spec fn owed_at(self, now: i64) -> int {
        self.principal + self.interest_at(now)
    }

    /// Interest accrued at `now` since the accrual baseline.
    pub fn accrued_interest_at(&self, now: i64) -> (r: u128)
        ensures
            r == self.interest_at(now),
            r < 0x1_0000_0000_0000_0000_0000_0000_0000u128,
    {
        accrued_interest(self.principal, self.apy, elapsed_seconds(now, self.accrued_since))
    }

    /// Principal plus the interest accrued at `now`.
    pub fn total_owed(&self, now: i64) -> (r: u128)
        ensures
            r == self.owed_at(now),
    {
        self.principal as u128 + self.accrued_interest_at(now)
    }
}

} // verus!
