use vstd::prelude::*;
use crate::collateral::{required_collateral, required_collateral_result};
use crate::error::ErrorCode;
use crate::identity::Identity;
use crate::loan::Loan;
use crate::rates::{lookup_ltv, tier_ltv};

verus! {

/// The most loans one account may hold open at once.
pub const MAX_OPEN_LOANS: usize = 10;

/// The ledger record of one account: its balances, its loan-id sequence and
/// its open loans, in the order in which they were opened.
#[derive(Clone, Debug, PartialEq, Eq)]
pub struct DataAccount {
    /// The owner of the account.
    pub admin: Identity,
    /// The bump seed that locates the account's storage.
    pub bump: u8,
    /// Collateral-asset balance held for the account: released pledges.
    pub collateral_balance: u64,
    /// Stable-asset balance held for the account.
    pub stable_balance: u64,
    /// The last loan id handed out; zero before the first loan.
    pub loan_seq: u64,
    /// The open loans, oldest first.
    pub loans: Vec<Loan>,
}

/// Open loans are at most `MAX_OPEN_LOANS`, each with a positive principal
/// and an id drawn from the sequence, ids increasing in order of opening.
pub open spec fn loans_well_formed(loans: Seq<Loan>, loan_seq: u64) -> bool {
    &&& loans.len() <= MAX_OPEN_LOANS
    &&& forall|i: int|
        0 <= i < loans.len() ==> 1 <= #[trigger] loans[i].id <= loan_seq && loans[i].principal > 0
    &&& forall|i: int, j: int|
        0 <= i < j < loans.len() ==> #[trigger] loans[i].id < #[trigger] loans[j].id
}

/// Whether some loan in `loans` carries `id`.
pub open spec fn holds_loan(loans: Seq<Loan>, id: u64) -> bool {
    exists|i: int| 0 <= i < loans.len() && #[trigger] loans[i].id == id
}

/// The position of the loan that carries `id`.
pub open spec fn loan_position(loans: Seq<Loan>, id: u64) -> int {
    choose|i: int| 0 <= i < loans.len() && #[trigger] loans[i].id == id
}

/// `loan` after a partial repayment at `now` left it `new_principal`.
pub open spec fn reduced_loan(loan: Loan, new_principal: u64, now: i64) -> Loan {
    Loan {
        id: loan.id,
        principal: new_principal,
        apy: loan.apy,
        collateral: loan.collateral,
        accrued_since: now,
        borrower: loan.borrower,
    }
}

/// What opening a loan yields on an account that holds `loan_count` loans
/// and whose last id is `loan_seq`: the rate must be a tier's, the
/// requirement computable, the pledge sufficient, a slot free and an id left.
pub open spec fn open_loan_result(
    loan_count: nat,
    loan_seq: u64,
    principal: u64,
    apy: u16,
    pledged_collateral: u64,
    asset_price: u64,
    asset_decimals: u8,
) -> Result<u64, ErrorCode> {
    match tier_ltv(apy) {
        None => Err(ErrorCode::UnknownRate),
        Some(ltv) => match required_collateral_result(principal, ltv, asset_price, asset_decimals) {
            Err(e) => Err(e),
            Ok(required) => if pledged_collateral < required {
                Err(ErrorCode::InsufficientCollateral)
            } else if loan_count >= MAX_OPEN_LOANS {
                Err(ErrorCode::TooManyOpenLoans)
            } else if loan_seq == u64::MAX {
                Err(ErrorCode::Overflow)
            } else {
                Ok((loan_seq + 1) as u64)
            },
        },
    }
}

proof fn lemma_loan_position(loans: Seq<Loan>, loan_seq: u64, i: int)
    requires
        loans_well_formed(loans, loan_seq),
        0 <= i < loans.len(),
    ensures
        holds_loan(loans, loans[i].id),
        loan_position(loans, loans[i].id) == i,
{
    let id = loans[i].id;
    assert(loans[i].id == id);
    let k = loan_position(loans, id);
    if k < i {
        assert(loans[k].id < loans[i].id);
    } else if k > i {
        assert(loans[i].id < loans[k].id);
    }
}

/// Creates an empty account owned by `admin`.
pub fn initialize(admin: Identity, bump: u8) -> (r: DataAccount)
    ensures
        r.wf(),
        r.admin == admin,
        r.bump == bump,
        r.collateral_balance == 0,
        r.stable_balance == 0,
        r.loan_seq == 0,
        r.loans@.len() == 0,
{
    DataAccount {
        admin,
        bump,
        collateral_balance: 0,
        stable_balance: 0,
        loan_seq: 0,
        loans: Vec::new(),
    }
}

impl DataAccount {
    /// The account's invariant.
    pub open spec fn wf(&self) -> bool {
        loans_well_formed(self.loans@, self.loan_seq)
    }

    /// Checks the account's invariant, for a record read back from storage.
    pub fn is_well_formed(&self) -> (r: bool)
        ensures
            r == self.wf(),
    {
        if self.loans.len() > MAX_OPEN_LOANS {
            return false;
        }
        let mut i: usize = 0;
        while i < self.loans.len()
            invariant
                0 <= i <= self.loans@.len() <= MAX_OPEN_LOANS,
                forall|k: int|
                    0 <= k < i ==> 1 <= #[trigger] self.loans@[k].id <= self.loan_seq
                        && self.loans@[k].principal > 0,
                forall|k: int, j: int|
                    0 <= k < j < i ==> #[trigger] self.loans@[k].id < #[trigger] self.loans@[j].id,
            decreases self.loans@.len() - i,
        {
            let loan = &self.loans[i];
            if loan.id < 1 || loan.id > self.loan_seq || loan.principal == 0 {
                return false;
            }
            if i > 0 && self.loans[i - 1].id >= loan.id {
                return false;
            }
            proof {
                assert forall|k: int, j: int| 0 <= k < j < i + 1 implies #[trigger] self.loans@[k].id
                    < #[trigger] self.loans@[j].id by {
                    if j == i && k < i - 1 {
                        assert(self.loans@[k].id < self.loans@[i - 1].id);
                    }
                }
            }
            i = i + 1;
        }
        true
    }

    /// The position of the open loan with id `loan_id`, if there is one.
    pub fn find_loan(&self, loan_id: u64) -> (r: Option<usize>)
        requires
            self.wf(),
        ensures
            r is None <==> !holds_loan(self.loans@, loan_id),
            r matches Some(i) ==> i == loan_position(self.loans@, loan_id) && i < self.loans@.len()
                && self.loans@[i as int].id == loan_id,
    {
        let mut i: usize = 0;
        while i < self.loans.len()
            invariant
                0 <= i <= self.loans@.len(),
                self.wf(),
                forall|k: int| 0 <= k < i ==> #[trigger] self.loans@[k].id != loan_id,
            decreases self.loans@.len() - i,
        {
            if self.loans[i].id == loan_id {
                proof {
                    lemma_loan_position(self.loans@, self.loan_seq, i as int);
                }
                return Some(i);
            }
            i = i + 1;
        }
        None
    }

    /// Admits a borrow of `principal` stable units at rate `apy` against
    /// `pledged_collateral`, valuing one whole collateral unit (of
    /// `asset_decimals` decimals) at `asset_price` stable units. On success the
    /// loan takes the next id and is appended; on any refusal nothing changes.
    pub fn open_loan(
        &mut self,
        borrower: Identity,
        principal: u64,
        apy: u16,
        pledged_collateral: u64,
        asset_price: u64,
        asset_decimals: u8,
        now: i64,
    ) -> (r: Result<u64, ErrorCode>)
        requires
            old(self).wf(),
            principal > 0,
        ensures
            final(self).wf(),
            r == open_loan_result(
                old(self).loans@.len(),
                old(self).loan_seq,
                principal,
                apy,
                pledged_collateral,
                asset_price,
                asset_decimals,
            ),
            r is Err ==> *final(self) == *old(self),
            r matches Ok(id) ==> {
                &&& final(self).loans@ == old(self).loans@.push(
                    Loan {
                        id,
                        principal,
                        apy,
                        collateral: pledged_collateral,
                        accrued_since: now,
                        borrower,
                    },
                )
                &&& final(self).loan_seq == id
                &&& final(self).admin == old(self).admin
                &&& final(self).bump == old(self).bump
                &&& final(self).collateral_balance == old(self).collateral_balance
                &&& final(self).stable_balance == old(self).stable_balance
            },
    {
        let ltv = match lookup_ltv(apy) {
            Ok(ltv) => ltv,
            Err(e) => {
                return Err(e);
            },
        };
        let required = match required_collateral(principal, ltv, asset_price, asset_decimals) {
            Ok(required) => required,
            Err(e) => {
                return Err(e);
            },
        };
        if pledged_collateral < required {
            return Err(ErrorCode::InsufficientCollateral);
        }
        if self.loans.len() >= MAX_OPEN_LOANS {
            return Err(ErrorCode::TooManyOpenLoans);
        }
        if self.loan_seq == u64::MAX {
            return Err(ErrorCode::Overflow);
        }
        let id = self.loan_seq + 1;
        let loan = Loan {
            id,
            principal,
            apy,
            collateral: pledged_collateral,
            accrued_since: now,
            borrower,
        };
        let ghost before = self.loans@;
        self.loans.push(loan);
        self.loan_seq = id;
        proof {
            assert(forall|i: int| 0 <= i < before.len() ==> #[trigger] self.loans@[i] == before[i]);
        }
        Ok(id)
    }

    /// Removes the open loan `loan_id` and credits `released_collateral` to
    /// the collateral balance. On any refusal nothing changes.
    pub fn close_loan(&mut self, loan_id: u64, released_collateral: u64) -> (r: Result<(), ErrorCode>)
        requires
            old(self).wf(),
        ensures
            final(self).wf(),
            !holds_loan(old(self).loans@, loan_id) ==> r == Err::<(), ErrorCode>(
                ErrorCode::LoanNotFound,
            ),
            holds_loan(old(self).loans@, loan_id) && old(self).collateral_balance
                + released_collateral > u64::MAX ==> r == Err::<(), ErrorCode>(ErrorCode::Overflow),
            holds_loan(old(self).loans@, loan_id) && old(self).collateral_balance
                + released_collateral <= u64::MAX ==> r == Ok::<(), ErrorCode>(()),
            r is Err ==> *final(self) == *old(self),
            r is Ok ==> {
                &&& final(self).loans@ == old(self).loans@.remove(
                    loan_position(old(self).loans@, loan_id),
                )
                &&& final(self).collateral_balance == old(self).collateral_balance
                    + released_collateral
                &&& final(self).loan_seq == old(self).loan_seq
                &&& final(self).admin == old(self).admin
                &&& final(self).bump == old(self).bump
                &&& final(self).stable_balance == old(self).stable_balance
            },
    {
        let pos = match self.find_loan(loan_id) {
            Some(pos) => pos,
            None => {
                return Err(ErrorCode::LoanNotFound);
            },
        };
        let balance = match self.collateral_balance.checked_add(released_collateral) {
            Some(b) => b,
            None => {
                return Err(ErrorCode::Overflow);
            },
        };
        let ghost before = self.loans@;
        self.loans.remove(pos);
        self.collateral_balance = balance;
        proof {
            let after = self.loans@;
            assert(forall|i: int|
                0 <= i < after.len() ==> #[trigger] after[i] == before[if i < pos {
                    i
                } else {
                    i + 1
                }]);
            assert forall|i: int, j: int| 0 <= i < j < after.len() implies #[trigger] after[i].id
                < #[trigger] after[j].id by {
                let bi = if i < pos {
                    i
                } else {
                    i + 1
                };
                let bj = if j < pos {
                    j
                } else {
                    j + 1
                };
                assert(before[bi].id < before[bj].id);
            }
            assert forall|i: int| 0 <= i < after.len() implies 1 <= #[trigger] after[i].id
                <= self.loan_seq && after[i].principal > 0 by {
                let bi = if i < pos {
                    i
                } else {
                    i + 1
                };
                assert(before[bi] == after[i]);
            }
        }
        Ok(())
    }

    /// Sets the principal of the open loan `loan_id` to `new_principal` and
    /// restarts its accrual at `now`. The new principal is positive and no
    /// larger than the current one. On a refusal nothing changes.
    pub fn reduce_loan(&mut self, loan_id: u64, new_principal: u64, now: i64) -> (r: Result<
        (),
        ErrorCode,
    >)
        requires
            old(self).wf(),
            new_principal > 0,
            forall|i: int|
                0 <= i < old(self).loans@.len() && #[trigger] old(self).loans@[i].id == loan_id
                    ==> new_principal <= old(self).loans@[i].principal,
        ensures
            final(self).wf(),
            !holds_loan(old(self).loans@, loan_id) ==> r == Err::<(), ErrorCode>(
                ErrorCode::LoanNotFound,
            ),
            holds_loan(old(self).loans@, loan_id) ==> r == Ok::<(), ErrorCode>(()),
            r is Err ==> *final(self) == *old(self),
            r is Ok ==> {
                let pos = loan_position(old(self).loans@, loan_id);
                &&& final(self).loans@ == old(self).loans@.update(
                    pos,
                    reduced_loan(old(self).loans@[pos], new_principal, now),
                )
                &&& final(self).collateral_balance == old(self).collateral_balance
                &&& final(self).loan_seq == old(self).loan_seq
                &&& final(self).admin == old(self).admin
                &&& final(self).bump == old(self).bump
                &&& final(self).stable_balance == old(self).stable_balance
            },
    {
        let pos = match self.find_loan(loan_id) {
            Some(pos) => pos,
            None => {
                return Err(ErrorCode::LoanNotFound);
            },
        };
        let mut loan = self.loans[pos];
        loan.principal = new_principal;
        loan.accrued_since = now;
        self.loans.set(pos, loan);
        Ok(())
    }
}

/// Whatever the account, a pledge below the requirement is never admitted;
/// one at or above it always is where the requirement can be computed, a
/// slot is free and an id is left.
pub proof fn lemma_open_loan_admission(
    loan_count: nat,
    loan_seq: u64,
    principal: u64,
    apy: u16,
    pledged_collateral: u64,
    asset_price: u64,
    asset_decimals: u8,
)
    requires
        tier_ltv(apy) is Some,
        asset_price > 0,
    ensures
        ({
            let ltv = tier_ltv(apy)->Some_0;
            let required = crate::collateral::required_collateral_value(
                principal,
                ltv,
                asset_price,
                asset_decimals,
            );
            let r = open_loan_result(
                loan_count,
                loan_seq,
                principal,
                apy,
                pledged_collateral,
                asset_price,
                asset_decimals,
            );
            &&& pledged_collateral < required ==> r is Err
            &&& pledged_collateral >= required && crate::collateral::required_collateral_fits(
                principal,
                ltv,
                asset_price,
                asset_decimals,
            ) && loan_count < MAX_OPEN_LOANS && loan_seq < u64::MAX ==> r == Ok::<u64, ErrorCode>(
                (loan_seq + 1) as u64,
            )
        }),
{
}

} // verus!
