//! Collateral escrow for loans: a borrower locks collateral against a loan,
//! the lender releases it back, or the admin liquidates it to the lender.
use vstd::prelude::*;

use crate::keyed::{has_key, key_index, keys_unique, lemma_lookup_at, lemma_lookup_put, lookup, put};
use crate::sums::{lemma_sum_push, lemma_sum_update, sum_by};
use crate::token::{AccountId, TokenTransfer};

verus! {

/// Collateral held for one loan.
#[derive(Clone, Copy, Debug, PartialEq, Eq, Structural)]
pub struct EscrowData {
    pub borrower: AccountId,
    pub lender: AccountId,
    pub loan_id: u64,
    pub collateral_token: AccountId,
    pub collateral_amount: i128,
    pub loan_amount: i128,
    pub created_at: u64,
    pub due_date: u64,
    pub is_locked: bool,
    pub is_liquidated: bool,
}

#[derive(Clone, Copy, Debug, PartialEq, Eq, Structural)]
pub enum EscrowError {
    NotInitialized,
    AlreadyInitialized,
    Unauthorized,
    /// A due date or the locked total would leave its integer range.
    Overflow,
}

#[derive(Clone, Copy, Debug, PartialEq, Eq, Structural)]
pub enum EscrowEvent {
    CollateralLocked { loan_id: u64, borrower: AccountId, amount: i128 },
    CollateralReleased { loan_id: u64, borrower: AccountId, amount: i128 },
    Liquidated { loan_id: u64, borrower: AccountId, amount: i128 },
}

pub open spec fn escrow_key() -> spec_fn(EscrowData) -> u64 {
    |e: EscrowData| e.loan_id
}

/// Collateral an escrow still holds.
pub open spec fn held_collateral() -> spec_fn(EscrowData) -> int {
    |e: EscrowData|
        if e.is_locked {
            e.collateral_amount as int
        } else {
            0
        }
}

/// The abstract state of the escrow book.
pub ghost struct EscrowBook {
    pub custody: AccountId,
    pub admin: Option<AccountId>,
    pub escrows: Seq<EscrowData>,
    pub total_locked: i128,
    pub transfers: Seq<TokenTransfer>,
    pub events: Seq<EscrowEvent>,
}

impl EscrowBook {
    pub open spec fn escrow(self, loan_id: u64) -> Option<EscrowData> {
        lookup(self.escrows, escrow_key(), loan_id)
    }

    /// An escrow whose collateral can still be released or liquidated.
    pub open spec fn is_open(self, loan_id: u64) -> bool {
        self.escrow(loan_id) is Some && self.escrow(loan_id)->0.is_locked
            && !self.escrow(loan_id)->0.is_liquidated
    }

    pub open spec fn wf(self) -> bool {
        &&& keys_unique(self.escrows, escrow_key())
        &&& forall|i: int| 0 <= i < self.escrows.len() ==> (#[trigger] self.escrows[i]).collateral_amount > 0
        &&& self.total_locked == sum_by(self.escrows, held_collateral())
    }

    /// The escrow after it gives up its collateral.
    pub open spec fn closed(self, loan_id: u64, liquidated: bool) -> Seq<EscrowData> {
        let e = self.escrow(loan_id)->0;
        put(
            self.escrows,
            escrow_key(),
            EscrowData { is_locked: false, is_liquidated: e.is_liquidated || liquidated, ..e },
        )
    }
}

/// Holds borrowers' collateral until loans are settled.
pub struct EscrowContract {
    custody: AccountId,
    admin: Option<AccountId>,
    escrows: Vec<EscrowData>,
    total_locked: i128,
    transfers: Vec<TokenTransfer>,
    events: Vec<EscrowEvent>,
}

impl View for EscrowContract {
    type V = EscrowBook;

    closed spec fn view(&self) -> EscrowBook {
        EscrowBook {
            custody: self.custody,
            admin: self.admin,
            escrows: self.escrows@,
            total_locked: self.total_locked,
            transfers: self.transfers@,
            events: self.events@,
        }
    }
}

impl EscrowContract {
    /// An empty book whose own custody account is `custody`.
    pub fn new(custody: AccountId) -> (r: Self)
        ensures
            r@.wf(),
            r@.custody == custody,
            r@.admin is None,
            r@.escrows.len() == 0,
            r@.total_locked == 0,
            r@.transfers.len() == 0,
            r@.events.len() == 0,
    {
        EscrowContract {
            custody,
            admin: None,
            escrows: Vec::new(),
            total_locked: 0,
            transfers: Vec::new(),
            events: Vec::new(),
        }
    }

    fn find(&self, loan_id: u64) -> (r: Option<usize>)
        requires
            self@.wf(),
        ensures
            match r {
                Some(i) => i < self.escrows@.len() && self.escrows@[i as int].loan_id == loan_id
                    && self@.escrow(loan_id) == Some(self.escrows@[i as int])
                    && key_index(self.escrows@, escrow_key(), loan_id) == i,
                None => !has_key(self.escrows@, escrow_key(), loan_id) && self@.escrow(loan_id) is None,
            },
    {
        let mut i: usize = 0;
        while i < self.escrows.len()
            invariant
                self@.wf(),
                i <= self.escrows@.len(),
                forall|j: int| 0 <= j < i ==> self.escrows@[j].loan_id != loan_id,
            decreases self.escrows@.len() - i,
        {
            if self.escrows[i].loan_id == loan_id {
                proof {
                    lemma_lookup_at(self.escrows@, escrow_key(), i as int);
                }
                return Some(i);
            }
            i += 1;
        }
        None
    }

    /// Sets the admin; only once.
    pub fn initialize(&mut self, admin: AccountId) -> (r: Result<(), EscrowError>)
        requires
            old(self)@.wf(),
        ensures
            final(self)@.wf(),
            old(self)@.admin is Some ==> r == Err::<(), EscrowError>(EscrowError::AlreadyInitialized)
                && final(self)@ == old(self)@,
            old(self)@.admin is None ==> r is Ok && final(self)@ == (EscrowBook {
                admin: Some(admin),
                ..old(self)@
            }),
    {
        if self.admin.is_some() {
            return Err(EscrowError::AlreadyInitialized);
        }
        self.admin = Some(admin);
        Ok(())
    }

    /// Takes `collateral_amount` of `collateral_token` from `borrower` into
    /// custody for loan `loan_id`, due `duration_seconds` from `now`.
    /// `Ok(false)` for a non-positive amount or a loan that already has an escrow.
    pub fn lock_collateral(
        &mut self,
        caller: AccountId,
        now: u64,
        loan_id: u64,
        borrower: AccountId,
        lender: AccountId,
        collateral_token: AccountId,
        collateral_amount: i128,
        loan_amount: i128,
        duration_seconds: u64,
    ) -> (r: Result<bool, EscrowError>)
        requires
            old(self)@.wf(),
        ensures
            final(self)@.wf(),
            ({
                let pre = old(self)@;
                let e = EscrowData {
                    borrower,
                    lender,
                    loan_id,
                    collateral_token,
                    collateral_amount,
                    loan_amount,
                    created_at: now,
                    due_date: (now + duration_seconds) as u64,
                    is_locked: true,
                    is_liquidated: false,
                };
                if caller != borrower {
                    r == Err::<bool, EscrowError>(EscrowError::Unauthorized) && final(self)@ == pre
                } else if collateral_amount <= 0 || loan_amount <= 0 || pre.escrow(loan_id) is Some {
                    r == Ok::<bool, EscrowError>(false) && final(self)@ == pre
                } else if now + duration_seconds > u64::MAX || pre.total_locked + collateral_amount
                    > i128::MAX {
                    r == Err::<bool, EscrowError>(EscrowError::Overflow) && final(self)@ == pre
                } else {
                    r == Ok::<bool, EscrowError>(true) && final(self)@ == (EscrowBook {
                        escrows: pre.escrows.push(e),
                        total_locked: (pre.total_locked + collateral_amount) as i128,
                        transfers: pre.transfers.push(
                            TokenTransfer {
                                token: collateral_token,
                                from: borrower,
                                to: pre.custody,
                                amount: collateral_amount,
                            },
                        ),
                        events: pre.events.push(
                            EscrowEvent::CollateralLocked { loan_id, borrower, amount: collateral_amount },
                        ),
                        ..pre
                    })
                }
            }),
    {
        let ghost pre = self@;
        if caller != borrower {
            return Err(EscrowError::Unauthorized);
        }
        if collateral_amount <= 0 || loan_amount <= 0 {
            return Ok(false);
        }
        if self.find(loan_id).is_some() {
            return Ok(false);
        }
        let due_date = match now.checked_add(duration_seconds) {
            Some(d) => d,
            None => {
                return Err(EscrowError::Overflow);
            },
        };
        let total = match self.total_locked.checked_add(collateral_amount) {
            Some(t) => t,
            None => {
                return Err(EscrowError::Overflow);
            },
        };
        self.transfers.push(
            TokenTransfer {
                token: collateral_token,
                from: borrower,
                to: self.custody,
                amount: collateral_amount,
            },
        );
        let e = EscrowData {
            borrower,
            lender,
            loan_id,
            collateral_token,
            collateral_amount,
            loan_amount,
            created_at: now,
            due_date,
            is_locked: true,
            is_liquidated: false,
        };
        self.escrows.push(e);
        self.total_locked = total;
        self.events.push(EscrowEvent::CollateralLocked { loan_id, borrower, amount: collateral_amount });
        proof {
            lemma_lookup_put(pre.escrows, escrow_key(), e);
            lemma_sum_push(pre.escrows, held_collateral(), e);
        }
        Ok(true)
    }

    /// Ends an open escrow: its collateral leaves custody for `to`.
    fn close(&mut self, i: usize, to: AccountId, liquidated: bool)
        requires
            old(self)@.wf(),
            i < old(self)@.escrows.len(),
            old(self)@.escrows[i as int].is_locked,
            old(self)@.is_open(old(self)@.escrows[i as int].loan_id),
            key_index(old(self)@.escrows, escrow_key(), old(self)@.escrows[i as int].loan_id) == i,
        ensures
            final(self)@.wf(),
            ({
                let pre = old(self)@;
                let e = pre.escrows[i as int];
                final(self)@ == EscrowBook {
                    escrows: pre.closed(e.loan_id, liquidated),
                    total_locked: (pre.total_locked - e.collateral_amount) as i128,
                    transfers: pre.transfers.push(
                        TokenTransfer {
                            token: e.collateral_token,
                            from: pre.custody,
                            to,
                            amount: e.collateral_amount,
                        },
                    ),
                    events: pre.events.push(
                        if liquidated {
                            EscrowEvent::Liquidated {
                                loan_id: e.loan_id,
                                borrower: e.borrower,
                                amount: e.collateral_amount,
                            }
                        } else {
                            EscrowEvent::CollateralReleased {
                                loan_id: e.loan_id,
                                borrower: e.borrower,
                                amount: e.collateral_amount,
                            }
                        },
                    ),
                    ..pre
                }
            }),
    {
        let ghost pre = self@;
        let e = self.escrows[i];
        proof {
            lemma_lookup_at(pre.escrows, escrow_key(), i as int);
            lemma_sum_update(pre.escrows, held_collateral(), i as int, EscrowData {
                is_locked: false,
                is_liquidated: e.is_liquidated || liquidated,
                ..e
            });
            let f = held_collateral();
            assert forall|j: int| 0 <= j < pre.escrows.len() implies #[trigger] f(pre.escrows[j]) >= 0 by {
                assert(pre.escrows[j].collateral_amount > 0);
            }
            crate::sums::lemma_sum_bounds_term(pre.escrows, f, i as int);
        }
        self.transfers.push(
            TokenTransfer {
                token: e.collateral_token,
                from: self.custody,
                to,
                amount: e.collateral_amount,
            },
        );
        let closed = EscrowData { is_locked: false, is_liquidated: e.is_liquidated || liquidated, ..e };
        self.escrows.set(i, closed);
        self.total_locked = self.total_locked - e.collateral_amount;
        if liquidated {
            self.events.push(
                EscrowEvent::Liquidated {
                    loan_id: e.loan_id,
                    borrower: e.borrower,
                    amount: e.collateral_amount,
                },
            );
        } else {
            self.events.push(
                EscrowEvent::CollateralReleased {
                    loan_id: e.loan_id,
                    borrower: e.borrower,
                    amount: e.collateral_amount,
                },
            );
        }
        proof {
            lemma_lookup_put(pre.escrows, escrow_key(), closed);
        }
    }

    /// The lender returns the collateral of loan `loan_id` to the borrower.
    /// `Ok(false)` where there is no open escrow for it.
    pub fn release_collateral(&mut self, caller: AccountId, loan_id: u64) -> (r: Result<bool, EscrowError>)
        requires
            old(self)@.wf(),
        ensures
            final(self)@.wf(),
            ({
                let pre = old(self)@;
                let e = pre.escrow(loan_id)->0;
                if !pre.is_open(loan_id) {
                    r == Ok::<bool, EscrowError>(false) && final(self)@ == pre
                } else if caller != e.lender {
                    r == Err::<bool, EscrowError>(EscrowError::Unauthorized) && final(self)@ == pre
                } else {
                    r == Ok::<bool, EscrowError>(true) && final(self)@ == (EscrowBook {
                        escrows: pre.closed(loan_id, false),
                        total_locked: (pre.total_locked - e.collateral_amount) as i128,
                        transfers: pre.transfers.push(
                            TokenTransfer {
                                token: e.collateral_token,
                                from: pre.custody,
                                to: e.borrower,
                                amount: e.collateral_amount,
                            },
                        ),
                        events: pre.events.push(
                            EscrowEvent::CollateralReleased {
                                loan_id,
                                borrower: e.borrower,
                                amount: e.collateral_amount,
                            },
                        ),
                        ..pre
                    })
                }
            }),
    {
        let i = match self.find(loan_id) {
            Some(i) => i,
            None => {
                return Ok(false);
            },
        };
        let e = self.escrows[i];
        if !e.is_locked || e.is_liquidated {
            return Ok(false);
        }
        if caller != e.lender {
            return Err(EscrowError::Unauthorized);
        }
        self.close(i, e.borrower, false);
        Ok(true)
    }

    /// The admin hands the collateral of loan `loan_id` to the lender.
    /// `Ok(false)` where there is no open escrow for it.
    pub fn liquidate(&mut self, caller: AccountId, loan_id: u64) -> (r: Result<bool, EscrowError>)
        requires
            old(self)@.wf(),
        ensures
            final(self)@.wf(),
            ({
                let pre = old(self)@;
                let e = pre.escrow(loan_id)->0;
                if pre.admin is None {
                    r == Err::<bool, EscrowError>(EscrowError::NotInitialized) && final(self)@ == pre
                } else if caller != pre.admin->0 {
                    r == Err::<bool, EscrowError>(EscrowError::Unauthorized) && final(self)@ == pre
                } else if !pre.is_open(loan_id) {
                    r == Ok::<bool, EscrowError>(false) && final(self)@ == pre
                } else {
                    r == Ok::<bool, EscrowError>(true) && final(self)@ == (EscrowBook {
                        escrows: pre.closed(loan_id, true),
                        total_locked: (pre.total_locked - e.collateral_amount) as i128,
                        transfers: pre.transfers.push(
                            TokenTransfer {
                                token: e.collateral_token,
                                from: pre.custody,
                                to: e.lender,
                                amount: e.collateral_amount,
                            },
                        ),
                        events: pre.events.push(
                            EscrowEvent::Liquidated {
                                loan_id,
                                borrower: e.borrower,
                                amount: e.collateral_amount,
                            },
                        ),
                        ..pre
                    })
                }
            }),
    {
        match self.admin {
            None => {
                return Err(EscrowError::NotInitialized);
            },
            Some(admin) => if caller != admin {
                return Err(EscrowError::Unauthorized);
            },
        }
        let i = match self.find(loan_id) {
            Some(i) => i,
            None => {
                return Ok(false);
            },
        };
        let e = self.escrows[i];
        if !e.is_locked || e.is_liquidated {
            return Ok(false);
        }
        self.close(i, e.lender, true);
        Ok(true)
    }

    pub fn get_escrow(&self, loan_id: u64) -> (r: Option<EscrowData>)
        requires
            self@.wf(),
        ensures
            r == self@.escrow(loan_id),
    {
        match self.find(loan_id) {
            Some(i) => Some(self.escrows[i]),
            None => None,
        }
    }

    /// Whether loan `loan_id` still has collateral locked past its due date.
    pub fn is_past_due(&self, now: u64, loan_id: u64) -> (r: bool)
        requires
            self@.wf(),
        ensures
            r == (self@.escrow(loan_id) is Some && self@.escrow(loan_id)->0.is_locked && now
                > self@.escrow(loan_id)->0.due_date),
    {
        match self.find(loan_id) {
            Some(i) => self.escrows[i].is_locked && now > self.escrows[i].due_date,
            None => false,
        }
    }

    /// The collateral currently held over all escrows.
    pub fn get_total_locked(&self) -> (r: i128)
        ensures
            r == self@.total_locked,
    {
        self.total_locked
    }

    /// Hands administration to `new_admin`; the caller must be the admin.
    pub fn update_admin(&mut self, caller: AccountId, new_admin: AccountId) -> (r: Result<(), EscrowError>)
        requires
            old(self)@.wf(),
        ensures
            final(self)@.wf(),
            old(self)@.admin is None ==> r == Err::<(), EscrowError>(EscrowError::NotInitialized)
                && final(self)@ == old(self)@,
            old(self)@.admin is Some && caller != old(self)@.admin->0 ==> r == Err::<(), EscrowError>(
                EscrowError::Unauthorized,
            ) && final(self)@ == old(self)@,
            old(self)@.admin == Some(caller) ==> r is Ok && final(self)@ == (EscrowBook {
                admin: Some(new_admin),
                ..old(self)@
            }),
    {
        match self.admin {
            None => Err(EscrowError::NotInitialized),
            Some(admin) => if caller != admin {
                Err(EscrowError::Unauthorized)
            } else {
                self.admin = Some(new_admin);
                Ok(())
            },
        }
    }

    pub fn get_admin(&self) -> (r: Option<AccountId>)
        ensures
            r == self@.admin,
    {
        self.admin
    }

    /// Every token movement committed so far, oldest first.
    pub fn transfers(&self) -> (r: &Vec<TokenTransfer>)
        ensures
            r@ == self@.transfers,
    {
        &self.transfers
    }

    pub fn events(&self) -> (r: &Vec<EscrowEvent>)
        ensures
            r@ == self@.events,
    {
        &self.events
    }
}

} // verus!
