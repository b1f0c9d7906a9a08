//! Installment loans: a lender funds a borrower, who repays in monthly
//! installments until the principal is covered.
use vstd::prelude::*;

use crate::keyed::{has_key, keys_unique, lemma_lookup_at, lemma_lookup_put, lookup, put};
use crate::token::{AccountId, TokenTransfer};

verus! {

/// Time between two installments, in seconds.
pub const EMI_PERIOD_SECONDS: u64 = 30 * 24 * 60 * 60;

#[derive(Clone, Copy, Debug, PartialEq, Eq, Structural)]
pub struct LoanData {
    pub borrower: AccountId,
    pub lender: AccountId,
    pub principal_amount: i128,
    pub amount_repaid: i128,
    pub interest_rate_bps: u32,
    pub tenure_months: u32,
    pub start_time: u64,
    pub next_emi_due: u64,
    pub is_active: bool,
    pub is_defaulted: bool,
}

/// One installment of a repayment schedule.
#[derive(Clone, Copy, Debug, PartialEq, Eq, Structural)]
pub struct EMISchedule {
    pub loan_id: u64,
    pub emi_number: u32,
    pub due_date: u64,
    pub principal_due: i128,
    pub interest_due: i128,
    pub total_due: i128,
    pub paid: bool,
    pub paid_date: u64,
}

#[derive(Clone, Copy, Debug, PartialEq, Eq, Structural)]
pub enum LoanError {
    Unauthorized,
    /// A negative repayment.
    InvalidArgument,
    /// A due date or the repaid total would leave its integer range.
    Overflow,
}

#[derive(Clone, Copy, Debug, PartialEq, Eq, Structural)]
pub enum LoanEvent {
    LoanCreated { loan_id: u64, borrower: AccountId, lender: AccountId, principal: i128 },
    EmiPaid { loan_id: u64, emi_number: u32, amount: i128 },
    LoanDefaulted { loan_id: u64 },
}

pub open spec fn loan_key() -> spec_fn((u64, LoanData)) -> u64 {
    |e: (u64, LoanData)| e.0
}

/// The abstract state of the loan book.
pub ghost struct LoanBook {
    pub loans: Seq<(u64, LoanData)>,
    pub transfers: Seq<TokenTransfer>,
    pub events: Seq<LoanEvent>,
}

impl LoanBook {
    pub open spec fn loan(self, loan_id: u64) -> Option<LoanData> {
        match lookup(self.loans, loan_key(), loan_id) {
            Some(e) => Some(e.1),
            None => None,
        }
    }

    pub open spec fn wf(self) -> bool {
        keys_unique(self.loans, loan_key())
    }

    /// The book with loan `loan_id` recorded as `l`.
    pub open spec fn with_loan(self, loan_id: u64, l: LoanData) -> Seq<(u64, LoanData)> {
        put(self.loans, loan_key(), (loan_id, l))
    }

    /// The loan after a repayment of `amount` at time `now`.
    pub open spec fn repaid(l: LoanData, now: u64, amount: i128) -> LoanData {
        let repaid = l.amount_repaid + amount;
        LoanData {
            amount_repaid: repaid as i128,
            next_emi_due: (now + EMI_PERIOD_SECONDS) as u64,
            is_active: l.is_active && repaid < l.principal_amount,
            ..l
        }
    }
}

/// Records installment loans between lenders and borrowers.
pub struct LoanContract {
    loans: Vec<(u64, LoanData)>,
    transfers: Vec<TokenTransfer>,
    events: Vec<LoanEvent>,
}

impl View for LoanContract {
    type V = LoanBook;

    closed spec fn view(&self) -> LoanBook {
        LoanBook { loans: self.loans@, transfers: self.transfers@, events: self.events@ }
    }
}

impl LoanContract {
    pub fn new() -> (r: Self)
        ensures
            r@.wf(),
            r@.loans.len() == 0,
            r@.transfers.len() == 0,
            r@.events.len() == 0,
    {
        LoanContract { loans: Vec::new(), transfers: Vec::new(), events: Vec::new() }
    }

    fn find(&self, loan_id: u64) -> (r: Option<usize>)
        requires
            self@.wf(),
        ensures
            match r {
                Some(i) => i < self.loans@.len() && self.loans@[i as int].0 == loan_id && self@.loan(loan_id)
                    == Some(self.loans@[i as int].1) && has_key(self.loans@, loan_key(), loan_id)
                    && crate::keyed::key_index(self.loans@, loan_key(), loan_id) == i,
                None => !has_key(self.loans@, loan_key(), loan_id) && self@.loan(loan_id) is None,
            },
    {
        let mut i: usize = 0;
        while i < self.loans.len()
            invariant
                self@.wf(),
                i <= self.loans@.len(),
                forall|j: int| 0 <= j < i ==> self.loans@[j].0 != loan_id,
            decreases self.loans@.len() - i,
        {
            if self.loans[i].0 == loan_id {
                proof {
                    lemma_lookup_at(self.loans@, loan_key(), i as int);
                }
                return Some(i);
            }
            i += 1;
        }
        None
    }

    /// The lender funds loan `loan_id`: `principal` of `token` goes to the
    /// borrower. `Ok(false)` for a non-positive principal or a zero tenure.
    /// An existing loan with the same id is replaced.
    pub fn create_loan(
        &mut self,
        caller: AccountId,
        now: u64,
        loan_id: u64,
        borrower: AccountId,
        lender: AccountId,
        principal: i128,
        interest_rate_bps: u32,
        tenure_months: u32,
        token: AccountId,
    ) -> (r: Result<bool, LoanError>)
        requires
            old(self)@.wf(),
        ensures
            final(self)@.wf(),
            ({
                let pre = old(self)@;
                if caller != lender {
                    r == Err::<bool, LoanError>(LoanError::Unauthorized) && final(self)@ == pre
                } else if principal <= 0 || tenure_months == 0 {
                    r == Ok::<bool, LoanError>(false) && final(self)@ == pre
                } else if now + EMI_PERIOD_SECONDS > u64::MAX {
                    r == Err::<bool, LoanError>(LoanError::Overflow) && final(self)@ == pre
                } else {
                    r == Ok::<bool, LoanError>(true) && final(self)@ == LoanBook {
                        loans: pre.with_loan(
                            loan_id,
                            LoanData {
                                borrower,
                                lender,
                                principal_amount: principal,
                                amount_repaid: 0,
                                interest_rate_bps,
                                tenure_months,
                                start_time: now,
                                next_emi_due: (now + EMI_PERIOD_SECONDS) as u64,
                                is_active: true,
                                is_defaulted: false,
                            },
                        ),
                        transfers: pre.transfers.push(
                            TokenTransfer { token, from: lender, to: borrower, amount: principal },
                        ),
                        events: pre.events.push(
                            LoanEvent::LoanCreated { loan_id, borrower, lender, principal },
                        ),
                    }
                }
            }),
    {
        let ghost pre = self@;
        if caller != lender {
            return Err(LoanError::Unauthorized);
        }
        if principal <= 0 || tenure_months == 0 {
            return Ok(false);
        }
        let next_emi_due = match now.checked_add(EMI_PERIOD_SECONDS) {
            Some(t) => t,
            None => {
                return Err(LoanError::Overflow);
            },
        };
        let loan = LoanData {
            borrower,
            lender,
            principal_amount: principal,
            amount_repaid: 0,
            interest_rate_bps,
            tenure_months,
            start_time: now,
            next_emi_due,
            is_active: true,
            is_defaulted: false,
        };
        match self.find(loan_id) {
            Some(i) => {
                self.loans.set(i, (loan_id, loan));
            },
            None => {
                self.loans.push((loan_id, loan));
            },
        }
        self.transfers.push(TokenTransfer { token, from: lender, to: borrower, amount: principal });
        self.events.push(LoanEvent::LoanCreated { loan_id, borrower, lender, principal });
        proof {
            lemma_lookup_put(pre.loans, loan_key(), (loan_id, loan));
        }
        Ok(true)
    }

    /// The borrower pays installment `emi_number` of `amount` in `token` to
    /// the lender; the loan closes once the principal is repaid.
    /// `Ok(false)` where the loan is unknown or no longer active.
    pub fn pay_emi(
        &mut self,
        caller: AccountId,
        now: u64,
        loan_id: u64,
        emi_number: u32,
        token: AccountId,
        amount: i128,
    ) -> (r: Result<bool, LoanError>)
        requires
            old(self)@.wf(),
        ensures
            final(self)@.wf(),
            ({
                let pre = old(self)@;
                let l = pre.loan(loan_id)->0;
                if pre.loan(loan_id) is None || !l.is_active {
                    r == Ok::<bool, LoanError>(false) && final(self)@ == pre
                } else if caller != l.borrower {
                    r == Err::<bool, LoanError>(LoanError::Unauthorized) && final(self)@ == pre
                } else if amount < 0 {
                    r == Err::<bool, LoanError>(LoanError::InvalidArgument) && final(self)@ == pre
                } else if l.amount_repaid + amount > i128::MAX || now + EMI_PERIOD_SECONDS > u64::MAX {
                    r == Err::<bool, LoanError>(LoanError::Overflow) && final(self)@ == pre
                } else {
                    r == Ok::<bool, LoanError>(true) && final(self)@ == LoanBook {
                        loans: pre.with_loan(loan_id, LoanBook::repaid(l, now, amount)),
                        transfers: pre.transfers.push(
                            TokenTransfer { token, from: l.borrower, to: l.lender, amount },
                        ),
                        events: pre.events.push(LoanEvent::EmiPaid { loan_id, emi_number, amount }),
                    }
                }
            }),
    {
        let ghost pre = self@;
        let i = match self.find(loan_id) {
            Some(i) => i,
            None => {
                return Ok(false);
            },
        };
        let l = self.loans[i].1;
        if !l.is_active {
            return Ok(false);
        }
        if caller != l.borrower {
            return Err(LoanError::Unauthorized);
        }
        if amount < 0 {
            return Err(LoanError::InvalidArgument);
        }
        let repaid = match l.amount_repaid.checked_add(amount) {
            Some(t) => t,
            None => {
                return Err(LoanError::Overflow);
            },
        };
        let next_emi_due = match now.checked_add(EMI_PERIOD_SECONDS) {
            Some(t) => t,
            None => {
                return Err(LoanError::Overflow);
            },
        };
        self.transfers.push(TokenTransfer { token, from: l.borrower, to: l.lender, amount });
        let updated = LoanData {
            amount_repaid: repaid,
            next_emi_due,
            is_active: repaid < l.principal_amount,
            ..l
        };
        self.loans.set(i, (loan_id, updated));
        self.events.push(LoanEvent::EmiPaid { loan_id, emi_number, amount });
        proof {
            assert(updated == LoanBook::repaid(l, now, amount));
            lemma_lookup_put(pre.loans, loan_key(), (loan_id, updated));
        }
        Ok(true)
    }

    pub fn get_loan(&self, loan_id: u64) -> (r: Option<LoanData>)
        requires
            self@.wf(),
        ensures
            r == self@.loan(loan_id),
    {
        match self.find(loan_id) {
            Some(i) => Some(self.loans[i].1),
            None => None,
        }
    }

    /// The lender marks loan `loan_id` as defaulted. `Ok(false)` where the
    /// loan is unknown or already defaulted.
    pub fn mark_default(&mut self, caller: AccountId, loan_id: u64) -> (r: Result<bool, LoanError>)
        requires
            old(self)@.wf(),
        ensures
            final(self)@.wf(),
            ({
                let pre = old(self)@;
                let l = pre.loan(loan_id)->0;
                if pre.loan(loan_id) is None {
                    r == Ok::<bool, LoanError>(false) && final(self)@ == pre
                } else if caller != l.lender {
                    r == Err::<bool, LoanError>(LoanError::Unauthorized) && final(self)@ == pre
                } else if l.is_defaulted {
                    r == Ok::<bool, LoanError>(false) && final(self)@ == pre
                } else {
                    r == Ok::<bool, LoanError>(true) && final(self)@ == LoanBook {
                        loans: pre.with_loan(loan_id, LoanData { is_defaulted: true, ..l }),
                        events: pre.events.push(LoanEvent::LoanDefaulted { loan_id }),
                        ..pre
                    }
                }
            }),
    {
        let ghost pre = self@;
        let i = match self.find(loan_id) {
            Some(i) => i,
            None => {
                return Ok(false);
            },
        };
        let l = self.loans[i].1;
        if caller != l.lender {
            return Err(LoanError::Unauthorized);
        }
        if l.is_defaulted {
            return Ok(false);
        }
        let updated = LoanData { is_defaulted: true, ..l };
        self.loans.set(i, (loan_id, updated));
        self.events.push(LoanEvent::LoanDefaulted { loan_id });
        proof {
            lemma_lookup_put(pre.loans, loan_key(), (loan_id, updated));
        }
        Ok(true)
    }

    /// Every token movement committed so far, oldest first.
    pub fn transfers(&self) -> (r: &Vec<TokenTransfer>)
        ensures
            r@ == self@.transfers,
    {
        &self.transfers
    }

    pub fn events(&self) -> (r: &Vec<LoanEvent>)
        ensures
            r@ == self@.events,
    {
        &self.events
    }
}

} // verus!
