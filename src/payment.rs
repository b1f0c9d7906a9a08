//! Direct payments: single, batched, and with a memo.
use vstd::prelude::*;

use crate::token::{AccountId, TokenTransfer};

verus! {

#[derive(Clone, Copy, Debug, PartialEq, Eq, Structural)]
pub enum PaymentError {
    Unauthorized,
}

#[derive(Clone, Debug)]
pub enum PaymentEvent {
    Payment { from: AccountId, to: AccountId, amount: i128 },
    BatchPayment { from: AccountId, recipients: usize, amounts: usize },
    PaymentWithMemo { from: AccountId, to: AccountId, amount: i128, memo: String },
}

/// The transfers that a batch makes for its first `n` entries: one for
/// each positive amount, in order.
pub open spec fn batch_transfers(
    token: AccountId,
    from: AccountId,
    recipients: Seq<AccountId>,
    amounts: Seq<i128>,
    n: nat,
) -> Seq<TokenTransfer>
    decreases n,
{
    if n == 0 {
        Seq::empty()
    } else {
        let earlier = batch_transfers(token, from, recipients, amounts, (n - 1) as nat);
        if amounts[n - 1] > 0 {
            earlier.push(
                TokenTransfer { token, from, to: recipients[n - 1], amount: amounts[n - 1] },
            )
        } else {
            earlier
        }
    }
}

/// The abstract state of the payment relay.
pub ghost struct PaymentLog {
    pub transfers: Seq<TokenTransfer>,
    pub events: Seq<PaymentEvent>,
}

/// Relays payments between accounts.
pub struct PaymentContract {
    transfers: Vec<TokenTransfer>,
    events: Vec<PaymentEvent>,
}

impl View for PaymentContract {
    type V = PaymentLog;

    closed spec fn view(&self) -> PaymentLog {
        PaymentLog { transfers: self.transfers@, events: self.events@ }
    }
}

impl PaymentContract {
    pub fn new() -> (r: Self)
        ensures
            r@.transfers.len() == 0,
            r@.events.len() == 0,
    {
        PaymentContract { transfers: Vec::new(), events: Vec::new() }
    }

    /// Pays `amount` of `token` from `from` to `to`; `Ok(false)` for a
    /// non-positive amount.
    pub fn pay(&mut self, caller: AccountId, token: AccountId, from: AccountId, to: AccountId, amount: i128) -> (r:
        Result<bool, PaymentError>)
        ensures
            caller != from ==> r == Err::<bool, PaymentError>(PaymentError::Unauthorized) && final(self)@
                == old(self)@,
            caller == from && amount <= 0 ==> r == Ok::<bool, PaymentError>(false) && final(self)@ == old(
                self,
            )@,
            caller == from && amount > 0 ==> r == Ok::<bool, PaymentError>(true) && final(self)@ == (
            PaymentLog {
                transfers: old(self)@.transfers.push(TokenTransfer { token, from, to, amount }),
                events: old(self)@.events.push(PaymentEvent::Payment { from, to, amount }),
            }),
    {
        if caller != from {
            return Err(PaymentError::Unauthorized);
        }
        if amount <= 0 {
            return Ok(false);
        }
        self.transfers.push(TokenTransfer { token, from, to, amount });
        self.events.push(PaymentEvent::Payment { from, to, amount });
        Ok(true)
    }

    /// Pays `amounts[i]` of `token` from `from` to `recipients[i]` for every
    /// positive amount; `Ok(false)` where the two lists differ in length.
    pub fn batch_pay(
        &mut self,
        caller: AccountId,
        token: AccountId,
        from: AccountId,
        recipients: Vec<AccountId>,
        amounts: Vec<i128>,
    ) -> (r: Result<bool, PaymentError>)
        ensures
            caller != from ==> r == Err::<bool, PaymentError>(PaymentError::Unauthorized) && final(self)@
                == old(self)@,
            caller == from && recipients.len() != amounts.len() ==> r == Ok::<bool, PaymentError>(false)
                && final(self)@ == old(self)@,
            caller == from && recipients.len() == amounts.len() ==> r == Ok::<bool, PaymentError>(true)
                && final(self)@ == (PaymentLog {
                transfers: old(self)@.transfers + batch_transfers(
                    token,
                    from,
                    recipients@,
                    amounts@,
                    recipients.len() as nat,
                ),
                events: old(self)@.events.push(
                    PaymentEvent::BatchPayment {
                        from,
                        recipients: recipients.len(),
                        amounts: amounts.len(),
                    },
                ),
            }),
    {
        if caller != from {
            return Err(PaymentError::Unauthorized);
        }
        if recipients.len() != amounts.len() {
            return Ok(false);
        }
        let ghost pre = self@;
        let mut i: usize = 0;
        while i < recipients.len()
            invariant
                recipients.len() == amounts.len(),
                i <= recipients.len(),
                self.events@ == pre.events,
                self.transfers@ == pre.transfers + batch_transfers(
                    token,
                    from,
                    recipients@,
                    amounts@,
                    i as nat,
                ),
            decreases recipients.len() - i,
        {
            if amounts[i] > 0 {
                self.transfers.push(
                    TokenTransfer { token, from, to: recipients[i], amount: amounts[i] },
                );
            }
            proof {
                assert(self.transfers@ =~= pre.transfers + batch_transfers(
                    token,
                    from,
                    recipients@,
                    amounts@,
                    (i + 1) as nat,
                ));
            }
            i += 1;
        }
        self.events.push(
            PaymentEvent::BatchPayment { from, recipients: recipients.len(), amounts: amounts.len() },
        );
        Ok(true)
    }

    /// As `pay`, with a memo carried in the announcement.
    pub fn pay_with_memo(
        &mut self,
        caller: AccountId,
        token: AccountId,
        from: AccountId,
        to: AccountId,
        amount: i128,
        memo: String,
    ) -> (r: Result<bool, PaymentError>)
        ensures
            caller != from ==> r == Err::<bool, PaymentError>(PaymentError::Unauthorized) && final(self)@
                == old(self)@,
            caller == from && amount <= 0 ==> r == Ok::<bool, PaymentError>(false) && final(self)@ == old(
                self,
            )@,
            caller == from && amount > 0 ==> r == Ok::<bool, PaymentError>(true) && final(self)@ == (
            PaymentLog {
                transfers: old(self)@.transfers.push(TokenTransfer { token, from, to, amount }),
                events: old(self)@.events.push(PaymentEvent::PaymentWithMemo { from, to, amount, memo }),
            }),
    {
        if caller != from {
            return Err(PaymentError::Unauthorized);
        }
        if amount <= 0 {
            return Ok(false);
        }
        self.transfers.push(TokenTransfer { token, from, to, amount });
        self.events.push(PaymentEvent::PaymentWithMemo { from, to, amount, memo });
        Ok(true)
    }

    /// Every token movement committed so far, oldest first.
    pub fn transfers(&self) -> (r: &Vec<TokenTransfer>)
        ensures
            r@ == self@.transfers,
    {
        &self.transfers
    }

    pub fn events(&self) -> (r: &Vec<PaymentEvent>)
        ensures
            r@ == self@.events,
    {
        &self.events
    }
}

} // verus!
