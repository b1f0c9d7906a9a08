use vstd::prelude::*;

verus! {

/// An account on the host ledger: a user, a custodian, a token contract or
/// a contract's own custody account.
pub type AccountId = u64;

/// A movement of `amount` units of the fungible token `token` from `from`
/// to `to`, to be carried out by the host's transfer service.
#[derive(Clone, Copy, Debug, PartialEq, Eq, Structural)]
pub struct TokenTransfer {
    pub token: AccountId,
    pub from: AccountId,
    pub to: AccountId,
    pub amount: i128,
}

} // verus!
