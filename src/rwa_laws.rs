//! Laws of the asset ledger. Each operation of `RWAContract` keeps its view
//! well formed (`wf`), so what holds of every well-formed ledger holds after
//! any sequence of operations.
use vstd::prelude::*;

use crate::rwa_model::{active_value, kyc_valid, RwaError, RwaLedger};
use crate::token::{AccountId, TokenTransfer};

verus! {

/// Every asset's circulating supply lies between zero and its total supply.
pub proof fn lemma_supply_within_bounds(l: RwaLedger, asset_id: u64)
    requires
        l.wf(),
        l.asset(asset_id) is Some,
    ensures
        0 <= l.asset(asset_id)->0.circulating_supply <= l.asset(asset_id)->0.total_supply,
{
    assert(l.assets[asset_id - 1] == l.asset(asset_id)->0);
}

/// The units of an asset held over all investors' holdings equal its
/// circulating supply.
pub proof fn lemma_holdings_match_supply(l: RwaLedger, asset_id: u64)
    requires
        l.wf(),
        l.asset(asset_id) is Some,
    ensures
        l.held(asset_id) == l.asset(asset_id)->0.circulating_supply,
{
    assert(l.assets[asset_id - 1] == l.asset(asset_id)->0);
    assert(l.assets[asset_id - 1].asset_id == asset_id);
}

/// The value locked equals the summed valuation of the active assets.
pub proof fn lemma_tvl_is_active_value(l: RwaLedger)
    requires
        l.wf(),
    ensures
        l.tvl == active_value(l.assets),
{
}

/// A claim pays once: after a successful claim, claiming the same
/// distribution for the same investor again fails with `AlreadyClaimed` (and
/// so changes nothing), and the successful claim handed the host exactly one
/// transfer, of the payout from custody to the investor.
pub proof fn lemma_claim_pays_once(l: RwaLedger, caller: AccountId, distribution_id: u64, who: AccountId)
    requires
        l.wf(),
        l.claim_failure(caller, distribution_id, who) is None,
    ensures
        l.claim_effect(distribution_id, who).claim_failure(caller, distribution_id, who) == Some(
            RwaError::AlreadyClaimed,
        ),
        l.claim_effect(distribution_id, who).transfers == l.transfers.push(
            TokenTransfer {
                token: l.distribution(distribution_id)->0.distribution_token,
                from: l.custody,
                to: who,
                amount: l.payout(distribution_id, who) as i128,
            },
        ),
{
    let next = l.claim_effect(distribution_id, who);
    assert(next.claims[next.claims.len() - 1] == (distribution_id, who));
    assert(next.is_claimed(distribution_id, who));
}

/// An investment of exactly the asset's minimum passes every size check, and
/// one unit less is refused with `InvalidArgument`, where the minimum is
/// positive and every other check passes.
pub proof fn lemma_minimum_investment_boundary(
    l: RwaLedger,
    now: u64,
    asset_id: u64,
    who: AccountId,
    payment_amount: i128,
)
    requires
        l.wf(),
        !l.is_blacklisted(who),
        l.asset(asset_id) is Some,
        l.asset(asset_id)->0.is_active,
        l.asset(asset_id)->0.min_investment > 0,
        l.asset(asset_id)->0.circulating_supply + l.asset(asset_id)->0.min_investment
            <= l.asset(asset_id)->0.total_supply,
        payment_amount >= 0,
        l.investor(who) is Some,
        kyc_valid(l.investor(who)->0, now),
        !l.asset(asset_id)->0.accredited_only || l.investor(who)->0.is_accredited,
        l.investor(who)->0.total_invested + payment_amount <= i128::MAX,
    ensures
        l.invest_failure(who, now, asset_id, who, l.asset(asset_id)->0.min_investment, payment_amount)
            is None,
        l.invest_failure(
            who,
            now,
            asset_id,
            who,
            (l.asset(asset_id)->0.min_investment - 1) as i128,
            payment_amount,
        ) == Some(RwaError::InvalidArgument),
{
}

/// An investment that passes every check was made by an investor who meets
/// the eligibility predicate for the asset at that time.
pub proof fn lemma_investor_is_eligible(
    l: RwaLedger,
    caller: AccountId,
    now: u64,
    asset_id: u64,
    who: AccountId,
    amount: i128,
    payment_amount: i128,
)
    requires
        l.invest_failure(caller, now, asset_id, who, amount, payment_amount) is None,
    ensures
        l.eligible(now, asset_id, who),
{
}

/// A transfer that passes every check goes to a recipient who meets the
/// eligibility predicate for the asset at that time.
pub proof fn lemma_recipient_is_eligible(
    l: RwaLedger,
    caller: AccountId,
    now: u64,
    asset_id: u64,
    from: AccountId,
    to: AccountId,
    amount: i128,
)
    requires
        l.transfer_failure(caller, now, asset_id, from, to, amount) is None,
    ensures
        l.eligible(now, asset_id, to),
{
}

} // verus!
