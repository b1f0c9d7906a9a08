use vstd::prelude::*;

use crate::keyed::{has_key, key_index, keys_unique, lemma_lookup_at, lemma_lookup_put, lookup, put};
use crate::rwa_model::{
    active_value, country_key, flag_key, holding_key, holding_share, holdings_total, investor_key,
    locked_value, trunc_div, AssetType, CountryRule, Distribution, Holding, Investor,
    RWAAsset, RwaError, RwaEvent, RwaLedger,
};
use crate::sums::{lemma_sum_bounds_term, lemma_sum_push, lemma_sum_update, lemma_sum_zero};
use crate::token::{AccountId, TokenTransfer};

verus! {

/// A ledger of tokenized real-world assets: compliance registry, asset
/// registry, holdings, investment, transfers and pro-rata distributions.
pub struct RWAContract {
    custody: AccountId,
    admin: Option<AccountId>,
    assets: Vec<RWAAsset>,
    asset_tokens: Vec<AccountId>,
    investors: Vec<Investor>,
    holdings: Vec<Holding>,
    distributions: Vec<Distribution>,
    claims: Vec<(u64, AccountId)>,
    countries: Vec<CountryRule>,
    blacklist: Vec<(AccountId, bool)>,
    tvl: i128,
    transfers: Vec<TokenTransfer>,
    events: Vec<RwaEvent>,
}

impl View for RWAContract {
    type V = RwaLedger;

    closed spec fn view(&self) -> RwaLedger {
        RwaLedger {
            custody: self.custody,
            admin: self.admin,
            assets: self.assets@,
            asset_tokens: self.asset_tokens@,
            investors: self.investors@,
            holdings: self.holdings@,
            distributions: self.distributions@,
            claims: self.claims@,
            countries: self.countries@,
            blacklist: self.blacklist@,
            tvl: self.tvl,
            transfers: self.transfers@,
            events: self.events@,
        }
    }
}

/// The mean of two non-negative prices, rounded down, computed without overflow.
fn mean_price(a: i128, b: i128) -> (r: i128)
    requires
        a >= 0,
        b >= 0,
    ensures
        r == (a + b) / 2,
        r >= 0,
{
    let r = a / 2 + b / 2 + (a % 2 + b % 2) / 2;
    assert(r == (a + b) / 2) by (nonlinear_arith)
        requires
            a >= 0,
            b >= 0,
            r == a / 2 + b / 2 + (a % 2 + b % 2) / 2,
    ;
    r
}


/// A holding never exceeds the circulating supply of its asset.
proof fn lemma_holding_bounded(l: RwaLedger, i: int)
    requires
        l.wf(),
        0 <= i < l.holdings.len(),
    ensures
        l.holdings[i].amount <= l.assets[l.holdings[i].asset_id - 1].circulating_supply,
{
    let a = l.holdings[i].asset_id;
    let f = holding_share(a);
    assert forall|j: int| 0 <= j < l.holdings.len() implies #[trigger] f(l.holdings[j]) >= 0 by {
        assert(l.holdings[j].amount >= 0);
    }
    lemma_sum_bounds_term(l.holdings, f, i);
    assert(l.assets[a - 1].asset_id == a);
}

/// How the units held of each asset change when one holding is put in place.
proof fn lemma_holdings_put(hs: Seq<Holding>, h: Holding)
    requires
        keys_unique(hs, holding_key()),
    ensures
        keys_unique(put(hs, holding_key(), h), holding_key()),
        forall|a: u64|
            #[trigger] holdings_total(put(hs, holding_key(), h), a) == holdings_total(hs, a) - (
            if h.asset_id == a && has_key(hs, holding_key(), (h.asset_id, h.investor)) {
                lookup(hs, holding_key(), (h.asset_id, h.investor))->0.amount as int
            } else {
                0
            }) + (if h.asset_id == a {
                h.amount as int
            } else {
                0
            }),
        forall|k: (u64, AccountId)|
            #[trigger] lookup(put(hs, holding_key(), h), holding_key(), k) == if k == (
                h.asset_id,
                h.investor,
            ) {
                Some(h)
            } else {
                lookup(hs, holding_key(), k)
            },
{
    lemma_lookup_put(hs, holding_key(), h);
    let k = (h.asset_id, h.investor);
    assert forall|a: u64|
        #[trigger] holdings_total(put(hs, holding_key(), h), a) == holdings_total(hs, a) - (
        if h.asset_id == a && has_key(hs, holding_key(), k) {
            lookup(hs, holding_key(), k)->0.amount as int
        } else {
            0
        }) + (if h.asset_id == a {
            h.amount as int
        } else {
            0
        }) by {
        if has_key(hs, holding_key(), k) {
            let i = key_index(hs, holding_key(), k);
            lemma_sum_update(hs, holding_share(a), i, h);
        } else {
            lemma_sum_push(hs, holding_share(a), h);
        }
    }
}

/// With no negative holding, a holding is at most the units held of its asset.
proof fn lemma_share_bounded(hs: Seq<Holding>, i: int)
    requires
        forall|j: int| 0 <= j < hs.len() ==> (#[trigger] hs[j]).amount >= 0,
        0 <= i < hs.len(),
    ensures
        hs[i].amount <= holdings_total(hs, hs[i].asset_id),
{
    let f = holding_share(hs[i].asset_id);
    assert forall|j: int| 0 <= j < hs.len() implies #[trigger] f(hs[j]) >= 0 by {
        assert(hs[j].amount >= 0);
    }
    lemma_sum_bounds_term(hs, f, i);
}

/// Replacing asset `i` by `b`, which differs from it in neither id, supply
/// bounds, activity nor valuation, against holdings that match the new
/// supply, keeps the ledger well formed.
proof fn lemma_asset_update(l: RwaLedger, i: int, b: RWAAsset, hs: Seq<Holding>)
    requires
        0 <= i < l.assets.len(),
        b.asset_id == l.assets[i].asset_id,
        b.is_active,
        0 <= b.circulating_supply <= b.total_supply,
        holdings_total(hs, b.asset_id) == b.circulating_supply,
        forall|j: int|
            0 <= j < l.assets.len() && j != i ==> holdings_total(hs, #[trigger] l.assets[j].asset_id)
                == holdings_total(l.holdings, l.assets[j].asset_id),
        l.wf(),
    ensures
        forall|j: int| 0 <= j < l.assets.update(i, b).len() ==> {
            let a = #[trigger] l.assets.update(i, b)[j];
            &&& a.asset_id == j + 1
            &&& 0 <= a.circulating_supply <= a.total_supply
            &&& a.is_active
            &&& holdings_total(hs, a.asset_id) == a.circulating_supply
        },
        active_value(l.assets.update(i, b)) == active_value(l.assets) - l.assets[i].asset_value_usd
            + b.asset_value_usd,
{
    lemma_sum_update(l.assets, locked_value(), i, b);
}

impl RWAContract {
    /// Makes `admin` the ledger's administrator; only once, and only by `admin`.
    pub fn initialize(&mut self, caller: AccountId, admin: AccountId) -> (r: Result<(), RwaError>)
        requires
            old(self)@.wf(),
        ensures
            final(self)@.wf(),
            match old(self)@.initialize_failure(caller, admin) {
                Some(e) => r == Err::<(), RwaError>(e) && final(self)@ == old(self)@,
                None => r is Ok && final(self)@ == old(self)@.initialize_effect(admin),
            },
    {
        if self.admin.is_some() {
            return Err(RwaError::AlreadyInitialized);
        }
        if caller != admin {
            return Err(RwaError::Unauthorized);
        }
        self.admin = Some(admin);
        self.events.push(RwaEvent::Initialized { admin });
        Ok(())
    }

    /// Hands administration to `new_admin`; the caller must be the admin.
    pub fn set_admin(&mut self, caller: AccountId, new_admin: AccountId) -> (r: Result<(), RwaError>)
        requires
            old(self)@.wf(),
        ensures
            final(self)@.wf(),
            match old(self)@.admin_failure(caller) {
                Some(e) => r == Err::<(), RwaError>(e) && final(self)@ == old(self)@,
                None => r is Ok && final(self)@ == old(self)@.set_admin_effect(new_admin),
            },
    {
        match self.check_admin(caller) {
            Ok(_) => {},
            Err(e) => {
                return Err(e);
            },
        }
        self.admin = Some(new_admin);
        self.events.push(RwaEvent::AdminUpdated { admin: new_admin });
        Ok(())
    }

    /// Allows or forbids registration of investors from `country_code`.
    pub fn whitelist_country(&mut self, caller: AccountId, country_code: String, allowed: bool) -> (r: Result<
        (),
        RwaError,
    >)
        requires
            old(self)@.wf(),
        ensures
            final(self)@.wf(),
            match old(self)@.admin_failure(caller) {
                Some(e) => r == Err::<(), RwaError>(e) && final(self)@ == old(self)@,
                None => r is Ok && final(self)@ == old(self)@.whitelist_country_effect(country_code, allowed),
            },
    {
        let ghost pre = self@;
        match self.check_admin(caller) {
            Ok(_) => {},
            Err(e) => {
                return Err(e);
            },
        }
        let rule = CountryRule { code: country_code.clone(), allowed };
        match self.find_country(&country_code) {
            Some(i) => {
                proof {
                    lemma_lookup_at(pre.countries, country_key(), i as int);
                }
                self.countries.set(i, rule);
            },
            None => {
                self.countries.push(rule);
            },
        }
        self.events.push(RwaEvent::CountryWhitelisted { country_code, allowed });
        proof {
            lemma_lookup_put(pre.countries, country_key(), rule);
        }
        Ok(())
    }

    /// Sets whether `address` is barred from investing and transferring.
    pub fn blacklist_address(&mut self, caller: AccountId, address: AccountId, blacklisted: bool) -> (r: Result<
        (),
        RwaError,
    >)
        requires
            old(self)@.wf(),
        ensures
            final(self)@.wf(),
            match old(self)@.admin_failure(caller) {
                Some(e) => r == Err::<(), RwaError>(e) && final(self)@ == old(self)@,
                None => r is Ok && final(self)@ == old(self)@.blacklist_address_effect(address, blacklisted),
            },
    {
        let ghost pre = self@;
        match self.check_admin(caller) {
            Ok(_) => {},
            Err(e) => {
                return Err(e);
            },
        }
        match self.find_flag(address) {
            Some(i) => {
                proof {
                    lemma_lookup_at(pre.blacklist, flag_key(), i as int);
                }
                self.blacklist.set(i, (address, blacklisted));
            },
            None => {
                self.blacklist.push((address, blacklisted));
            },
        }
        self.events.push(RwaEvent::AddressBlacklisted { address, blacklisted });
        proof {
            lemma_lookup_put(pre.blacklist, flag_key(), (address, blacklisted));
        }
        Ok(())
    }

    /// Records `investor_address` as KYC-verified until `kyc_expiry`; the
    /// country must be whitelisted. A second registration replaces the first.
    pub fn register_investor(
        &mut self,
        caller: AccountId,
        now: u64,
        investor_address: AccountId,
        is_accredited: bool,
        country_code: String,
        kyc_expiry: u64,
    ) -> (r: Result<bool, RwaError>)
        requires
            old(self)@.wf(),
        ensures
            final(self)@.wf(),
            match old(self)@.register_investor_failure(caller, country_code@) {
                Some(e) => r == Err::<bool, RwaError>(e) && final(self)@ == old(self)@,
                None => r == Ok::<bool, RwaError>(true) && final(self)@ == old(self)@.register_investor_effect(
                    now,
                    investor_address,
                    is_accredited,
                    country_code,
                    kyc_expiry,
                ),
            },
    {
        let ghost pre = self@;
        match self.check_admin(caller) {
            Ok(_) => {},
            Err(e) => {
                return Err(e);
            },
        }
        let allowed = match self.find_country(&country_code) {
            Some(i) => {
                proof {
                    lemma_lookup_at(pre.countries, country_key(), i as int);
                }
                self.countries[i].allowed
            },
            None => false,
        };
        if !allowed {
            return Err(RwaError::ComplianceViolation);
        }
        let inv = Investor {
            address: investor_address,
            is_accredited,
            is_kyc_verified: true,
            kyc_expiry,
            country_code: country_code.clone(),
            total_invested: 0,
            registered_at: now,
        };
        match self.find_investor(investor_address) {
            Some(i) => {
                proof {
                    lemma_lookup_at(pre.investors, investor_key(), i as int);
                }
                self.investors.set(i, inv);
            },
            None => {
                self.investors.push(inv);
            },
        }
        self.events.push(
            RwaEvent::InvestorRegistered { investor: investor_address, is_accredited, country_code },
        );
        proof {
            lemma_lookup_put(pre.investors, investor_key(), inv);
        }
        Ok(true)
    }

    /// Sets the accreditation of a registered investor; `Ok(false)` where
    /// `investor_address` is not registered.
    pub fn update_accreditation(&mut self, caller: AccountId, investor_address: AccountId, is_accredited: bool) -> (r:
        Result<bool, RwaError>)
        requires
            old(self)@.wf(),
        ensures
            final(self)@.wf(),
            match old(self)@.admin_failure(caller) {
                Some(e) => r == Err::<bool, RwaError>(e) && final(self)@ == old(self)@,
                None => if old(self)@.investor(investor_address) is None {
                    r == Ok::<bool, RwaError>(false) && final(self)@ == old(self)@
                } else {
                    r == Ok::<bool, RwaError>(true) && final(self)@
                        == old(self)@.update_accreditation_effect(investor_address, is_accredited)
                },
            },
    {
        let ghost pre = self@;
        match self.check_admin(caller) {
            Ok(_) => {},
            Err(e) => {
                return Err(e);
            },
        }
        let i = match self.find_investor(investor_address) {
            Some(i) => i,
            None => {
                proof {
                    crate::keyed::lemma_lookup_absent(pre.investors, investor_key(), investor_address);
                }
                return Ok(false);
            },
        };
        proof {
            lemma_lookup_at(pre.investors, investor_key(), i as int);
        }
        self.investors[i].is_accredited = is_accredited;
        self.events.push(RwaEvent::AccreditationUpdated { investor: investor_address, is_accredited });
        proof {
            lemma_lookup_put(pre.investors, investor_key(), self@.investors[i as int]);
        }
        Ok(true)
    }

    /// Whether `investor_address` may hold asset `asset_id` at time `now`;
    /// never fails.
    pub fn check_eligibility(&self, now: u64, asset_id: u64, investor_address: AccountId) -> (r: bool)
        requires
            self@.wf(),
        ensures
            r == self@.eligible(now, asset_id, investor_address),
    {
        if self.blacklisted(investor_address) {
            return false;
        }
        if asset_id == 0 || asset_id > self.assets.len() as u64 {
            return false;
        }
        let idx = (asset_id - 1) as usize;
        if !self.assets[idx].is_active {
            return false;
        }
        let i = match self.find_investor(investor_address) {
            Some(i) => i,
            None => {
                return false;
            },
        };
        proof {
            lemma_lookup_at(self@.investors, investor_key(), i as int);
        }
        if !self.investors[i].is_kyc_verified || self.investors[i].kyc_expiry < now {
            return false;
        }
        if self.assets[idx].accredited_only && !self.investors[i].is_accredited {
            return false;
        }
        true
    }

    /// Valuation per unit of supply, truncated; 0 where there is no such asset.
    pub fn get_token_price(&self, asset_id: u64) -> (r: i128)
        requires
            self@.wf(),
        ensures
            r == match self@.asset(asset_id) {
                None => 0,
                Some(a) => if a.total_supply == 0 {
                    0
                } else {
                    trunc_div(a.asset_value_usd as int, a.total_supply as int)
                },
            },
    {
        if asset_id == 0 || asset_id > self.assets.len() as u64 {
            return 0;
        }
        let a = &self.assets[(asset_id - 1) as usize];
        if a.total_supply == 0 {
            return 0;
        }
        a.asset_value_usd / a.total_supply
    }

    /// The account that administers the ledger, if `caller` is it.
    fn check_admin(&self, caller: AccountId) -> (r: Result<AccountId, RwaError>)
        ensures
            match self@.admin_failure(caller) {
                Some(e) => r == Err::<AccountId, RwaError>(e),
                None => r == Ok::<AccountId, RwaError>(self@.admin->0),
            },
    {
        match self.admin {
            None => Err(RwaError::NotInitialized),
            Some(admin) => if caller != admin {
                Err(RwaError::Unauthorized)
            } else {
                Ok(admin)
            },
        }
    }

    fn claimed(&self, distribution_id: u64, who: AccountId) -> (r: bool)
        ensures
            r == self@.is_claimed(distribution_id, who),
    {
        let mut i: usize = 0;
        while i < self.claims.len()
            invariant
                i <= self.claims@.len(),
                forall|j: int| 0 <= j < i ==> self.claims@[j] != (distribution_id, who),
            decreases self.claims@.len() - i,
        {
            if self.claims[i].0 == distribution_id && self.claims[i].1 == who {
                assert(self.claims@[i as int] == (distribution_id, who));
                return true;
            }
            i += 1;
        }
        false
    }

    /// Registers a new asset with the next free id; the caller must be the admin.
    pub fn create_asset(
        &mut self,
        caller: AccountId,
        now: u64,
        name: String,
        symbol: String,
        asset_type: AssetType,
        total_supply: i128,
        asset_value_usd: i128,
        custodian: AccountId,
        token_address: AccountId,
        min_investment: i128,
        accredited_only: bool,
    ) -> (r: Result<u64, RwaError>)
        requires
            old(self)@.wf(),
        ensures
            final(self)@.wf(),
            match old(self)@.create_asset_failure(caller, total_supply, asset_value_usd) {
                Some(e) => r == Err::<u64, RwaError>(e) && final(self)@ == old(self)@,
                None => r == Ok::<u64, RwaError>((old(self)@.assets.len() + 1) as u64) && final(self)@
                    == old(self)@.create_asset_effect(
                    now,
                    name,
                    symbol,
                    asset_type,
                    total_supply,
                    asset_value_usd,
                    custodian,
                    token_address,
                    min_investment,
                    accredited_only,
                ),
            },
    {
        let ghost pre = self@;
        let admin = match self.check_admin(caller) {
            Ok(a) => a,
            Err(e) => {
                return Err(e);
            },
        };
        if total_supply <= 0 || asset_value_usd <= 0 {
            return Err(RwaError::InvalidArgument);
        }
        if self.assets.len() as u64 == u64::MAX {
            return Err(RwaError::Overflow);
        }
        let new_tvl = match self.tvl.checked_add(asset_value_usd) {
            Some(t) => t,
            None => {
                return Err(RwaError::Overflow);
            },
        };
        let asset_id = self.assets.len() as u64 + 1;
        let asset = RWAAsset {
            asset_id,
            name: name.clone(),
            symbol: symbol.clone(),
            asset_type,
            total_supply,
            circulating_supply: 0,
            issuer: admin,
            custodian,
            asset_value_usd,
            created_at: now,
            last_valuation: now,
            is_active: true,
            is_transferable: true,
            min_investment,
            accredited_only,
        };
        self.assets.push(asset);
        self.asset_tokens.push(token_address);
        self.tvl = new_tvl;
        self.events.push(
            RwaEvent::AssetCreated { asset_id, name, symbol, total_supply, asset_value_usd },
        );
        proof {
            let post = self@;
            let f = holding_share(asset_id);
            assert forall|j: int| 0 <= j < pre.holdings.len() implies #[trigger] f(pre.holdings[j]) == 0 by {
                assert(pre.holdings[j].asset_id <= pre.assets.len());
            }
            lemma_sum_zero(pre.holdings, f);
            lemma_sum_push(pre.assets, locked_value(), asset);
            assert(post.assets[post.assets.len() - 1] == asset);
        }
        Ok(asset_id)
    }

    /// Replaces the valuation of asset `asset_id` and moves the value locked
    /// by the difference; `Ok(false)` where there is no such asset.
    pub fn update_valuation(&mut self, caller: AccountId, now: u64, asset_id: u64, new_value_usd: i128) -> (r:
        Result<bool, RwaError>)
        requires
            old(self)@.wf(),
        ensures
            final(self)@.wf(),
            match old(self)@.update_valuation_failure(caller, asset_id, new_value_usd) {
                Some(e) => r == Err::<bool, RwaError>(e) && final(self)@ == old(self)@,
                None => if old(self)@.asset(asset_id) is None {
                    r == Ok::<bool, RwaError>(false) && final(self)@ == old(self)@
                } else {
                    r == Ok::<bool, RwaError>(true) && final(self)@ == old(self)@.update_valuation_effect(
                        now,
                        asset_id,
                        new_value_usd,
                    )
                },
            },
    {
        let ghost pre = self@;
        match self.check_admin(caller) {
            Ok(_) => {},
            Err(e) => {
                return Err(e);
            },
        }
        if asset_id == 0 || asset_id > self.assets.len() as u64 {
            return Ok(false);
        }
        let idx = (asset_id - 1) as usize;
        let old_value = self.assets[idx].asset_value_usd;
        // Either order of the two steps may leave the range while the result
        // does not; the result is out of range only where both orders fail.
        let new_tvl = match self.tvl.checked_sub(old_value) {
            Some(t) => match t.checked_add(new_value_usd) {
                Some(n) => n,
                None => {
                    return Err(RwaError::Overflow);
                },
            },
            None => match self.tvl.checked_add(new_value_usd) {
                Some(t) => match t.checked_sub(old_value) {
                    Some(n) => n,
                    None => {
                        return Err(RwaError::Overflow);
                    },
                },
                None => {
                    return Err(RwaError::Overflow);
                },
            },
        };
        self.assets[idx].asset_value_usd = new_value_usd;
        self.assets[idx].last_valuation = now;
        self.tvl = new_tvl;
        self.events.push(
            RwaEvent::ValuationUpdated { asset_id, old_value, new_value: new_value_usd },
        );
        proof {
            let post = self@;
            let a = pre.assets[idx as int];
            let b = RWAAsset { asset_value_usd: new_value_usd, last_valuation: now, ..a };
            assert(post.assets =~= pre.assets.update(idx as int, b));
            lemma_asset_update(pre, idx as int, b, post.holdings);
            assert(post.tvl == active_value(post.assets));
            assert(post == pre.update_valuation_effect(now, asset_id, new_value_usd));
        }
        Ok(true)
    }

    /// Allows or stops transfers of asset `asset_id`; `Ok(false)` where there
    /// is no such asset.
    pub fn set_asset_transferable(&mut self, caller: AccountId, asset_id: u64, transferable: bool) -> (r:
        Result<bool, RwaError>)
        requires
            old(self)@.wf(),
        ensures
            final(self)@.wf(),
            match old(self)@.admin_failure(caller) {
                Some(e) => r == Err::<bool, RwaError>(e) && final(self)@ == old(self)@,
                None => if old(self)@.asset(asset_id) is None {
                    r == Ok::<bool, RwaError>(false) && final(self)@ == old(self)@
                } else {
                    r == Ok::<bool, RwaError>(true) && final(self)@ == old(self)@.set_transferable_effect(
                        asset_id,
                        transferable,
                    )
                },
            },
    {
        let ghost pre = self@;
        match self.check_admin(caller) {
            Ok(_) => {},
            Err(e) => {
                return Err(e);
            },
        }
        if asset_id == 0 || asset_id > self.assets.len() as u64 {
            return Ok(false);
        }
        let idx = (asset_id - 1) as usize;
        self.assets[idx].is_transferable = transferable;
        self.events.push(RwaEvent::TransferabilityChanged { asset_id, transferable });
        proof {
            let post = self@;
            lemma_asset_update(pre, idx as int, post.assets[idx as int], post.holdings);
        }
        Ok(true)
    }

    /// Opens a distribution of `total_amount` of `distribution_token` over the
    /// circulating units of asset `asset_id`; the admin pays it into custody.
    pub fn create_distribution(
        &mut self,
        caller: AccountId,
        now: u64,
        asset_id: u64,
        total_amount: i128,
        distribution_token: AccountId,
    ) -> (r: Result<u64, RwaError>)
        requires
            old(self)@.wf(),
        ensures
            final(self)@.wf(),
            match old(self)@.create_distribution_failure(caller, asset_id, total_amount) {
                Some(e) => r == Err::<u64, RwaError>(e) && final(self)@ == old(self)@,
                None => r == Ok::<u64, RwaError>((old(self)@.distributions.len() + 1) as u64)
                    && final(self)@ == old(self)@.create_distribution_effect(
                    now,
                    asset_id,
                    total_amount,
                    distribution_token,
                ),
            },
    {
        let ghost pre = self@;
        let admin = match self.check_admin(caller) {
            Ok(a) => a,
            Err(e) => {
                return Err(e);
            },
        };
        if asset_id == 0 || asset_id > self.assets.len() as u64 {
            return Err(RwaError::NotFound);
        }
        let idx = (asset_id - 1) as usize;
        let circulating = self.assets[idx].circulating_supply;
        if circulating == 0 {
            return Err(RwaError::InvalidState);
        }
        if total_amount < 0 {
            return Err(RwaError::InvalidArgument);
        }
        if self.distributions.len() as u64 == u64::MAX {
            return Err(RwaError::Overflow);
        }
        let per_token_amount = total_amount / circulating;
        let distribution_id = self.distributions.len() as u64 + 1;
        self.transfers.push(
            TokenTransfer {
                token: distribution_token,
                from: admin,
                to: self.custody,
                amount: total_amount,
            },
        );
        self.distributions.push(
            Distribution {
                distribution_id,
                asset_id,
                total_amount,
                per_token_amount,
                distribution_token,
                snapshot_time: now,
                created_at: now,
                is_claimed: false,
            },
        );
        self.events.push(
            RwaEvent::DistributionCreated { distribution_id, asset_id, total_amount, per_token_amount },
        );
        Ok(distribution_id)
    }

    /// Pays `investor_address` their share of distribution `distribution_id`,
    /// once; returns the amount paid.
    pub fn claim_distribution(&mut self, caller: AccountId, distribution_id: u64, investor_address: AccountId) -> (r:
        Result<i128, RwaError>)
        requires
            old(self)@.wf(),
        ensures
            final(self)@.wf(),
            match old(self)@.claim_failure(caller, distribution_id, investor_address) {
                Some(e) => r == Err::<i128, RwaError>(e) && final(self)@ == old(self)@,
                None => r == Ok::<i128, RwaError>(
                    old(self)@.payout(distribution_id, investor_address) as i128,
                ) && final(self)@ == old(self)@.claim_effect(distribution_id, investor_address),
            },
    {
        let ghost pre = self@;
        if caller != investor_address {
            return Err(RwaError::Unauthorized);
        }
        if self.claimed(distribution_id, investor_address) {
            return Err(RwaError::AlreadyClaimed);
        }
        if distribution_id == 0 || distribution_id > self.distributions.len() as u64 {
            return Err(RwaError::NotFound);
        }
        let d = self.distributions[(distribution_id - 1) as usize];
        let hi = match self.find_holding(d.asset_id, investor_address) {
            Some(i) => i,
            None => {
                return Err(RwaError::NotFound);
            },
        };
        proof {
            lemma_lookup_at(pre.holdings, holding_key(), hi as int);
        }
        let h = self.holdings[hi];
        if h.acquired_at > d.snapshot_time {
            return Err(RwaError::NotEligible);
        }
        proof {
            assert(h.amount >= 0);
            assert(d.per_token_amount >= 0);
            assert(h.amount * d.per_token_amount >= 0) by (nonlinear_arith)
                requires
                    h.amount >= 0,
                    d.per_token_amount >= 0,
            ;
        }
        let payout = match h.amount.checked_mul(d.per_token_amount) {
            Some(p) => p,
            None => {
                return Err(RwaError::Overflow);
            },
        };
        if payout <= 0 {
            return Err(RwaError::NothingToClaim);
        }
        self.claims.push((distribution_id, investor_address));
        self.transfers.push(
            TokenTransfer {
                token: d.distribution_token,
                from: self.custody,
                to: investor_address,
                amount: payout,
            },
        );
        self.events.push(
            RwaEvent::DistributionClaimed { distribution_id, investor: investor_address, amount: payout },
        );
        Ok(payout)
    }

    /// Moves `amount` units of asset `asset_id` from `from` to `to`, both of
    /// whom must pass the compliance checks.
    pub fn transfer(
        &mut self,
        caller: AccountId,
        now: u64,
        asset_id: u64,
        from: AccountId,
        to: AccountId,
        amount: i128,
    ) -> (r: Result<bool, RwaError>)
        requires
            old(self)@.wf(),
        ensures
            final(self)@.wf(),
            match old(self)@.transfer_failure(caller, now, asset_id, from, to, amount) {
                Some(e) => r == Err::<bool, RwaError>(e) && final(self)@ == old(self)@,
                None => r == Ok::<bool, RwaError>(true) && final(self)@ == old(self)@.transfer_effect(
                    now,
                    asset_id,
                    from,
                    to,
                    amount,
                ),
            },
    {
        let ghost pre = self@;
        if caller != from {
            return Err(RwaError::Unauthorized);
        }
        if asset_id == 0 || asset_id > self.assets.len() as u64 {
            return Err(RwaError::NotFound);
        }
        let idx = (asset_id - 1) as usize;
        let accredited_only = self.assets[idx].accredited_only;
        if !self.assets[idx].is_active || !self.assets[idx].is_transferable {
            return Err(RwaError::InvalidState);
        }
        if self.blacklisted(from) || self.blacklisted(to) {
            return Err(RwaError::ComplianceViolation);
        }
        let to_idx = match self.find_investor(to) {
            Some(i) => i,
            None => {
                return Err(RwaError::NotRegistered);
            },
        };
        proof {
            lemma_lookup_at(pre.investors, investor_key(), to_idx as int);
        }
        if !self.investors[to_idx].is_kyc_verified || self.investors[to_idx].kyc_expiry < now {
            return Err(RwaError::ComplianceViolation);
        }
        if accredited_only && !self.investors[to_idx].is_accredited {
            return Err(RwaError::ComplianceViolation);
        }
        let fi = match self.find_holding(asset_id, from) {
            Some(i) => i,
            None => {
                return Err(RwaError::NotFound);
            },
        };
        proof {
            lemma_lookup_at(pre.holdings, holding_key(), fi as int);
        }
        let h = self.holdings[fi];
        if amount < 0 {
            return Err(RwaError::InvalidArgument);
        }
        if h.amount < amount {
            return Err(RwaError::InsufficientBalance);
        }
        if h.locked_until > now {
            return Err(RwaError::Locked);
        }
        // Every check has passed: commit.
        let token = self.asset_tokens[idx];
        self.transfers.push(TokenTransfer { token, from, to, amount });
        let debited_h = Holding { amount: h.amount - amount, ..h };
        self.holdings.set(fi, debited_h);
        let ghost debited = self.holdings@;
        proof {
            lemma_holdings_put(pre.holdings, debited_h);
            assert(debited == pre.debited_holdings(asset_id, from, amount));
            assert forall|j: int| 0 <= j < debited.len() implies (#[trigger] debited[j]).amount >= 0 by {
                assert(pre.holdings[j].amount >= 0);
            }
        }
        let ghost credited = RwaLedger::credited_holding(debited, now, asset_id, to, amount);
        match self.find_holding(asset_id, to) {
            Some(ti) => {
                let t = self.holdings[ti];
                proof {
                    lemma_lookup_at(debited, holding_key(), ti as int);
                    lemma_share_bounded(debited, ti as int);
                    assert(pre.assets[idx as int].asset_id == asset_id);
                }
                let updated = Holding { amount: t.amount + amount, ..t };
                self.holdings.set(ti, updated);
                proof {
                    assert(updated == credited);
                }
            },
            None => {
                let fresh = Holding {
                    asset_id,
                    investor: to,
                    amount,
                    purchase_price: 0,
                    acquired_at: now,
                    locked_until: 0,
                };
                self.holdings.push(fresh);
                proof {
                    assert(fresh == credited);
                }
            },
        }
        self.events.push(RwaEvent::Transfer { asset_id, from, to, amount });
        proof {
            let post = self@;
            lemma_holdings_put(debited, credited);
            assert(post.holdings == put(debited, holding_key(), credited));
            assert forall|j: int| 0 <= j < post.assets.len() implies holdings_total(
                post.holdings,
                (#[trigger] post.assets[j]).asset_id,
            ) == post.assets[j].circulating_supply by {
                assert(pre.assets[j].asset_id == j + 1);
            }
            assert(post == pre.transfer_effect(now, asset_id, from, to, amount));
        }
        Ok(true)
    }

    /// Buys `amount` units of asset `asset_id` for `investor_address`, who pays
    /// `payment_amount` of `payment_token` to the asset's custodian and receives
    /// the units from the issuer.
    pub fn invest(
        &mut self,
        caller: AccountId,
        now: u64,
        asset_id: u64,
        investor_address: AccountId,
        amount: i128,
        payment_token: AccountId,
        payment_amount: i128,
    ) -> (r: Result<bool, RwaError>)
        requires
            old(self)@.wf(),
        ensures
            final(self)@.wf(),
            match old(self)@.invest_failure(
                caller,
                now,
                asset_id,
                investor_address,
                amount,
                payment_amount,
            ) {
                Some(e) => r == Err::<bool, RwaError>(e) && final(self)@ == old(self)@,
                None => r == Ok::<bool, RwaError>(true) && final(self)@ == old(self)@.invest_effect(
                    now,
                    asset_id,
                    investor_address,
                    amount,
                    payment_token,
                    payment_amount,
                ),
            },
    {
        let ghost pre = self@;
        if caller != investor_address {
            return Err(RwaError::Unauthorized);
        }
        if self.blacklisted(investor_address) {
            return Err(RwaError::ComplianceViolation);
        }
        if asset_id == 0 || asset_id > self.assets.len() as u64 {
            return Err(RwaError::NotFound);
        }
        let idx = (asset_id - 1) as usize;
        let is_active = self.assets[idx].is_active;
        let min_investment = self.assets[idx].min_investment;
        let total_supply = self.assets[idx].total_supply;
        let circulating = self.assets[idx].circulating_supply;
        let accredited_only = self.assets[idx].accredited_only;
        let custodian = self.assets[idx].custodian;
        let issuer = self.assets[idx].issuer;
        if !is_active {
            return Err(RwaError::InvalidState);
        }
        if amount < min_investment || amount <= 0 || payment_amount < 0 {
            return Err(RwaError::InvalidArgument);
        }
        if amount > total_supply - circulating {
            return Err(RwaError::CapacityExceeded);
        }
        let inv_idx = match self.find_investor(investor_address) {
            Some(i) => i,
            None => {
                return Err(RwaError::NotRegistered);
            },
        };
        proof {
            lemma_lookup_at(pre.investors, investor_key(), inv_idx as int);
        }
        if !self.investors[inv_idx].is_kyc_verified || self.investors[inv_idx].kyc_expiry < now {
            return Err(RwaError::ComplianceViolation);
        }
        if accredited_only && !self.investors[inv_idx].is_accredited {
            return Err(RwaError::ComplianceViolation);
        }
        let new_total = match self.investors[inv_idx].total_invested.checked_add(payment_amount) {
            Some(t) => t,
            None => {
                return Err(RwaError::Overflow);
            },
        };
        // Every check has passed: commit.
        let token = self.asset_tokens[idx];
        self.transfers.push(
            TokenTransfer {
                token: payment_token,
                from: investor_address,
                to: custodian,
                amount: payment_amount,
            },
        );
        self.transfers.push(TokenTransfer { token, from: issuer, to: investor_address, amount });
        let price = payment_amount / amount;
        let ghost new_h = pre.invested_holding(now, asset_id, investor_address, amount, payment_amount);
        match self.find_holding(asset_id, investor_address) {
            Some(hi) => {
                let h = self.holdings[hi];
                proof {
                    lemma_lookup_at(pre.holdings, holding_key(), hi as int);
                    lemma_holding_bounded(pre, hi as int);
                }
                let updated = Holding {
                    amount: h.amount + amount,
                    purchase_price: mean_price(h.purchase_price, price),
                    ..h
                };
                self.holdings.set(hi, updated);
                proof {
                    assert(updated == new_h);
                    assert(self.holdings@ == put(pre.holdings, holding_key(), new_h));
                }
            },
            None => {
                let fresh = Holding {
                    asset_id,
                    investor: investor_address,
                    amount,
                    purchase_price: price,
                    acquired_at: now,
                    locked_until: 0,
                };
                self.holdings.push(fresh);
                proof {
                    assert(fresh == new_h);
                }
            },
        }
        self.assets[idx].circulating_supply = circulating + amount;
        self.investors[inv_idx].total_invested = new_total;
        self.events.push(
            RwaEvent::Investment { asset_id, investor: investor_address, amount, payment_amount },
        );
        proof {
            let post = self@;
            lemma_lookup_put(pre.investors, investor_key(), post.investors[inv_idx as int]);
            lemma_holdings_put(pre.holdings, new_h);
            lemma_asset_update(pre, idx as int, post.assets[idx as int], post.holdings);
            assert(post == pre.invest_effect(now, asset_id, investor_address, amount, payment_token, payment_amount));
        }
        Ok(true)
    }

    /// An empty, uninitialized ledger whose own custody account is `custody`.
    pub fn new(custody: AccountId) -> (r: Self)
        ensures
            r@.wf(),
            r@.custody == custody,
            r@.admin is None,
            r@.assets.len() == 0,
            r@.investors.len() == 0,
            r@.holdings.len() == 0,
            r@.distributions.len() == 0,
            r@.claims.len() == 0,
            r@.countries.len() == 0,
            r@.blacklist.len() == 0,
            r@.tvl == 0,
            r@.transfers.len() == 0,
            r@.events.len() == 0,
    {
        RWAContract {
            custody,
            admin: None,
            assets: Vec::new(),
            asset_tokens: Vec::new(),
            investors: Vec::new(),
            holdings: Vec::new(),
            distributions: Vec::new(),
            claims: Vec::new(),
            countries: Vec::new(),
            blacklist: Vec::new(),
            tvl: 0,
            transfers: Vec::new(),
            events: Vec::new(),
        }
    }

    fn find_investor(&self, who: AccountId) -> (r: Option<usize>)
        ensures
            match r {
                Some(i) => i < self.investors@.len() && self.investors@[i as int].address == who,
                None => !has_key(self.investors@, investor_key(), who),
            },
    {
        let mut i: usize = 0;
        while i < self.investors.len()
            invariant
                i <= self.investors@.len(),
                forall|j: int| 0 <= j < i ==> self.investors@[j].address != who,
            decreases self.investors@.len() - i,
        {
            if self.investors[i].address == who {
                return Some(i);
            }
            i += 1;
        }
        None
    }

    fn find_holding(&self, asset_id: u64, who: AccountId) -> (r: Option<usize>)
        ensures
            match r {
                Some(i) => i < self.holdings@.len() && self.holdings@[i as int].asset_id == asset_id
                    && self.holdings@[i as int].investor == who,
                None => !has_key(self.holdings@, holding_key(), (asset_id, who)),
            },
    {
        let mut i: usize = 0;
        while i < self.holdings.len()
            invariant
                i <= self.holdings@.len(),
                forall|j: int|
                    0 <= j < i ==> (self.holdings@[j].asset_id, self.holdings@[j].investor) != (
                        asset_id,
                        who,
                    ),
            decreases self.holdings@.len() - i,
        {
            if self.holdings[i].asset_id == asset_id && self.holdings[i].investor == who {
                return Some(i);
            }
            i += 1;
        }
        None
    }

    fn find_country(&self, code: &String) -> (r: Option<usize>)
        ensures
            match r {
                Some(i) => i < self.countries@.len() && self.countries@[i as int].code@ == code@,
                None => !has_key(self.countries@, country_key(), code@),
            },
    {
        let mut i: usize = 0;
        while i < self.countries.len()
            invariant
                i <= self.countries@.len(),
                forall|j: int| 0 <= j < i ==> self.countries@[j].code@ != code@,
            decreases self.countries@.len() - i,
        {
            if self.countries[i].code == *code {
                return Some(i);
            }
            i += 1;
        }
        None
    }

    fn find_flag(&self, who: AccountId) -> (r: Option<usize>)
        ensures
            match r {
                Some(i) => i < self.blacklist@.len() && self.blacklist@[i as int].0 == who,
                None => !has_key(self.blacklist@, flag_key(), who),
            },
    {
        let mut i: usize = 0;
        while i < self.blacklist.len()
            invariant
                i <= self.blacklist@.len(),
                forall|j: int| 0 <= j < i ==> self.blacklist@[j].0 != who,
            decreases self.blacklist@.len() - i,
        {
            if self.blacklist[i].0 == who {
                return Some(i);
            }
            i += 1;
        }
        None
    }

    fn blacklisted(&self, who: AccountId) -> (r: bool)
        requires
            self@.wf(),
        ensures
            r == self@.is_blacklisted(who),
    {
        match self.find_flag(who) {
            Some(i) => {
                proof {
                    lemma_lookup_at(self.blacklist@, flag_key(), i as int);
                }
                self.blacklist[i].1
            },
            None => false,
        }
    }

    pub fn get_asset(&self, asset_id: u64) -> (r: Option<&RWAAsset>)
        ensures
            match r {
                Some(a) => self@.asset(asset_id) == Some(*a),
                None => self@.asset(asset_id) is None,
            },
    {
        if asset_id == 0 || asset_id > self.assets.len() as u64 {
            None
        } else {
            Some(&self.assets[(asset_id - 1) as usize])
        }
    }

    pub fn get_investor(&self, investor_address: AccountId) -> (r: Option<&Investor>)
        requires
            self@.wf(),
        ensures
            match r {
                Some(inv) => self@.investor(investor_address) == Some(*inv),
                None => self@.investor(investor_address) is None,
            },
    {
        match self.find_investor(investor_address) {
            Some(i) => {
                proof {
                    lemma_lookup_at(self@.investors, investor_key(), i as int);
                }
                Some(&self.investors[i])
            },
            None => None,
        }
    }

    pub fn get_holding(&self, asset_id: u64, investor_address: AccountId) -> (r: Option<Holding>)
        requires
            self@.wf(),
        ensures
            r == self@.holding(asset_id, investor_address),
    {
        match self.find_holding(asset_id, investor_address) {
            Some(i) => {
                proof {
                    lemma_lookup_at(self@.holdings, holding_key(), i as int);
                }
                Some(self.holdings[i])
            },
            None => None,
        }
    }

    pub fn get_distribution(&self, distribution_id: u64) -> (r: Option<Distribution>)
        ensures
            r == self@.distribution(distribution_id),
    {
        if distribution_id == 0 || distribution_id > self.distributions.len() as u64 {
            None
        } else {
            Some(self.distributions[(distribution_id - 1) as usize])
        }
    }

    pub fn is_distribution_claimed(&self, distribution_id: u64, investor_address: AccountId) -> (r: bool)
        ensures
            r == self@.is_claimed(distribution_id, investor_address),
    {
        self.claimed(distribution_id, investor_address)
    }

    pub fn get_admin(&self) -> (r: Option<AccountId>)
        ensures
            r == self@.admin,
    {
        self.admin
    }

    /// The ledger's own custody account.
    pub fn custody(&self) -> (r: AccountId)
        ensures
            r == self@.custody,
    {
        self.custody
    }

    /// The summed valuation of the active assets.
    pub fn get_tvl(&self) -> (r: i128)
        ensures
            r == self@.tvl,
    {
        self.tvl
    }

    pub fn get_asset_count(&self) -> (r: u64)
        ensures
            r == self@.assets.len(),
    {
        self.assets.len() as u64
    }

    /// Every token movement the ledger has committed to, oldest first, for
    /// the host to carry out.
    pub fn transfers(&self) -> (r: &Vec<TokenTransfer>)
        ensures
            r@ == self@.transfers,
    {
        &self.transfers
    }

    /// Every event announced so far, oldest first.
    pub fn events(&self) -> (r: &Vec<RwaEvent>)
        ensures
            r@ == self@.events,
    {
        &self.events
    }
}

} // verus!
