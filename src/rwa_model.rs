use vstd::prelude::*;

use crate::keyed::{keys_unique, lookup, put};
use crate::sums::sum_by;
use crate::token::{AccountId, TokenTransfer};

verus! {

/// The class of a tokenized asset.
#[derive(Clone, Copy, Debug, PartialEq, Eq, Structural)]
pub enum AssetType {
    RealEstate,
    Commodity,
    Security,
    Bond,
    Art,
    Collectible,
    Invoice,
    Equipment,
    IntellectualProperty,
    Other,
}

/// A tokenized real-world asset and its supply accounting.
#[derive(Clone, Debug)]
pub struct RWAAsset {
    pub asset_id: u64,
    pub name: String,
    pub symbol: String,
    pub asset_type: AssetType,
    pub total_supply: i128,
    pub circulating_supply: i128,
    pub issuer: AccountId,
    /// Legal custodian of the physical asset; investment payments go here.
    pub custodian: AccountId,
    /// Valuation in the smallest fiat unit.
    pub asset_value_usd: i128,
    pub created_at: u64,
    pub last_valuation: u64,
    pub is_active: bool,
    pub is_transferable: bool,
    pub min_investment: i128,
    pub accredited_only: bool,
}

/// A registered investor and the result of their KYC attestation.
#[derive(Clone, Debug)]
pub struct Investor {
    pub address: AccountId,
    pub is_accredited: bool,
    pub is_kyc_verified: bool,
    pub kyc_expiry: u64,
    pub country_code: String,
    pub total_invested: i128,
    pub registered_at: u64,
}

/// The position of one investor in one asset.
#[derive(Clone, Copy, Debug, PartialEq, Eq, Structural)]
pub struct Holding {
    pub asset_id: u64,
    pub investor: AccountId,
    pub amount: i128,
    /// Running (unweighted) mean of the prices paid per unit.
    pub purchase_price: i128,
    /// When the position was first opened; decides eligibility for payouts.
    pub acquired_at: u64,
    pub locked_until: u64,
}

/// A pro-rata payout to the holders of an asset; never changed once made.
#[derive(Clone, Copy, Debug, PartialEq, Eq, Structural)]
pub struct Distribution {
    pub distribution_id: u64,
    pub asset_id: u64,
    pub total_amount: i128,
    pub per_token_amount: i128,
    pub distribution_token: AccountId,
    pub snapshot_time: u64,
    pub created_at: u64,
    /// Kept for the record layout only; claims are tracked per investor.
    pub is_claimed: bool,
}

/// Whether investors from a country may register.
#[derive(Clone, Debug)]
pub struct CountryRule {
    pub code: String,
    pub allowed: bool,
}

/// Why an operation was refused. A refused operation changes nothing.
#[derive(Clone, Copy, Debug, PartialEq, Eq, Structural)]
pub enum RwaError {
    Unauthorized,
    NotInitialized,
    AlreadyInitialized,
    NotFound,
    InvalidArgument,
    InvalidState,
    ComplianceViolation,
    NotRegistered,
    CapacityExceeded,
    InsufficientBalance,
    Locked,
    AlreadyClaimed,
    NotEligible,
    NothingToClaim,
    /// A running total would leave the range of `i128` (or an id that of `u64`).
    Overflow,
}

/// What each committed operation announces to outside observers.
#[derive(Clone, Debug)]
pub enum RwaEvent {
    Initialized { admin: AccountId },
    AdminUpdated { admin: AccountId },
    CountryWhitelisted { country_code: String, allowed: bool },
    AddressBlacklisted { address: AccountId, blacklisted: bool },
    AssetCreated {
        asset_id: u64,
        name: String,
        symbol: String,
        total_supply: i128,
        asset_value_usd: i128,
    },
    ValuationUpdated { asset_id: u64, old_value: i128, new_value: i128 },
    TransferabilityChanged { asset_id: u64, transferable: bool },
    InvestorRegistered { investor: AccountId, is_accredited: bool, country_code: String },
    AccreditationUpdated { investor: AccountId, is_accredited: bool },
    Investment { asset_id: u64, investor: AccountId, amount: i128, payment_amount: i128 },
    Transfer { asset_id: u64, from: AccountId, to: AccountId, amount: i128 },
    DistributionCreated {
        distribution_id: u64,
        asset_id: u64,
        total_amount: i128,
        per_token_amount: i128,
    },
    DistributionClaimed { distribution_id: u64, investor: AccountId, amount: i128 },
}

pub open spec fn investor_key() -> spec_fn(Investor) -> AccountId {
    |x: Investor| x.address
}

pub open spec fn holding_key() -> spec_fn(Holding) -> (u64, AccountId) {
    |h: Holding| (h.asset_id, h.investor)
}

pub open spec fn country_key() -> spec_fn(CountryRule) -> Seq<char> {
    |c: CountryRule| c.code@
}

pub open spec fn flag_key() -> spec_fn((AccountId, bool)) -> AccountId {
    |e: (AccountId, bool)| e.0
}

/// What a holding adds to the units of asset `asset_id` held by investors.
pub open spec fn holding_share(asset_id: u64) -> spec_fn(Holding) -> int {
    |h: Holding|
        if h.asset_id == asset_id {
            h.amount as int
        } else {
            0
        }
}

/// What an asset adds to the value locked in the ledger.
pub open spec fn locked_value() -> spec_fn(RWAAsset) -> int {
    |a: RWAAsset|
        if a.is_active {
            a.asset_value_usd as int
        } else {
            0
        }
}

/// Units of asset `asset_id` held over all the holdings `hs`.
pub open spec fn holdings_total(hs: Seq<Holding>, asset_id: u64) -> int {
    sum_by(hs, holding_share(asset_id))
}

/// The summed valuation of the active assets among `assets`.
pub open spec fn active_value(assets: Seq<RWAAsset>) -> int {
    sum_by(assets, locked_value())
}

/// A KYC attestation that still holds at time `now`.
pub open spec fn kyc_valid(inv: Investor, now: u64) -> bool {
    inv.is_kyc_verified && now <= inv.kyc_expiry
}

/// Rust's division of `x` by a positive `y`, which truncates toward zero.
pub open spec fn trunc_div(x: int, y: int) -> int {
    if x >= 0 {
        x / y
    } else {
        -((-x) / y)
    }
}

/// The abstract state of an asset ledger.
pub ghost struct RwaLedger {
    /// The ledger's own account, which holds payout funds between creation and claim.
    pub custody: AccountId,
    pub admin: Option<AccountId>,
    /// Asset `i + 1` sits at position `i`.
    pub assets: Seq<RWAAsset>,
    /// The token that represents asset `i + 1` sits at position `i`.
    pub asset_tokens: Seq<AccountId>,
    pub investors: Seq<Investor>,
    pub holdings: Seq<Holding>,
    /// Distribution `i + 1` sits at position `i`.
    pub distributions: Seq<Distribution>,
    /// The (distribution, investor) pairs that have been paid.
    pub claims: Seq<(u64, AccountId)>,
    pub countries: Seq<CountryRule>,
    pub blacklist: Seq<(AccountId, bool)>,
    pub tvl: i128,
    /// Token movements handed to the host, oldest first.
    pub transfers: Seq<TokenTransfer>,
    pub events: Seq<RwaEvent>,
}

impl RwaLedger {
    pub open spec fn asset(self, asset_id: u64) -> Option<RWAAsset> {
        if 1 <= asset_id <= self.assets.len() {
            Some(self.assets[asset_id - 1])
        } else {
            None
        }
    }

    pub open spec fn asset_token(self, asset_id: u64) -> AccountId {
        self.asset_tokens[asset_id - 1]
    }

    pub open spec fn investor(self, who: AccountId) -> Option<Investor> {
        lookup(self.investors, investor_key(), who)
    }

    pub open spec fn holding(self, asset_id: u64, who: AccountId) -> Option<Holding> {
        lookup(self.holdings, holding_key(), (asset_id, who))
    }

    pub open spec fn distribution(self, distribution_id: u64) -> Option<Distribution> {
        if 1 <= distribution_id <= self.distributions.len() {
            Some(self.distributions[distribution_id - 1])
        } else {
            None
        }
    }

    pub open spec fn is_claimed(self, distribution_id: u64, who: AccountId) -> bool {
        self.claims.contains((distribution_id, who))
    }

    pub open spec fn country_allowed(self, code: Seq<char>) -> bool {
        match lookup(self.countries, country_key(), code) {
            Some(rule) => rule.allowed,
            None => false,
        }
    }

    pub open spec fn is_blacklisted(self, who: AccountId) -> bool {
        match lookup(self.blacklist, flag_key(), who) {
            Some(entry) => entry.1,
            None => false,
        }
    }

    /// The eligibility predicate: `who` may hold asset `asset_id` at time `now`.
    pub open spec fn eligible(self, now: u64, asset_id: u64, who: AccountId) -> bool {
        &&& !self.is_blacklisted(who)
        &&& self.asset(asset_id) is Some
        &&& self.asset(asset_id)->0.is_active
        &&& self.investor(who) is Some
        &&& kyc_valid(self.investor(who)->0, now)
        &&& (!self.asset(asset_id)->0.accredited_only || self.investor(who)->0.is_accredited)
    }

    /// Units of asset `asset_id` held by investors.
    pub open spec fn held(self, asset_id: u64) -> int {
        holdings_total(self.holdings, asset_id)
    }

    pub open spec fn wf(self) -> bool {
        &&& self.assets.len() == self.asset_tokens.len()
        &&& self.assets.len() <= u64::MAX
        &&& self.distributions.len() <= u64::MAX
        &&& forall|i: int| 0 <= i < self.assets.len() ==> {
            let a = #[trigger] self.assets[i];
            &&& a.asset_id == i + 1
            &&& 0 <= a.circulating_supply <= a.total_supply
            &&& a.is_active
            &&& holdings_total(self.holdings, a.asset_id) == a.circulating_supply
        }
        &&& forall|i: int| 0 <= i < self.holdings.len() ==> {
            let h = #[trigger] self.holdings[i];
            &&& 1 <= h.asset_id <= self.assets.len()
            &&& h.amount >= 0
            &&& h.purchase_price >= 0
        }
        &&& forall|i: int| 0 <= i < self.distributions.len() ==> {
            let d = #[trigger] self.distributions[i];
            &&& d.distribution_id == i + 1
            &&& d.per_token_amount >= 0
        }
        &&& keys_unique(self.investors, investor_key())
        &&& keys_unique(self.holdings, holding_key())
        &&& keys_unique(self.countries, country_key())
        &&& keys_unique(self.blacklist, flag_key())
        &&& self.tvl == active_value(self.assets)
    }

    // ---------------------------------------------------------------
    // Administration
    // ---------------------------------------------------------------

    /// The admin check shared by every privileged operation.
    pub open spec fn admin_failure(self, caller: AccountId) -> Option<RwaError> {
        match self.admin {
            None => Some(RwaError::NotInitialized),
            Some(admin) => if caller != admin {
                Some(RwaError::Unauthorized)
            } else {
                None
            },
        }
    }

    pub open spec fn initialize_failure(self, caller: AccountId, admin: AccountId) -> Option<
        RwaError,
    > {
        if self.admin is Some {
            Some(RwaError::AlreadyInitialized)
        } else if caller != admin {
            Some(RwaError::Unauthorized)
        } else {
            None
        }
    }

    pub open spec fn initialize_effect(self, admin: AccountId) -> RwaLedger {
        RwaLedger {
            admin: Some(admin),
            events: self.events.push(RwaEvent::Initialized { admin }),
            ..self
        }
    }

    pub open spec fn set_admin_effect(self, new_admin: AccountId) -> RwaLedger {
        RwaLedger {
            admin: Some(new_admin),
            events: self.events.push(RwaEvent::AdminUpdated { admin: new_admin }),
            ..self
        }
    }

    pub open spec fn whitelist_country_effect(self, code: String, allowed: bool) -> RwaLedger {
        RwaLedger {
            countries: put(self.countries, country_key(), CountryRule { code, allowed }),
            events: self.events.push(RwaEvent::CountryWhitelisted { country_code: code, allowed }),
            ..self
        }
    }

    pub open spec fn blacklist_address_effect(self, who: AccountId, blacklisted: bool) -> RwaLedger {
        RwaLedger {
            blacklist: put(self.blacklist, flag_key(), (who, blacklisted)),
            events: self.events.push(RwaEvent::AddressBlacklisted { address: who, blacklisted }),
            ..self
        }
    }

    // ---------------------------------------------------------------
    // Asset registry
    // ---------------------------------------------------------------

    pub open spec fn create_asset_failure(
        self,
        caller: AccountId,
        total_supply: i128,
        asset_value_usd: i128,
    ) -> Option<RwaError> {
        if self.admin_failure(caller) is Some {
            self.admin_failure(caller)
        } else if total_supply <= 0 || asset_value_usd <= 0 {
            Some(RwaError::InvalidArgument)
        } else if self.assets.len() + 1 > u64::MAX || self.tvl + asset_value_usd > i128::MAX {
            Some(RwaError::Overflow)
        } else {
            None
        }
    }

    /// The asset that `create_asset` records, with the next free id.
    pub open spec fn new_asset(
        self,
        now: u64,
        name: String,
        symbol: String,
        asset_type: AssetType,
        total_supply: i128,
        asset_value_usd: i128,
        custodian: AccountId,
        min_investment: i128,
        accredited_only: bool,
    ) -> RWAAsset {
        RWAAsset {
            asset_id: (self.assets.len() + 1) as u64,
            name,
            symbol,
            asset_type,
            total_supply,
            circulating_supply: 0,
            issuer: self.admin->0,
            custodian,
            asset_value_usd,
            created_at: now,
            last_valuation: now,
            is_active: true,
            is_transferable: true,
            min_investment,
            accredited_only,
        }
    }

    pub open spec fn create_asset_effect(
        self,
        now: u64,
        name: String,
        symbol: String,
        asset_type: AssetType,
        total_supply: i128,
        asset_value_usd: i128,
        custodian: AccountId,
        token_address: AccountId,
        min_investment: i128,
        accredited_only: bool,
    ) -> RwaLedger {
        let a = self.new_asset(
            now,
            name,
            symbol,
            asset_type,
            total_supply,
            asset_value_usd,
            custodian,
            min_investment,
            accredited_only,
        );
        RwaLedger {
            assets: self.assets.push(a),
            asset_tokens: self.asset_tokens.push(token_address),
            tvl: (self.tvl + asset_value_usd) as i128,
            events: self.events.push(
                RwaEvent::AssetCreated {
                    asset_id: a.asset_id,
                    name,
                    symbol,
                    total_supply,
                    asset_value_usd,
                },
            ),
            ..self
        }
    }

    pub open spec fn update_valuation_failure(
        self,
        caller: AccountId,
        asset_id: u64,
        new_value: i128,
    ) -> Option<RwaError> {
        if self.admin_failure(caller) is Some {
            self.admin_failure(caller)
        } else if self.asset(asset_id) is None {
            None
        } else if self.tvl - self.asset(asset_id)->0.asset_value_usd + new_value > i128::MAX
            || self.tvl - self.asset(asset_id)->0.asset_value_usd + new_value < i128::MIN {
            Some(RwaError::Overflow)
        } else {
            None
        }
    }

    pub open spec fn update_valuation_effect(self, now: u64, asset_id: u64, new_value: i128) -> RwaLedger {
        let a = self.asset(asset_id)->0;
        RwaLedger {
            assets: self.assets.update(
                asset_id - 1,
                RWAAsset { asset_value_usd: new_value, last_valuation: now, ..a },
            ),
            tvl: (self.tvl - a.asset_value_usd + new_value) as i128,
            events: self.events.push(
                RwaEvent::ValuationUpdated {
                    asset_id,
                    old_value: a.asset_value_usd,
                    new_value,
                },
            ),
            ..self
        }
    }

    pub open spec fn set_transferable_effect(self, asset_id: u64, transferable: bool) -> RwaLedger {
        let a = self.asset(asset_id)->0;
        RwaLedger {
            assets: self.assets.update(asset_id - 1, RWAAsset { is_transferable: transferable, ..a }),
            events: self.events.push(RwaEvent::TransferabilityChanged { asset_id, transferable }),
            ..self
        }
    }

    // ---------------------------------------------------------------
    // Compliance registry
    // ---------------------------------------------------------------

    pub open spec fn register_investor_failure(self, caller: AccountId, country_code: Seq<char>) -> Option<
        RwaError,
    > {
        if self.admin_failure(caller) is Some {
            self.admin_failure(caller)
        } else if !self.country_allowed(country_code) {
            Some(RwaError::ComplianceViolation)
        } else {
            None
        }
    }

    pub open spec fn register_investor_effect(
        self,
        now: u64,
        who: AccountId,
        is_accredited: bool,
        country_code: String,
        kyc_expiry: u64,
    ) -> RwaLedger {
        let inv = Investor {
            address: who,
            is_accredited,
            is_kyc_verified: true,
            kyc_expiry,
            country_code,
            total_invested: 0,
            registered_at: now,
        };
        RwaLedger {
            investors: put(self.investors, investor_key(), inv),
            events: self.events.push(
                RwaEvent::InvestorRegistered { investor: who, is_accredited, country_code },
            ),
            ..self
        }
    }

    pub open spec fn update_accreditation_effect(self, who: AccountId, is_accredited: bool) -> RwaLedger {
        let inv = self.investor(who)->0;
        RwaLedger {
            investors: put(self.investors, investor_key(), Investor { is_accredited, ..inv }),
            events: self.events.push(RwaEvent::AccreditationUpdated { investor: who, is_accredited }),
            ..self
        }
    }

    // ---------------------------------------------------------------
    // Investment
    // ---------------------------------------------------------------

    pub open spec fn invest_failure(
        self,
        caller: AccountId,
        now: u64,
        asset_id: u64,
        who: AccountId,
        amount: i128,
        payment_amount: i128,
    ) -> Option<RwaError> {
        let a = self.asset(asset_id)->0;
        let inv = self.investor(who)->0;
        if caller != who {
            Some(RwaError::Unauthorized)
        } else if self.is_blacklisted(who) {
            Some(RwaError::ComplianceViolation)
        } else if self.asset(asset_id) is None {
            Some(RwaError::NotFound)
        } else if !a.is_active {
            Some(RwaError::InvalidState)
        } else if amount < a.min_investment || amount <= 0 || payment_amount < 0 {
            Some(RwaError::InvalidArgument)
        } else if a.circulating_supply + amount > a.total_supply {
            Some(RwaError::CapacityExceeded)
        } else if self.investor(who) is None {
            Some(RwaError::NotRegistered)
        } else if !kyc_valid(inv, now) {
            Some(RwaError::ComplianceViolation)
        } else if a.accredited_only && !inv.is_accredited {
            Some(RwaError::ComplianceViolation)
        } else if inv.total_invested + payment_amount > i128::MAX {
            Some(RwaError::Overflow)
        } else {
            None
        }
    }

    /// The holding of `who` in `asset_id` after buying `amount` units for `payment_amount`.
    pub open spec fn invested_holding(
        self,
        now: u64,
        asset_id: u64,
        who: AccountId,
        amount: i128,
        payment_amount: i128,
    ) -> Holding {
        let price = payment_amount / amount;
        match self.holding(asset_id, who) {
            Some(h) => Holding {
                amount: (h.amount + amount) as i128,
                purchase_price: ((h.purchase_price + price) / 2) as i128,
                ..h
            },
            None => Holding {
                asset_id,
                investor: who,
                amount,
                purchase_price: price as i128,
                acquired_at: now,
                locked_until: 0,
            },
        }
    }

    pub open spec fn invest_effect(
        self,
        now: u64,
        asset_id: u64,
        who: AccountId,
        amount: i128,
        payment_token: AccountId,
        payment_amount: i128,
    ) -> RwaLedger {
        let a = self.asset(asset_id)->0;
        let inv = self.investor(who)->0;
        RwaLedger {
            assets: self.assets.update(
                asset_id - 1,
                RWAAsset { circulating_supply: (a.circulating_supply + amount) as i128, ..a },
            ),
            investors: put(
                self.investors,
                investor_key(),
                Investor { total_invested: (inv.total_invested + payment_amount) as i128, ..inv },
            ),
            holdings: put(
                self.holdings,
                holding_key(),
                self.invested_holding(now, asset_id, who, amount, payment_amount),
            ),
            transfers: self.transfers.push(
                TokenTransfer {
                    token: payment_token,
                    from: who,
                    to: a.custodian,
                    amount: payment_amount,
                },
            ).push(
                TokenTransfer {
                    token: self.asset_token(asset_id),
                    from: a.issuer,
                    to: who,
                    amount,
                },
            ),
            events: self.events.push(
                RwaEvent::Investment { asset_id, investor: who, amount, payment_amount },
            ),
            ..self
        }
    }

    // ---------------------------------------------------------------
    // Transfers between investors
    // ---------------------------------------------------------------

    pub open spec fn transfer_failure(
        self,
        caller: AccountId,
        now: u64,
        asset_id: u64,
        from: AccountId,
        to: AccountId,
        amount: i128,
    ) -> Option<RwaError> {
        let a = self.asset(asset_id)->0;
        let rcpt = self.investor(to)->0;
        let h = self.holding(asset_id, from)->0;
        if caller != from {
            Some(RwaError::Unauthorized)
        } else if self.asset(asset_id) is None {
            Some(RwaError::NotFound)
        } else if !a.is_active || !a.is_transferable {
            Some(RwaError::InvalidState)
        } else if self.is_blacklisted(from) || self.is_blacklisted(to) {
            Some(RwaError::ComplianceViolation)
        } else if self.investor(to) is None {
            Some(RwaError::NotRegistered)
        } else if !kyc_valid(rcpt, now) {
            Some(RwaError::ComplianceViolation)
        } else if a.accredited_only && !rcpt.is_accredited {
            Some(RwaError::ComplianceViolation)
        } else if self.holding(asset_id, from) is None {
            Some(RwaError::NotFound)
        } else if amount < 0 {
            Some(RwaError::InvalidArgument)
        } else if h.amount < amount {
            Some(RwaError::InsufficientBalance)
        } else if h.locked_until > now {
            Some(RwaError::Locked)
        } else {
            None
        }
    }

    /// Holdings after the sender's position is reduced by `amount`.
    pub open spec fn debited_holdings(self, asset_id: u64, from: AccountId, amount: i128) -> Seq<
        Holding,
    > {
        let h = self.holding(asset_id, from)->0;
        put(self.holdings, holding_key(), Holding { amount: (h.amount - amount) as i128, ..h })
    }

    /// The recipient's position after it receives `amount` units.
    pub open spec fn credited_holding(
        debited: Seq<Holding>,
        now: u64,
        asset_id: u64,
        to: AccountId,
        amount: i128,
    ) -> Holding {
        match lookup(debited, holding_key(), (asset_id, to)) {
            Some(h) => Holding { amount: (h.amount + amount) as i128, ..h },
            None => Holding {
                asset_id,
                investor: to,
                amount,
                purchase_price: 0,
                acquired_at: now,
                locked_until: 0,
            },
        }
    }

    pub open spec fn transfer_effect(
        self,
        now: u64,
        asset_id: u64,
        from: AccountId,
        to: AccountId,
        amount: i128,
    ) -> RwaLedger {
        let debited = self.debited_holdings(asset_id, from, amount);
        RwaLedger {
            holdings: put(
                debited,
                holding_key(),
                Self::credited_holding(debited, now, asset_id, to, amount),
            ),
            transfers: self.transfers.push(
                TokenTransfer { token: self.asset_token(asset_id), from, to, amount },
            ),
            events: self.events.push(RwaEvent::Transfer { asset_id, from, to, amount }),
            ..self
        }
    }

    // ---------------------------------------------------------------
    // Distributions
    // ---------------------------------------------------------------

    pub open spec fn create_distribution_failure(
        self,
        caller: AccountId,
        asset_id: u64,
        total_amount: i128,
    ) -> Option<RwaError> {
        if self.admin_failure(caller) is Some {
            self.admin_failure(caller)
        } else if self.asset(asset_id) is None {
            Some(RwaError::NotFound)
        } else if self.asset(asset_id)->0.circulating_supply == 0 {
            Some(RwaError::InvalidState)
        } else if total_amount < 0 {
            Some(RwaError::InvalidArgument)
        } else if self.distributions.len() + 1 > u64::MAX {
            Some(RwaError::Overflow)
        } else {
            None
        }
    }

    pub open spec fn new_distribution(
        self,
        now: u64,
        asset_id: u64,
        total_amount: i128,
        distribution_token: AccountId,
    ) -> Distribution {
        Distribution {
            distribution_id: (self.distributions.len() + 1) as u64,
            asset_id,
            total_amount,
            per_token_amount: (total_amount / self.asset(asset_id)->0.circulating_supply) as i128,
            distribution_token,
            snapshot_time: now,
            created_at: now,
            is_claimed: false,
        }
    }

    pub open spec fn create_distribution_effect(
        self,
        now: u64,
        asset_id: u64,
        total_amount: i128,
        distribution_token: AccountId,
    ) -> RwaLedger {
        let d = self.new_distribution(now, asset_id, total_amount, distribution_token);
        RwaLedger {
            distributions: self.distributions.push(d),
            transfers: self.transfers.push(
                TokenTransfer {
                    token: distribution_token,
                    from: self.admin->0,
                    to: self.custody,
                    amount: total_amount,
                },
            ),
            events: self.events.push(
                RwaEvent::DistributionCreated {
                    distribution_id: d.distribution_id,
                    asset_id,
                    total_amount,
                    per_token_amount: d.per_token_amount,
                },
            ),
            ..self
        }
    }

    /// What `who` is owed from distribution `distribution_id`.
    pub open spec fn payout(self, distribution_id: u64, who: AccountId) -> int {
        let d = self.distribution(distribution_id)->0;
        self.holding(d.asset_id, who)->0.amount * d.per_token_amount
    }

    pub open spec fn claim_failure(self, caller: AccountId, distribution_id: u64, who: AccountId) -> Option<
        RwaError,
    > {
        let d = self.distribution(distribution_id)->0;
        if caller != who {
            Some(RwaError::Unauthorized)
        } else if self.is_claimed(distribution_id, who) {
            Some(RwaError::AlreadyClaimed)
        } else if self.distribution(distribution_id) is None {
            Some(RwaError::NotFound)
        } else if self.holding(d.asset_id, who) is None {
            Some(RwaError::NotFound)
        } else if self.holding(d.asset_id, who)->0.acquired_at > d.snapshot_time {
            Some(RwaError::NotEligible)
        } else if self.payout(distribution_id, who) > i128::MAX {
            Some(RwaError::Overflow)
        } else if self.payout(distribution_id, who) <= 0 {
            Some(RwaError::NothingToClaim)
        } else {
            None
        }
    }

    pub open spec fn claim_effect(self, distribution_id: u64, who: AccountId) -> RwaLedger {
        let d = self.distribution(distribution_id)->0;
        let amount = self.payout(distribution_id, who) as i128;
        RwaLedger {
            claims: self.claims.push((distribution_id, who)),
            transfers: self.transfers.push(
                TokenTransfer { token: d.distribution_token, from: self.custody, to: who, amount },
            ),
            events: self.events.push(
                RwaEvent::DistributionClaimed { distribution_id, investor: who, amount },
            ),
            ..self
        }
    }
}

} // verus!
