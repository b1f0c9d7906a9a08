//! Spot trading of listed assets at an admin-set price: market buys and
//! sells against the listed supply, resting limit orders, and portfolio
//! figures per trader.
use vstd::prelude::*;

use crate::keyed::{has_key, key_index, keys_unique, lemma_lookup_at, lemma_lookup_put, lookup, put};
use crate::rwa_model::trunc_div;
use crate::token::AccountId;

verus! {

/// Fees are given in basis points.
pub const BASIS_POINTS: i128 = 10_000;

/// A listed asset.
#[derive(Clone, Debug)]
pub struct Asset {
    pub code: String,
    pub name: String,
    /// In stroops.
    pub price: i128,
    pub total_supply: i128,
    pub available_supply: i128,
    pub is_active: bool,
}

#[derive(Clone, Copy, Debug, PartialEq, Eq, Structural)]
pub enum OrderType {
    Buy,
    Sell,
}

#[derive(Clone, Copy, Debug, PartialEq, Eq, Structural)]
pub enum OrderStatus {
    Pending,
    Filled,
    PartiallyFilled,
    Cancelled,
}

#[derive(Clone, Debug)]
pub struct Order {
    pub id: u64,
    pub trader: AccountId,
    pub asset_code: String,
    pub order_type: OrderType,
    pub quantity: i128,
    pub filled_quantity: i128,
    pub price: i128,
    pub status: OrderStatus,
    pub timestamp: u64,
}

/// A trader's position in one asset.
#[derive(Clone, Debug)]
pub struct Holding {
    pub asset_code: String,
    pub quantity: i128,
    pub avg_buy_price: i128,
    pub total_invested: i128,
}

#[derive(Clone, Copy, Debug, PartialEq, Eq, Structural)]
pub enum StockError {
    AlreadyInitialized,
    NotInitialized,
    Unauthorized,
    NotFound,
    /// A quantity that is not positive.
    InvalidArgument,
    /// The asset is not active, or the order can no longer be cancelled.
    InvalidState,
    InsufficientSupply,
    InsufficientHoldings,
    /// An amount or the order counter would leave its integer range.
    Overflow,
}

#[derive(Clone, Debug)]
pub enum TradeEvent {
    OrderCreated {
        order_id: u64,
        trader: AccountId,
        asset_code: String,
        order_type: OrderType,
        quantity: i128,
        price: i128,
    },
    OrderFilled { order_id: u64, trader: AccountId, asset_code: String, quantity: i128, price: i128 },
    TradeExecuted {
        trader: AccountId,
        asset_code: String,
        order_type: OrderType,
        quantity: i128,
        price: i128,
        total: i128,
    },
}

pub open spec fn asset_key() -> spec_fn(Asset) -> Seq<char> {
    |a: Asset| a.code@
}

pub open spec fn position_key() -> spec_fn((AccountId, Holding)) -> (AccountId, Seq<char>) {
    |e: (AccountId, Holding)| (e.0, e.1.asset_code@)
}

/// The fee on `amount` at `fee_percent` basis points, truncated.
pub open spec fn fee_on(amount: int, fee_percent: u32) -> int {
    trunc_div(amount * fee_percent, BASIS_POINTS as int)
}

pub open spec fn in_i128(x: int) -> bool {
    i128::MIN <= x <= i128::MAX
}

/// The abstract state of the trading book.
pub ghost struct StockBook {
    pub admin: Option<AccountId>,
    pub fee_recipient: AccountId,
    pub fee_percent: u32,
    pub assets: Seq<Asset>,
    /// The traded value of asset `assets[i]` sits at position `i`.
    pub volumes: Seq<i128>,
    /// Positions by trader; one whose quantity is zero counts as closed.
    pub positions: Seq<(AccountId, Holding)>,
    /// Order `i + 1` sits at position `i`.
    pub orders: Seq<Order>,
    pub events: Seq<TradeEvent>,
}

impl StockBook {
    pub open spec fn wf(self) -> bool {
        &&& self.assets.len() == self.volumes.len()
        &&& keys_unique(self.assets, asset_key())
        &&& keys_unique(self.positions, position_key())
        &&& forall|i: int| 0 <= i < self.positions.len() ==> (#[trigger] self.positions[i]).1.quantity >= 0
        &&& self.orders.len() <= u64::MAX
        &&& forall|i: int| 0 <= i < self.orders.len() ==> (#[trigger] self.orders[i]).id == i + 1
    }

    pub open spec fn asset(self, code: Seq<char>) -> Option<Asset> {
        lookup(self.assets, asset_key(), code)
    }

    pub open spec fn volume(self, code: Seq<char>) -> i128 {
        if has_key(self.assets, asset_key(), code) {
            self.volumes[key_index(self.assets, asset_key(), code)]
        } else {
            0
        }
    }

    /// The open position of `trader` in `code`.
    pub open spec fn holding(self, trader: AccountId, code: Seq<char>) -> Option<Holding> {
        match lookup(self.positions, position_key(), (trader, code)) {
            Some(e) => if e.1.quantity > 0 {
                Some(e.1)
            } else {
                None
            },
            None => None,
        }
    }

    pub open spec fn order(self, order_id: u64) -> Option<Order> {
        if 1 <= order_id <= self.orders.len() {
            Some(self.orders[order_id - 1])
        } else {
            None
        }
    }

    pub open spec fn admin_failure(self, caller: AccountId) -> Option<StockError> {
        match self.admin {
            None => Some(StockError::NotInitialized),
            Some(a) => if a != caller {
                Some(StockError::Unauthorized)
            } else {
                None
            },
        }
    }

    /// The checks that every trade of `trader` in `code` makes first.
    pub open spec fn trade_failure(self, caller: AccountId, trader: AccountId, code: Seq<char>) -> Option<
        StockError,
    > {
        if caller != trader {
            Some(StockError::Unauthorized)
        } else if self.admin is None {
            Some(StockError::NotInitialized)
        } else if self.asset(code) is None {
            Some(StockError::NotFound)
        } else if !self.asset(code)->0.is_active {
            Some(StockError::InvalidState)
        } else {
            None
        }
    }

    pub open spec fn buy_failure(self, caller: AccountId, trader: AccountId, code: Seq<char>, quantity: i128) -> Option<
        StockError,
    > {
        let a = self.asset(code)->0;
        let cost = a.price * quantity;
        let h = self.holding(trader, code)->0;
        if self.trade_failure(caller, trader, code) is Some {
            self.trade_failure(caller, trader, code)
        } else if quantity <= 0 {
            Some(StockError::InvalidArgument)
        } else if a.available_supply < quantity {
            Some(StockError::InsufficientSupply)
        } else if !in_i128(cost) || !in_i128(cost * self.fee_percent) || !in_i128(
            cost + fee_on(cost, self.fee_percent),
        ) || !in_i128(self.volume(code) + cost) || self.orders.len() + 1 > u64::MAX || (self.holding(
            trader,
            code,
        ) is Some && (!in_i128(h.quantity + quantity) || !in_i128(h.total_invested + cost))) {
            Some(StockError::Overflow)
        } else {
            None
        }
    }

    /// The position of `trader` after buying `quantity` of `code` at `price`.
    pub open spec fn bought(self, trader: AccountId, code: String, quantity: i128, price: i128) -> Holding {
        let cost = price * quantity;
        match self.holding(trader, code@) {
            Some(h) => Holding {
                asset_code: code,
                quantity: (h.quantity + quantity) as i128,
                avg_buy_price: trunc_div(h.total_invested + cost, h.quantity + quantity) as i128,
                total_invested: (h.total_invested + cost) as i128,
            },
            None => Holding {
                asset_code: code,
                quantity,
                avg_buy_price: price,
                total_invested: cost as i128,
            },
        }
    }

    pub open spec fn sell_failure(self, caller: AccountId, trader: AccountId, code: Seq<char>, quantity: i128) -> Option<
        StockError,
    > {
        let a = self.asset(code)->0;
        let h = self.holding(trader, code)->0;
        let proceeds = a.price * quantity;
        let proportion = trunc_div(quantity * BASIS_POINTS, h.quantity as int);
        let sold = trunc_div(h.total_invested * proportion, BASIS_POINTS as int);
        if self.trade_failure(caller, trader, code) is Some {
            self.trade_failure(caller, trader, code)
        } else if quantity <= 0 {
            Some(StockError::InvalidArgument)
        } else if self.holding(trader, code) is None {
            Some(StockError::NotFound)
        } else if h.quantity < quantity {
            Some(StockError::InsufficientHoldings)
        } else if !in_i128(proceeds) || !in_i128(proceeds * self.fee_percent) || !in_i128(
            proceeds - fee_on(proceeds, self.fee_percent),
        ) || !in_i128(a.available_supply + quantity) || !in_i128(self.volume(code) + proceeds)
            || self.orders.len() + 1 > u64::MAX || (h.quantity > quantity && (!in_i128(
            quantity * BASIS_POINTS,
        ) || !in_i128(h.total_invested * proportion) || !in_i128(h.total_invested - sold))) {
            Some(StockError::Overflow)
        } else {
            None
        }
    }

    /// The position of `trader` after selling `quantity` of `code`; a
    /// position sold out is closed (kept with quantity zero).
    pub open spec fn sold(self, trader: AccountId, code: String, quantity: i128) -> Holding {
        let h = self.holding(trader, code@)->0;
        let proportion = trunc_div(quantity * BASIS_POINTS, h.quantity as int);
        let sold = trunc_div(h.total_invested * proportion, BASIS_POINTS as int);
        if h.quantity > quantity {
            Holding {
                asset_code: code,
                quantity: (h.quantity - quantity) as i128,
                avg_buy_price: h.avg_buy_price,
                total_invested: (h.total_invested - sold) as i128,
            }
        } else {
            Holding { asset_code: code, quantity: 0, avg_buy_price: h.avg_buy_price, total_invested: 0 }
        }
    }

    /// The order that a trade or a limit order records.
    pub open spec fn new_order(
        self,
        now: u64,
        trader: AccountId,
        code: String,
        order_type: OrderType,
        quantity: i128,
        filled_quantity: i128,
        price: i128,
        status: OrderStatus,
    ) -> Order {
        Order {
            id: (self.orders.len() + 1) as u64,
            trader,
            asset_code: code,
            order_type,
            quantity,
            filled_quantity,
            price,
            status,
            timestamp: now,
        }
    }

    /// The state after a market trade of `quantity` of `code` at the listed
    /// price, with the listed supply and the position set as given.
    pub open spec fn traded(
        self,
        now: u64,
        trader: AccountId,
        code: String,
        order_type: OrderType,
        quantity: i128,
        available_supply: i128,
        position: Holding,
        total: i128,
    ) -> StockBook {
        let i = key_index(self.assets, asset_key(), code@);
        let a = self.assets[i];
        let id = (self.orders.len() + 1) as u64;
        StockBook {
            assets: self.assets.update(i, Asset { available_supply, ..a }),
            volumes: self.volumes.update(i, (self.volumes[i] + a.price * quantity) as i128),
            positions: put(self.positions, position_key(), (trader, position)),
            orders: self.orders.push(
                self.new_order(now, trader, code, order_type, quantity, quantity, a.price, OrderStatus::Filled),
            ),
            events: self.events.push(
                TradeEvent::OrderCreated {
                    order_id: id,
                    trader,
                    asset_code: code,
                    order_type,
                    quantity,
                    price: a.price,
                },
            ).push(
                TradeEvent::OrderFilled { order_id: id, trader, asset_code: code, quantity, price: a.price },
            ).push(
                TradeEvent::TradeExecuted {
                    trader,
                    asset_code: code,
                    order_type,
                    quantity,
                    price: a.price,
                    total,
                },
            ),
            ..self
        }
    }

    pub open spec fn limit_failure(
        self,
        caller: AccountId,
        trader: AccountId,
        code: Seq<char>,
        order_type: OrderType,
        quantity: i128,
    ) -> Option<StockError> {
        if self.trade_failure(caller, trader, code) is Some {
            self.trade_failure(caller, trader, code)
        } else if order_type == OrderType::Sell && self.holding(trader, code) is None {
            Some(StockError::NotFound)
        } else if order_type == OrderType::Sell && self.holding(trader, code)->0.quantity < quantity {
            Some(StockError::InsufficientHoldings)
        } else if self.orders.len() + 1 > u64::MAX {
            Some(StockError::Overflow)
        } else {
            None
        }
    }

    /// What position `i` adds to the value of `trader`'s portfolio.
    pub open spec fn position_value(self, trader: AccountId, i: int) -> int {
        let e = self.positions[i];
        if e.0 == trader && self.asset(e.1.asset_code@) is Some {
            e.1.quantity * self.asset(e.1.asset_code@)->0.price
        } else {
            0
        }
    }

    /// What position `i` adds to the profit of `trader`'s portfolio.
    pub open spec fn position_pnl(self, trader: AccountId, i: int) -> int {
        let e = self.positions[i];
        if e.0 == trader && self.asset(e.1.asset_code@) is Some {
            e.1.quantity * self.asset(e.1.asset_code@)->0.price - e.1.total_invested
        } else {
            0
        }
    }

    /// The sum of `f` over the first `n` positions.
    pub open spec fn positions_sum(self, f: spec_fn(int) -> int, n: int) -> int
        decreases n,
    {
        if n <= 0 {
            0
        } else {
            self.positions_sum(f, n - 1) + f(n - 1)
        }
    }
}

/// Lists assets and records trades at the listed price.
pub struct StockTradingContract {
    admin: Option<AccountId>,
    fee_recipient: AccountId,
    fee_percent: u32,
    assets: Vec<Asset>,
    volumes: Vec<i128>,
    positions: Vec<(AccountId, Holding)>,
    orders: Vec<Order>,
    events: Vec<TradeEvent>,
}

impl View for StockTradingContract {
    type V = StockBook;

    closed spec fn view(&self) -> StockBook {
        StockBook {
            admin: self.admin,
            fee_recipient: self.fee_recipient,
            fee_percent: self.fee_percent,
            assets: self.assets@,
            volumes: self.volumes@,
            positions: self.positions@,
            orders: self.orders@,
            events: self.events@,
        }
    }
}

fn copy_holding(h: &Holding) -> (r: Holding)
    ensures
        r == *h,
{
    Holding {
        asset_code: h.asset_code.clone(),
        quantity: h.quantity,
        avg_buy_price: h.avg_buy_price,
        total_invested: h.total_invested,
    }
}

fn copy_order(o: &Order) -> (r: Order)
    ensures
        r == *o,
{
    Order {
        id: o.id,
        trader: o.trader,
        asset_code: o.asset_code.clone(),
        order_type: o.order_type,
        quantity: o.quantity,
        filled_quantity: o.filled_quantity,
        price: o.price,
        status: o.status,
        timestamp: o.timestamp,
    }
}

/// The open positions of `trader` among the first `n`, in order.
pub open spec fn open_positions(positions: Seq<(AccountId, Holding)>, trader: AccountId, n: nat) -> Seq<Holding>
    decreases n,
{
    if n == 0 {
        Seq::empty()
    } else {
        let earlier = open_positions(positions, trader, (n - 1) as nat);
        let e = positions[n - 1];
        if e.0 == trader && e.1.quantity > 0 {
            earlier.push(e.1)
        } else {
            earlier
        }
    }
}

/// The orders of `trader` among the first `n`, in order.
pub open spec fn orders_of(orders: Seq<Order>, trader: AccountId, n: nat) -> Seq<Order>
    decreases n,
{
    if n == 0 {
        Seq::empty()
    } else {
        let earlier = orders_of(orders, trader, (n - 1) as nat);
        if orders[n - 1].trader == trader {
            earlier.push(orders[n - 1])
        } else {
            earlier
        }
    }
}

impl StockTradingContract {
    pub fn new() -> (r: Self)
        ensures
            r@.wf(),
            r@.admin is None,
            r@.assets.len() == 0,
            r@.positions.len() == 0,
            r@.orders.len() == 0,
            r@.events.len() == 0,
    {
        StockTradingContract {
            admin: None,
            fee_recipient: 0,
            fee_percent: 0,
            assets: Vec::new(),
            volumes: Vec::new(),
            positions: Vec::new(),
            orders: Vec::new(),
            events: Vec::new(),
        }
    }

    fn find_asset(&self, code: &String) -> (r: Option<usize>)
        requires
            self@.wf(),
        ensures
            match r {
                Some(i) => i < self.assets@.len() && self.assets@[i as int].code@ == code@ && self@.asset(code@)
                    == Some(self.assets@[i as int]) && has_key(self.assets@, asset_key(), code@)
                    && key_index(self.assets@, asset_key(), code@) == i,
                None => !has_key(self.assets@, asset_key(), code@) && self@.asset(code@) is None,
            },
    {
        let mut i: usize = 0;
        while i < self.assets.len()
            invariant
                self@.wf(),
                i <= self.assets@.len(),
                forall|j: int| 0 <= j < i ==> self.assets@[j].code@ != code@,
            decreases self.assets@.len() - i,
        {
            if self.assets[i].code == *code {
                proof {
                    lemma_lookup_at(self.assets@, asset_key(), i as int);
                }
                return Some(i);
            }
            i += 1;
        }
        None
    }

    fn find_position(&self, trader: AccountId, code: &String) -> (r: Option<usize>)
        requires
            self@.wf(),
        ensures
            match r {
                Some(i) => i < self.positions@.len() && self.positions@[i as int].0 == trader
                    && self.positions@[i as int].1.asset_code@ == code@ && lookup(
                    self.positions@,
                    position_key(),
                    (trader, code@),
                ) == Some(self.positions@[i as int]) && key_index(
                    self.positions@,
                    position_key(),
                    (trader, code@),
                ) == i,
                None => !has_key(self.positions@, position_key(), (trader, code@)),
            },
    {
        let mut i: usize = 0;
        while i < self.positions.len()
            invariant
                self@.wf(),
                i <= self.positions@.len(),
                forall|j: int|
                    0 <= j < i ==> (self.positions@[j].0, self.positions@[j].1.asset_code@) != (trader, code@),
            decreases self.positions@.len() - i,
        {
            if self.positions[i].0 == trader && self.positions[i].1.asset_code == *code {
                proof {
                    lemma_lookup_at(self.positions@, position_key(), i as int);
                }
                return Some(i);
            }
            i += 1;
        }
        None
    }

    /// Makes `admin` the admin, with the given fee settings; only once, and
    /// only by `admin`.
    pub fn initialize(&mut self, caller: AccountId, admin: AccountId, fee_recipient: AccountId, fee_percent: u32) -> (r:
        Result<(), StockError>)
        requires
            old(self)@.wf(),
        ensures
            final(self)@.wf(),
            old(self)@.admin is Some ==> r == Err::<(), StockError>(StockError::AlreadyInitialized)
                && final(self)@ == old(self)@,
            old(self)@.admin is None && caller != admin ==> r == Err::<(), StockError>(StockError::Unauthorized)
                && final(self)@ == old(self)@,
            old(self)@.admin is None && caller == admin ==> r is Ok && final(self)@ == (StockBook {
                admin: Some(admin),
                fee_recipient,
                fee_percent,
                ..old(self)@
            }),
    {
        if self.admin.is_some() {
            return Err(StockError::AlreadyInitialized);
        }
        if caller != admin {
            return Err(StockError::Unauthorized);
        }
        self.admin = Some(admin);
        self.fee_recipient = fee_recipient;
        self.fee_percent = fee_percent;
        Ok(())
    }

    fn check_admin(&self, caller: AccountId) -> (r: Result<(), StockError>)
        ensures
            match self@.admin_failure(caller) {
                Some(e) => r == Err::<(), StockError>(e),
                None => r is Ok,
            },
    {
        match self.admin {
            None => Err(StockError::NotInitialized),
            Some(a) => if a != caller {
                Err(StockError::Unauthorized)
            } else {
                Ok(())
            },
        }
    }

    /// Lists `code` at `initial_price` with all of `total_supply` available;
    /// an asset already listed under `code` is replaced and its volume reset.
    pub fn add_asset(
        &mut self,
        caller: AccountId,
        code: String,
        name: String,
        initial_price: i128,
        total_supply: i128,
    ) -> (r: Result<(), StockError>)
        requires
            old(self)@.wf(),
        ensures
            final(self)@.wf(),
            match old(self)@.admin_failure(caller) {
                Some(e) => r == Err::<(), StockError>(e) && final(self)@ == old(self)@,
                None => r is Ok && final(self)@.asset(code@) == Some(
                    Asset {
                        code,
                        name,
                        price: initial_price,
                        total_supply,
                        available_supply: total_supply,
                        is_active: true,
                    },
                ) && final(self)@.volume(code@) == 0 && final(self)@.assets == put(
                    old(self)@.assets,
                    asset_key(),
                    Asset {
                        code,
                        name,
                        price: initial_price,
                        total_supply,
                        available_supply: total_supply,
                        is_active: true,
                    },
                ) && final(self)@.positions == old(self)@.positions && final(self)@.orders == old(
                    self,
                )@.orders && final(self)@.events == old(self)@.events && final(self)@.admin == old(
                    self,
                )@.admin && final(self)@.fee_percent == old(self)@.fee_percent,
            },
    {
        let ghost pre = self@;
        match self.check_admin(caller) {
            Ok(()) => {},
            Err(e) => {
                return Err(e);
            },
        }
        let asset = Asset {
            code: code.clone(),
            name,
            price: initial_price,
            total_supply,
            available_supply: total_supply,
            is_active: true,
        };
        match self.find_asset(&code) {
            Some(i) => {
                self.assets.set(i, asset);
                self.volumes.set(i, 0);
                proof {
                    lemma_lookup_put(pre.assets, asset_key(), asset);
                    lemma_lookup_at(self@.assets, asset_key(), i as int);
                }
            },
            None => {
                self.assets.push(asset);
                self.volumes.push(0);
                proof {
                    lemma_lookup_put(pre.assets, asset_key(), asset);
                    lemma_lookup_at(self@.assets, asset_key(), pre.assets.len() as int);
                }
            },
        }
        Ok(())
    }

    /// Sets the listed price of `asset_code`; admin only.
    pub fn update_price(&mut self, caller: AccountId, asset_code: String, new_price: i128) -> (r: Result<
        (),
        StockError,
    >)
        requires
            old(self)@.wf(),
        ensures
            final(self)@.wf(),
            match old(self)@.admin_failure(caller) {
                Some(e) => r == Err::<(), StockError>(e) && final(self)@ == old(self)@,
                None => if old(self)@.asset(asset_code@) is None {
                    r == Err::<(), StockError>(StockError::NotFound) && final(self)@ == old(self)@
                } else {
                    r is Ok && final(self)@ == (StockBook {
                        assets: put(
                            old(self)@.assets,
                            asset_key(),
                            Asset { price: new_price, ..old(self)@.asset(asset_code@)->0 },
                        ),
                        ..old(self)@
                    })
                },
            },
    {
        let ghost pre = self@;
        match self.check_admin(caller) {
            Ok(()) => {},
            Err(e) => {
                return Err(e);
            },
        }
        let i = match self.find_asset(&asset_code) {
            Some(i) => i,
            None => {
                return Err(StockError::NotFound);
            },
        };
        self.assets[i].price = new_price;
        proof {
            lemma_lookup_put(pre.assets, asset_key(), self@.assets[i as int]);
        }
        Ok(())
    }

    /// Opens or closes `asset_code` to trading; admin only.
    pub fn set_asset_active(&mut self, caller: AccountId, asset_code: String, is_active: bool) -> (r: Result<
        (),
        StockError,
    >)
        requires
            old(self)@.wf(),
        ensures
            final(self)@.wf(),
            match old(self)@.admin_failure(caller) {
                Some(e) => r == Err::<(), StockError>(e) && final(self)@ == old(self)@,
                None => if old(self)@.asset(asset_code@) is None {
                    r == Err::<(), StockError>(StockError::NotFound) && final(self)@ == old(self)@
                } else {
                    r is Ok && final(self)@ == (StockBook {
                        assets: put(
                            old(self)@.assets,
                            asset_key(),
                            Asset { is_active, ..old(self)@.asset(asset_code@)->0 },
                        ),
                        ..old(self)@
                    })
                },
            },
    {
        let ghost pre = self@;
        match self.check_admin(caller) {
            Ok(()) => {},
            Err(e) => {
                return Err(e);
            },
        }
        let i = match self.find_asset(&asset_code) {
            Some(i) => i,
            None => {
                return Err(StockError::NotFound);
            },
        };
        self.assets[i].is_active = is_active;
        proof {
            lemma_lookup_put(pre.assets, asset_key(), self@.assets[i as int]);
        }
        Ok(())
    }

    /// Sets the trading fee, in basis points; admin only.
    pub fn set_fee_percent(&mut self, caller: AccountId, fee_percent: u32) -> (r: Result<(), StockError>)
        requires
            old(self)@.wf(),
        ensures
            final(self)@.wf(),
            match old(self)@.admin_failure(caller) {
                Some(e) => r == Err::<(), StockError>(e) && final(self)@ == old(self)@,
                None => r is Ok && final(self)@ == (StockBook { fee_percent, ..old(self)@ }),
            },
    {
        match self.check_admin(caller) {
            Ok(()) => {},
            Err(e) => {
                return Err(e);
            },
        }
        self.fee_percent = fee_percent;
        Ok(())
    }

    /// Records a filled market order and its three announcements.
    fn record_trade(
        &mut self,
        now: u64,
        trader: AccountId,
        code: String,
        order_type: OrderType,
        quantity: i128,
        price: i128,
        total: i128,
    ) -> (order: Order)
        requires
            old(self)@.orders.len() + 1 <= u64::MAX,
            forall|i: int| 0 <= i < old(self)@.orders.len() ==> (#[trigger] old(self)@.orders[i]).id == i + 1,
        ensures
            order == old(self)@.new_order(now, trader, code, order_type, quantity, quantity, price, OrderStatus::Filled),
            final(self)@ == (StockBook {
                orders: old(self)@.orders.push(order),
                events: old(self)@.events.push(
                    TradeEvent::OrderCreated {
                        order_id: order.id,
                        trader,
                        asset_code: code,
                        order_type,
                        quantity,
                        price,
                    },
                ).push(
                    TradeEvent::OrderFilled { order_id: order.id, trader, asset_code: code, quantity, price },
                ).push(
                    TradeEvent::TradeExecuted { trader, asset_code: code, order_type, quantity, price, total },
                ),
                ..old(self)@
            }),
    {
        let id = self.orders.len() as u64 + 1;
        let order = Order {
            id,
            trader,
            asset_code: code.clone(),
            order_type,
            quantity,
            filled_quantity: quantity,
            price,
            status: OrderStatus::Filled,
            timestamp: now,
        };
        self.orders.push(copy_order(&order));
        self.events.push(
            TradeEvent::OrderCreated {
                order_id: id,
                trader,
                asset_code: code.clone(),
                order_type,
                quantity,
                price,
            },
        );
        self.events.push(
            TradeEvent::OrderFilled { order_id: id, trader, asset_code: code.clone(), quantity, price },
        );
        self.events.push(TradeEvent::TradeExecuted { trader, asset_code: code, order_type, quantity, price, total });
        order
    }

    /// Buys `quantity` of `asset_code` for `trader` at the listed price.
    pub fn buy(&mut self, caller: AccountId, now: u64, trader: AccountId, asset_code: String, quantity: i128) -> (r:
        Result<Order, StockError>)
        requires
            old(self)@.wf(),
        ensures
            final(self)@.wf(),
            ({
                let pre = old(self)@;
                let a = pre.asset(asset_code@)->0;
                let cost = a.price * quantity;
                match pre.buy_failure(caller, trader, asset_code@, quantity) {
                    Some(e) => r == Err::<Order, StockError>(e) && final(self)@ == pre,
                    None => r == Ok::<Order, StockError>(
                        pre.new_order(now, trader, asset_code, OrderType::Buy, quantity, quantity, a.price, OrderStatus::Filled),
                    ) && final(self)@ == pre.traded(
                        now,
                        trader,
                        asset_code,
                        OrderType::Buy,
                        quantity,
                        (a.available_supply - quantity) as i128,
                        pre.bought(trader, asset_code, quantity, a.price),
                        (cost + fee_on(cost, pre.fee_percent)) as i128,
                    ),
                }
            }),
    {
        let ghost pre = self@;
        if caller != trader {
            return Err(StockError::Unauthorized);
        }
        if self.admin.is_none() {
            return Err(StockError::NotInitialized);
        }
        let ai = match self.find_asset(&asset_code) {
            Some(i) => i,
            None => {
                return Err(StockError::NotFound);
            },
        };
        if !self.assets[ai].is_active {
            return Err(StockError::InvalidState);
        }
        if quantity <= 0 {
            return Err(StockError::InvalidArgument);
        }
        let available = self.assets[ai].available_supply;
        if available < quantity {
            return Err(StockError::InsufficientSupply);
        }
        let price = self.assets[ai].price;
        let cost = match price.checked_mul(quantity) {
            Some(x) => x,
            None => {
                return Err(StockError::Overflow);
            },
        };
        let scaled = match cost.checked_mul(self.fee_percent as i128) {
            Some(x) => x,
            None => {
                return Err(StockError::Overflow);
            },
        };
        let total_with_fee = match cost.checked_add(scaled / BASIS_POINTS) {
            Some(x) => x,
            None => {
                return Err(StockError::Overflow);
            },
        };
        let volume = match self.volumes[ai].checked_add(cost) {
            Some(x) => x,
            None => {
                return Err(StockError::Overflow);
            },
        };
        if self.orders.len() as u64 == u64::MAX {
            return Err(StockError::Overflow);
        }
        let pi = self.find_position(trader, &asset_code);
        let open = match pi {
            Some(i) => self.positions[i].1.quantity > 0,
            None => false,
        };
        let position = match pi {
            Some(i) if open => {
                let h = &self.positions[i].1;
                let new_quantity = match h.quantity.checked_add(quantity) {
                    Some(x) => x,
                    None => {
                        return Err(StockError::Overflow);
                    },
                };
                let new_total = match h.total_invested.checked_add(cost) {
                    Some(x) => x,
                    None => {
                        return Err(StockError::Overflow);
                    },
                };
                Holding {
                    asset_code: asset_code.clone(),
                    quantity: new_quantity,
                    avg_buy_price: new_total / new_quantity,
                    total_invested: new_total,
                }
            },
            _ => Holding { asset_code: asset_code.clone(), quantity, avg_buy_price: price, total_invested: cost },
        };
        proof {
            assert(position == pre.bought(trader, asset_code, quantity, price));
        }
        // Every check has passed: commit.
        self.assets[ai].available_supply = available - quantity;
        self.volumes.set(ai, volume);
        match pi {
            Some(i) => {
                self.positions.set(i, (trader, position));
            },
            None => {
                self.positions.push((trader, position));
            },
        }
        proof {
            lemma_lookup_put(pre.positions, position_key(), (trader, position));
            lemma_lookup_put(pre.assets, asset_key(), self@.assets[ai as int]);
        }
        let order = self.record_trade(now, trader, asset_code, OrderType::Buy, quantity, price, total_with_fee);
        Ok(order)
    }

    /// Sells `quantity` of `asset_code` for `trader` at the listed price.
    pub fn sell(&mut self, caller: AccountId, now: u64, trader: AccountId, asset_code: String, quantity: i128) -> (r:
        Result<Order, StockError>)
        requires
            old(self)@.wf(),
        ensures
            final(self)@.wf(),
            ({
                let pre = old(self)@;
                let a = pre.asset(asset_code@)->0;
                let proceeds = a.price * quantity;
                match pre.sell_failure(caller, trader, asset_code@, quantity) {
                    Some(e) => r == Err::<Order, StockError>(e) && final(self)@ == pre,
                    None => r == Ok::<Order, StockError>(
                        pre.new_order(now, trader, asset_code, OrderType::Sell, quantity, quantity, a.price, OrderStatus::Filled),
                    ) && final(self)@ == pre.traded(
                        now,
                        trader,
                        asset_code,
                        OrderType::Sell,
                        quantity,
                        (a.available_supply + quantity) as i128,
                        pre.sold(trader, asset_code, quantity),
                        (proceeds - fee_on(proceeds, pre.fee_percent)) as i128,
                    ),
                }
            }),
    {
        let ghost pre = self@;
        if caller != trader {
            return Err(StockError::Unauthorized);
        }
        if self.admin.is_none() {
            return Err(StockError::NotInitialized);
        }
        let ai = match self.find_asset(&asset_code) {
            Some(i) => i,
            None => {
                return Err(StockError::NotFound);
            },
        };
        if !self.assets[ai].is_active {
            return Err(StockError::InvalidState);
        }
        if quantity <= 0 {
            return Err(StockError::InvalidArgument);
        }
        let pi = match self.find_position(trader, &asset_code) {
            Some(i) => i,
            None => {
                return Err(StockError::NotFound);
            },
        };
        if self.positions[pi].1.quantity <= 0 {
            return Err(StockError::NotFound);
        }
        let held = self.positions[pi].1.quantity;
        let invested = self.positions[pi].1.total_invested;
        let avg_buy_price = self.positions[pi].1.avg_buy_price;
        if held < quantity {
            return Err(StockError::InsufficientHoldings);
        }
        let price = self.assets[ai].price;
        let proceeds = match price.checked_mul(quantity) {
            Some(x) => x,
            None => {
                return Err(StockError::Overflow);
            },
        };
        let scaled = match proceeds.checked_mul(self.fee_percent as i128) {
            Some(x) => x,
            None => {
                return Err(StockError::Overflow);
            },
        };
        let total_after_fee = match proceeds.checked_sub(scaled / BASIS_POINTS) {
            Some(x) => x,
            None => {
                return Err(StockError::Overflow);
            },
        };
        let available = match self.assets[ai].available_supply.checked_add(quantity) {
            Some(x) => x,
            None => {
                return Err(StockError::Overflow);
            },
        };
        let volume = match self.volumes[ai].checked_add(proceeds) {
            Some(x) => x,
            None => {
                return Err(StockError::Overflow);
            },
        };
        if self.orders.len() as u64 == u64::MAX {
            return Err(StockError::Overflow);
        }
        let position = if held > quantity {
            let scaled_quantity = match quantity.checked_mul(BASIS_POINTS) {
                Some(x) => x,
                None => {
                    return Err(StockError::Overflow);
                },
            };
            let proportion_sold = scaled_quantity / held;
            let scaled_sold = match invested.checked_mul(proportion_sold) {
                Some(x) => x,
                None => {
                    return Err(StockError::Overflow);
                },
            };
            let new_total = match invested.checked_sub(scaled_sold / BASIS_POINTS) {
                Some(x) => x,
                None => {
                    return Err(StockError::Overflow);
                },
            };
            Holding {
                asset_code: asset_code.clone(),
                quantity: held - quantity,
                avg_buy_price,
                total_invested: new_total,
            }
        } else {
            Holding { asset_code: asset_code.clone(), quantity: 0, avg_buy_price, total_invested: 0 }
        };
        proof {
            assert(position == pre.sold(trader, asset_code, quantity));
        }
        // Every check has passed: commit.
        self.assets[ai].available_supply = available;
        self.volumes.set(ai, volume);
        self.positions.set(pi, (trader, position));
        proof {
            lemma_lookup_put(pre.positions, position_key(), (trader, position));
            lemma_lookup_put(pre.assets, asset_key(), self@.assets[ai as int]);
        }
        let order = self.record_trade(now, trader, asset_code, OrderType::Sell, quantity, price, total_after_fee);
        Ok(order)
    }

    /// Records a resting order at `limit_price`; a sell must be covered by
    /// the trader's position. Nothing is filled here.
    pub fn place_limit_order(
        &mut self,
        caller: AccountId,
        now: u64,
        trader: AccountId,
        asset_code: String,
        order_type: OrderType,
        quantity: i128,
        limit_price: i128,
    ) -> (r: Result<Order, StockError>)
        requires
            old(self)@.wf(),
        ensures
            final(self)@.wf(),
            ({
                let pre = old(self)@;
                let order = pre.new_order(now, trader, asset_code, order_type, quantity, 0, limit_price, OrderStatus::Pending);
                match pre.limit_failure(caller, trader, asset_code@, order_type, quantity) {
                    Some(e) => r == Err::<Order, StockError>(e) && final(self)@ == pre,
                    None => r == Ok::<Order, StockError>(order) && final(self)@ == (StockBook {
                        orders: pre.orders.push(order),
                        events: pre.events.push(
                            TradeEvent::OrderCreated {
                                order_id: order.id,
                                trader,
                                asset_code,
                                order_type,
                                quantity,
                                price: limit_price,
                            },
                        ),
                        ..pre
                    }),
                }
            }),
    {
        if caller != trader {
            return Err(StockError::Unauthorized);
        }
        if self.admin.is_none() {
            return Err(StockError::NotInitialized);
        }
        let ai = match self.find_asset(&asset_code) {
            Some(i) => i,
            None => {
                return Err(StockError::NotFound);
            },
        };
        if !self.assets[ai].is_active {
            return Err(StockError::InvalidState);
        }
        if order_type == OrderType::Sell {
            match self.find_position(trader, &asset_code) {
                Some(i) => {
                    if self.positions[i].1.quantity <= 0 {
                        return Err(StockError::NotFound);
                    }
                    if self.positions[i].1.quantity < quantity {
                        return Err(StockError::InsufficientHoldings);
                    }
                },
                None => {
                    return Err(StockError::NotFound);
                },
            }
        }
        if self.orders.len() as u64 == u64::MAX {
            return Err(StockError::Overflow);
        }
        let id = self.orders.len() as u64 + 1;
        let order = Order {
            id,
            trader,
            asset_code: asset_code.clone(),
            order_type,
            quantity,
            filled_quantity: 0,
            price: limit_price,
            status: OrderStatus::Pending,
            timestamp: now,
        };
        self.orders.push(copy_order(&order));
        self.events.push(
            TradeEvent::OrderCreated { order_id: id, trader, asset_code, order_type, quantity, price: limit_price },
        );
        Ok(order)
    }

    /// Cancels a pending or partly filled order of `trader`.
    pub fn cancel_order(&mut self, caller: AccountId, trader: AccountId, order_id: u64) -> (r: Result<(), StockError>)
        requires
            old(self)@.wf(),
        ensures
            final(self)@.wf(),
            ({
                let pre = old(self)@;
                let o = pre.order(order_id)->0;
                if caller != trader {
                    r == Err::<(), StockError>(StockError::Unauthorized) && final(self)@ == pre
                } else if pre.order(order_id) is None || o.trader != trader {
                    r == Err::<(), StockError>(StockError::NotFound) && final(self)@ == pre
                } else if o.status != OrderStatus::Pending && o.status != OrderStatus::PartiallyFilled {
                    r == Err::<(), StockError>(StockError::InvalidState) && final(self)@ == pre
                } else {
                    r is Ok && final(self)@ == (StockBook {
                        orders: pre.orders.update(order_id - 1, Order { status: OrderStatus::Cancelled, ..o }),
                        ..pre
                    })
                }
            }),
    {
        if caller != trader {
            return Err(StockError::Unauthorized);
        }
        if order_id == 0 || order_id > self.orders.len() as u64 {
            return Err(StockError::NotFound);
        }
        let i = (order_id - 1) as usize;
        if self.orders[i].trader != trader {
            return Err(StockError::NotFound);
        }
        let status = self.orders[i].status;
        if status != OrderStatus::Pending && status != OrderStatus::PartiallyFilled {
            return Err(StockError::InvalidState);
        }
        self.orders[i].status = OrderStatus::Cancelled;
        Ok(())
    }

    /// Every listed asset, in order of listing.
    pub fn get_assets(&self) -> (r: &Vec<Asset>)
        ensures
            r@ == self@.assets,
    {
        &self.assets
    }

    pub fn get_asset(&self, asset_code: &String) -> (r: Option<&Asset>)
        requires
            self@.wf(),
        ensures
            match r {
                Some(a) => self@.asset(asset_code@) == Some(*a),
                None => self@.asset(asset_code@) is None,
            },
    {
        match self.find_asset(asset_code) {
            Some(i) => Some(&self.assets[i]),
            None => None,
        }
    }

    /// The open positions of `trader`, in the order they were opened.
    pub fn get_user_holdings(&self, trader: AccountId) -> (r: Vec<Holding>)
        ensures
            r@ == open_positions(self@.positions, trader, self@.positions.len()),
    {
        let mut out: Vec<Holding> = Vec::new();
        let mut i: usize = 0;
        while i < self.positions.len()
            invariant
                i <= self.positions@.len(),
                out@ == open_positions(self@.positions, trader, i as nat),
            decreases self.positions@.len() - i,
        {
            if self.positions[i].0 == trader && self.positions[i].1.quantity > 0 {
                out.push(copy_holding(&self.positions[i].1));
            }
            i += 1;
        }
        out
    }

    pub fn get_user_holding(&self, trader: AccountId, asset_code: &String) -> (r: Option<&Holding>)
        requires
            self@.wf(),
        ensures
            match r {
                Some(h) => self@.holding(trader, asset_code@) == Some(*h),
                None => self@.holding(trader, asset_code@) is None,
            },
    {
        match self.find_position(trader, asset_code) {
            Some(i) => if self.positions[i].1.quantity > 0 {
                Some(&self.positions[i].1)
            } else {
                None
            },
            None => None,
        }
    }

    /// The orders of `trader`, oldest first.
    pub fn get_user_orders(&self, trader: AccountId) -> (r: Vec<Order>)
        ensures
            r@ == orders_of(self@.orders, trader, self@.orders.len()),
    {
        let mut out: Vec<Order> = Vec::new();
        let mut i: usize = 0;
        while i < self.orders.len()
            invariant
                i <= self.orders@.len(),
                out@ == orders_of(self@.orders, trader, i as nat),
            decreases self.orders@.len() - i,
        {
            if self.orders[i].trader == trader {
                out.push(copy_order(&self.orders[i]));
            }
            i += 1;
        }
        out
    }

    /// Order `order_id`, where it belongs to `trader`.
    pub fn get_order(&self, trader: AccountId, order_id: u64) -> (r: Option<&Order>)
        ensures
            match r {
                Some(o) => self@.order(order_id) == Some(*o) && o.trader == trader,
                None => self@.order(order_id) is None || self@.order(order_id)->0.trader != trader,
            },
    {
        if order_id == 0 || order_id > self.orders.len() as u64 {
            return None;
        }
        let o = &self.orders[(order_id - 1) as usize];
        if o.trader == trader {
            Some(o)
        } else {
            None
        }
    }

    /// The value traded in `asset_code` since it was listed; 0 if unlisted.
    pub fn get_asset_volume(&self, asset_code: &String) -> (r: i128)
        requires
            self@.wf(),
        ensures
            r == self@.volume(asset_code@),
    {
        match self.find_asset(asset_code) {
            Some(i) => self.volumes[i],
            None => 0,
        }
    }

    /// The price of listed asset `code`, if it is listed.
    fn listed_price(&self, code: &String) -> (r: Option<i128>)
        requires
            self@.wf(),
        ensures
            r == match self@.asset(code@) {
                Some(a) => Some(a.price),
                None => None::<i128>,
            },
    {
        match self.find_asset(code) {
            Some(i) => Some(self.assets[i].price),
            None => None,
        }
    }

    /// The current value of `trader`'s positions at listed prices; `None`
    /// where a term or a running total leaves the range of `i128`.
    pub fn get_portfolio_value(&self, trader: AccountId) -> (r: Option<i128>)
        requires
            self@.wf(),
        ensures
            ({
                let f = |i: int| self@.position_value(trader, i);
                match r {
                    Some(v) => v == self@.positions_sum(f, self@.positions.len() as int),
                    None => exists|n: int|
                        1 <= n <= self@.positions.len() && (!in_i128(f(n - 1)) || !in_i128(
                            #[trigger] self@.positions_sum(f, n),
                        )),
                }
            }),
    {
        let ghost f = |i: int| self@.position_value(trader, i);
        let mut total: i128 = 0;
        let mut i: usize = 0;
        while i < self.positions.len()
            invariant
                self@.wf(),
                f == (|i: int| self@.position_value(trader, i)),
                i <= self.positions@.len(),
                total == self@.positions_sum(f, i as int),
            decreases self.positions@.len() - i,
        {
            if self.positions[i].0 == trader {
                match self.listed_price(&self.positions[i].1.asset_code) {
                    Some(price) => {
                        let term = match self.positions[i].1.quantity.checked_mul(price) {
                            Some(x) => x,
                            None => {
                                assert(!in_i128(f(i as int)) && self@.positions_sum(f, i + 1)
                                    == total + f(i as int));
                                return None;
                            },
                        };
                        total = match total.checked_add(term) {
                            Some(x) => x,
                            None => {
                                assert(!in_i128(self@.positions_sum(f, i + 1)));
                                return None;
                            },
                        };
                    },
                    None => {},
                }
            }
            i += 1;
        }
        Some(total)
    }

    /// Current value less the amount invested, over `trader`'s positions;
    /// `None` where a term or a running total leaves the range of `i128`.
    pub fn get_portfolio_pnl(&self, trader: AccountId) -> (r: Option<i128>)
        requires
            self@.wf(),
        ensures
            ({
                let f = |i: int| self@.position_pnl(trader, i);
                match r {
                    Some(v) => v == self@.positions_sum(f, self@.positions.len() as int),
                    None => exists|n: int|
                        1 <= n <= self@.positions.len() && (!in_i128(
                            self@.positions[n - 1].1.quantity * self@.asset(
                                self@.positions[n - 1].1.asset_code@,
                            )->0.price,
                        ) || !in_i128(f(n - 1)) || !in_i128(#[trigger] self@.positions_sum(f, n))),
                }
            }),
    {
        let ghost f = |i: int| self@.position_pnl(trader, i);
        let mut total: i128 = 0;
        let mut i: usize = 0;
        while i < self.positions.len()
            invariant
                self@.wf(),
                f == (|i: int| self@.position_pnl(trader, i)),
                i <= self.positions@.len(),
                total == self@.positions_sum(f, i as int),
            decreases self.positions@.len() - i,
        {
            if self.positions[i].0 == trader {
                match self.listed_price(&self.positions[i].1.asset_code) {
                    Some(price) => {
                        let value = match self.positions[i].1.quantity.checked_mul(price) {
                            Some(x) => x,
                            None => {
                                assert(self@.positions_sum(f, i + 1) == total + f(i as int));
                                return None;
                            },
                        };
                        let term = match value.checked_sub(self.positions[i].1.total_invested) {
                            Some(x) => x,
                            None => {
                                assert(!in_i128(f(i as int)) && self@.positions_sum(f, i + 1)
                                    == total + f(i as int));
                                return None;
                            },
                        };
                        total = match total.checked_add(term) {
                            Some(x) => x,
                            None => {
                                assert(!in_i128(self@.positions_sum(f, i + 1)));
                                return None;
                            },
                        };
                    },
                    None => {},
                }
            }
            i += 1;
        }
        Some(total)
    }

    pub fn events(&self) -> (r: &Vec<TradeEvent>)
        ensures
            r@ == self@.events,
    {
        &self.events
    }
}

} // verus!
