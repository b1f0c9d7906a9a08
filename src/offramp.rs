//! Fiat off-ramp requests: users ask for crypto to be paid out as fiat
//! (by UPI or bank transfer); an operator later settles or fails each one.
use vstd::prelude::*;

use crate::keyed::{has_key, keys_unique, lemma_lookup_at, lemma_lookup_put, lookup, put};
use crate::rwa_model::trunc_div;
use crate::token::AccountId;

verus! {

/// Smallest request accepted, in stroops (one XLM).
pub const DEFAULT_MIN_AMOUNT: i128 = 10_000_000;

/// Largest request accepted, in stroops (ten thousand XLM).
pub const DEFAULT_MAX_AMOUNT: i128 = 100_000_000_000;

/// The INR rate used until one is set, scaled by `RATE_SCALE`.
pub const DEFAULT_INR_RATE: i128 = 100_000_000;

/// Exchange rates are fixed-point numbers with this scale.
pub const RATE_SCALE: i128 = 10_000_000;

/// Fee percentages are given in hundredths of a percent.
pub const FEE_SCALE: i128 = 10_000;

/// The fee percentage used before the contract is initialized (one percent).
pub const DEFAULT_FEE_PERCENT: u32 = 100;

/// Processing time reported for a payout type that has none recorded.
pub const DEFAULT_PROCESSING_HOURS: u32 = 24;

pub const UPI_PROCESSING_HOURS: u32 = 1;

pub const BANK_PROCESSING_HOURS: u32 = 24;

#[derive(Clone, Copy, Debug, PartialEq, Eq, Structural)]
pub enum OfframpType {
    UPI,
    Bank,
}

#[derive(Clone, Copy, Debug, PartialEq, Eq, Structural)]
pub enum RequestStatus {
    Pending,
    Processing,
    Completed,
    Failed,
    Cancelled,
}

#[derive(Clone, Debug)]
pub struct OfframpRequest {
    pub id: u64,
    pub user: AccountId,
    pub offramp_type: OfframpType,
    pub amount_xlm: i128,
    /// In the smallest fiat unit.
    pub amount_fiat: i128,
    pub currency: String,
    /// UPI id or bank account number.
    pub recipient_id: String,
    pub recipient_name: String,
    /// Empty for UPI payouts.
    pub ifsc_code: String,
    pub status: RequestStatus,
    pub created_at: u64,
    pub processed_at: u64,
    /// Rate at the time of the request, scaled by `RATE_SCALE`.
    pub exchange_rate: i128,
    pub fee: i128,
}

/// What `initialize` fixes.
#[derive(Clone, Copy, Debug, PartialEq, Eq, Structural)]
pub struct OfframpSettings {
    pub admin: AccountId,
    pub fee_collector: AccountId,
    pub base_fee_percent: u32,
    pub min_amount: i128,
    pub max_amount: i128,
}

#[derive(Clone, Copy, Debug, PartialEq, Eq, Structural)]
pub enum OfframpError {
    AlreadyInitialized,
    NotInitialized,
    Unauthorized,
    Paused,
    AmountBelowMinimum,
    AmountAboveMaximum,
    NotFound,
    /// The request is not in a state that allows the change.
    InvalidState,
    /// A computed amount or the request counter would leave its integer range.
    Overflow,
}

#[derive(Clone, Copy, Debug, PartialEq, Eq, Structural)]
pub enum OfframpEvent {
    Created { request_id: u64, offramp_type: OfframpType },
    Completed { request_id: u64 },
    Failed { request_id: u64 },
    Cancelled { request_id: u64 },
}

pub open spec fn rate_key() -> spec_fn((String, i128)) -> Seq<char> {
    |e: (String, i128)| e.0@
}

/// The ids of the requests of `who` among the first `n` requests, in order.
pub open spec fn user_request_ids(requests: Seq<OfframpRequest>, who: AccountId, n: nat) -> Seq<u64>
    decreases n,
{
    if n == 0 {
        Seq::empty()
    } else {
        let earlier = user_request_ids(requests, who, (n - 1) as nat);
        if requests[n - 1].user == who {
            earlier.push(requests[n - 1].id)
        } else {
            earlier
        }
    }
}

/// The abstract state of the off-ramp.
pub ghost struct OfframpBook {
    pub settings: Option<OfframpSettings>,
    pub paused: bool,
    pub total_volume: i128,
    pub rates: Seq<(String, i128)>,
    /// Request `i + 1` sits at position `i`.
    pub requests: Seq<OfframpRequest>,
    pub events: Seq<OfframpEvent>,
}

impl OfframpBook {
    pub open spec fn wf(self) -> bool {
        &&& keys_unique(self.rates, rate_key())
        &&& (self.settings is Some ==> self.settings->0.min_amount > 0)
        &&& self.requests.len() <= u64::MAX
        &&& forall|i: int| 0 <= i < self.requests.len() ==> (#[trigger] self.requests[i]).id == i + 1
    }

    pub open spec fn rate(self, currency: Seq<char>) -> Option<i128> {
        match lookup(self.rates, rate_key(), currency) {
            Some(e) => Some(e.1),
            None => None,
        }
    }

    /// The INR rate applied to new requests.
    pub open spec fn inr_rate(self) -> i128 {
        match self.rate("INR"@) {
            Some(r) => r,
            None => DEFAULT_INR_RATE,
        }
    }

    pub open spec fn fee_percent(self) -> u32 {
        match self.settings {
            Some(s) => s.base_fee_percent,
            None => DEFAULT_FEE_PERCENT,
        }
    }

    /// The fee on `amount`: its fee percentage, truncated.
    pub open spec fn fee(self, amount: i128) -> int {
        trunc_div(amount * self.fee_percent(), FEE_SCALE as int)
    }

    /// What the user receives in fiat for `amount`, after the fee.
    pub open spec fn fiat_amount(self, amount: i128) -> int {
        trunc_div((amount - self.fee(amount)) * self.inr_rate(), RATE_SCALE as int)
    }

    pub open spec fn request(self, request_id: u64) -> Option<OfframpRequest> {
        if 1 <= request_id <= self.requests.len() {
            Some(self.requests[request_id - 1])
        } else {
            None
        }
    }

    /// The operator check: `caller` speaks for `admin`, which is the admin.
    pub open spec fn operator_failure(self, caller: AccountId, admin: AccountId) -> Option<OfframpError> {
        if caller != admin {
            Some(OfframpError::Unauthorized)
        } else if self.settings is None {
            Some(OfframpError::NotInitialized)
        } else if self.settings->0.admin != admin {
            Some(OfframpError::Unauthorized)
        } else {
            None
        }
    }

    pub open spec fn request_failure(self, caller: AccountId, user: AccountId, amount: i128) -> Option<
        OfframpError,
    > {
        if caller != user {
            Some(OfframpError::Unauthorized)
        } else if self.paused {
            Some(OfframpError::Paused)
        } else if self.settings is None {
            Some(OfframpError::NotInitialized)
        } else if amount < self.settings->0.min_amount {
            Some(OfframpError::AmountBelowMinimum)
        } else if amount > self.settings->0.max_amount {
            Some(OfframpError::AmountAboveMaximum)
        } else if amount * self.fee_percent() > i128::MAX || (amount - self.fee(amount))
            * self.inr_rate() > i128::MAX || (amount - self.fee(amount)) * self.inr_rate() < i128::MIN
            || self.total_volume + amount > i128::MAX || self.requests.len() + 1 > u64::MAX {
            Some(OfframpError::Overflow)
        } else {
            None
        }
    }

    /// The request that a successful call records, apart from its currency.
    pub open spec fn is_new_request(
        self,
        q: OfframpRequest,
        now: u64,
        user: AccountId,
        offramp_type: OfframpType,
        amount: i128,
        recipient_id: String,
        recipient_name: String,
        ifsc_code: Seq<char>,
    ) -> bool {
        &&& q.id == self.requests.len() + 1
        &&& q.user == user
        &&& q.offramp_type == offramp_type
        &&& q.amount_xlm == amount
        &&& q.amount_fiat == self.fiat_amount(amount)
        &&& q.currency@ == "INR"@
        &&& q.recipient_id == recipient_id
        &&& q.recipient_name == recipient_name
        &&& q.ifsc_code@ == ifsc_code
        &&& q.status == RequestStatus::Pending
        &&& q.created_at == now
        &&& q.processed_at == 0
        &&& q.exchange_rate == self.inr_rate()
        &&& q.fee == self.fee(amount)
    }

    /// The state after a request is recorded.
    pub open spec fn requested(
        self,
        next: OfframpBook,
        now: u64,
        user: AccountId,
        offramp_type: OfframpType,
        amount: i128,
        recipient_id: String,
        recipient_name: String,
        ifsc_code: Seq<char>,
    ) -> bool {
        &&& next.requests.len() == self.requests.len() + 1
        &&& next.requests.drop_last() == self.requests
        &&& self.is_new_request(
            next.requests.last(),
            now,
            user,
            offramp_type,
            amount,
            recipient_id,
            recipient_name,
            ifsc_code,
        )
        &&& next.total_volume == self.total_volume + amount
        &&& next.events == self.events.push(
            OfframpEvent::Created { request_id: (self.requests.len() + 1) as u64, offramp_type },
        )
        &&& next.settings == self.settings
        &&& next.paused == self.paused
        &&& next.rates == self.rates
    }

    /// The requests after request `request_id` moves to `status` at `now`.
    pub open spec fn with_status(self, request_id: u64, status: RequestStatus, now: u64) -> Seq<
        OfframpRequest,
    > {
        let q = self.requests[request_id - 1];
        self.requests.update(request_id - 1, OfframpRequest { status, processed_at: now, ..q })
    }
}

/// Records fiat off-ramp requests and their settlement.
pub struct FiatOfframpContract {
    settings: Option<OfframpSettings>,
    paused: bool,
    total_volume: i128,
    rates: Vec<(String, i128)>,
    requests: Vec<OfframpRequest>,
    events: Vec<OfframpEvent>,
}

impl View for FiatOfframpContract {
    type V = OfframpBook;

    closed spec fn view(&self) -> OfframpBook {
        OfframpBook {
            settings: self.settings,
            paused: self.paused,
            total_volume: self.total_volume,
            rates: self.rates@,
            requests: self.requests@,
            events: self.events@,
        }
    }
}

impl FiatOfframpContract {
    pub fn new() -> (r: Self)
        ensures
            r@.wf(),
            r@.settings is None,
            !r@.paused,
            r@.total_volume == 0,
            r@.rates.len() == 0,
            r@.requests.len() == 0,
            r@.events.len() == 0,
    {
        FiatOfframpContract {
            settings: None,
            paused: false,
            total_volume: 0,
            rates: Vec::new(),
            requests: Vec::new(),
            events: Vec::new(),
        }
    }

    fn find_rate(&self, currency: &String) -> (r: Option<usize>)
        requires
            self@.wf(),
        ensures
            match r {
                Some(i) => i < self.rates@.len() && self.rates@[i as int].0@ == currency@ && self@.rate(
                    currency@,
                ) == Some(self.rates@[i as int].1),
                None => !has_key(self.rates@, rate_key(), currency@) && self@.rate(currency@) is None,
            },
    {
        let mut i: usize = 0;
        while i < self.rates.len()
            invariant
                self@.wf(),
                i <= self.rates@.len(),
                forall|j: int| 0 <= j < i ==> self.rates@[j].0@ != currency@,
            decreases self.rates@.len() - i,
        {
            if self.rates[i].0 == *currency {
                proof {
                    lemma_lookup_at(self.rates@, rate_key(), i as int);
                }
                return Some(i);
            }
            i += 1;
        }
        None
    }

    /// Records `rate` for `currency`, replacing any earlier one.
    fn put_rate(&mut self, currency: String, rate: i128)
        requires
            old(self)@.wf(),
        ensures
            final(self)@.wf(),
            final(self)@ == (OfframpBook {
                rates: put(old(self)@.rates, rate_key(), (currency, rate)),
                ..old(self)@
            }),
            forall|c: Seq<char>|
                #[trigger] final(self)@.rate(c) == if c == currency@ {
                    Some(rate)
                } else {
                    old(self)@.rate(c)
                },
    {
        let ghost pre = self@;
        match self.find_rate(&currency) {
            Some(i) => {
                proof {
                    lemma_lookup_at(pre.rates, rate_key(), i as int);
                }
                self.rates.set(i, (currency, rate));
            },
            None => {
                self.rates.push((currency, rate));
            },
        }
        proof {
            lemma_lookup_put(pre.rates, rate_key(), (currency, rate));
        }
    }

    /// Sets the admin, fee collector and fee, with the default limits,
    /// processing times and INR rate; only once.
    pub fn initialize(&mut self, admin: AccountId, fee_collector: AccountId, base_fee_percent: u32) -> (r:
        Result<(), OfframpError>)
        requires
            old(self)@.wf(),
        ensures
            final(self)@.wf(),
            old(self)@.settings is Some ==> r == Err::<(), OfframpError>(OfframpError::AlreadyInitialized)
                && final(self)@ == old(self)@,
            old(self)@.settings is None ==> r is Ok && final(self)@.settings == Some(
                OfframpSettings {
                    admin,
                    fee_collector,
                    base_fee_percent,
                    min_amount: DEFAULT_MIN_AMOUNT,
                    max_amount: DEFAULT_MAX_AMOUNT,
                },
            ) && !final(self)@.paused && final(self)@.total_volume == 0 && final(self)@.inr_rate()
                == DEFAULT_INR_RATE && final(self)@.requests == old(self)@.requests && final(self)@.events
                == old(self)@.events && forall|c: Seq<char>|
                c != "INR"@ ==> #[trigger] final(self)@.rate(c) == old(self)@.rate(c),
    {
        if self.settings.is_some() {
            return Err(OfframpError::AlreadyInitialized);
        }
        self.settings = Some(
            OfframpSettings {
                admin,
                fee_collector,
                base_fee_percent,
                min_amount: DEFAULT_MIN_AMOUNT,
                max_amount: DEFAULT_MAX_AMOUNT,
            },
        );
        self.total_volume = 0;
        self.paused = false;
        self.put_rate("INR".to_string(), DEFAULT_INR_RATE);
        Ok(())
    }

    fn check_operator(&self, caller: AccountId, admin: AccountId) -> (r: Result<(), OfframpError>)
        ensures
            match self@.operator_failure(caller, admin) {
                Some(e) => r == Err::<(), OfframpError>(e),
                None => r is Ok,
            },
    {
        if caller != admin {
            return Err(OfframpError::Unauthorized);
        }
        match self.settings {
            None => Err(OfframpError::NotInitialized),
            Some(s) => if s.admin != admin {
                Err(OfframpError::Unauthorized)
            } else {
                Ok(())
            },
        }
    }

    /// Sets the exchange rate of `currency`; admin only.
    pub fn set_exchange_rate(&mut self, caller: AccountId, admin: AccountId, currency: String, rate: i128) -> (r:
        Result<(), OfframpError>)
        requires
            old(self)@.wf(),
        ensures
            final(self)@.wf(),
            match old(self)@.operator_failure(caller, admin) {
                Some(e) => r == Err::<(), OfframpError>(e) && final(self)@ == old(self)@,
                None => r is Ok && final(self)@ == (OfframpBook {
                    rates: put(old(self)@.rates, rate_key(), (currency, rate)),
                    ..old(self)@
                }),
            },
    {
        match self.check_operator(caller, admin) {
            Ok(()) => {},
            Err(e) => {
                return Err(e);
            },
        }
        self.put_rate(currency, rate);
        Ok(())
    }

    /// Pauses or resumes new requests; admin only.
    pub fn set_paused(&mut self, caller: AccountId, admin: AccountId, paused: bool) -> (r: Result<(), OfframpError>)
        requires
            old(self)@.wf(),
        ensures
            final(self)@.wf(),
            match old(self)@.operator_failure(caller, admin) {
                Some(e) => r == Err::<(), OfframpError>(e) && final(self)@ == old(self)@,
                None => r is Ok && final(self)@ == (OfframpBook { paused, ..old(self)@ }),
            },
    {
        match self.check_operator(caller, admin) {
            Ok(()) => {},
            Err(e) => {
                return Err(e);
            },
        }
        self.paused = paused;
        Ok(())
    }

    /// The fee on `amount` under the current fee percentage.
    pub fn get_fee(&self, amount: i128) -> (r: i128)
        requires
            i128::MIN <= amount * self@.fee_percent() <= i128::MAX,
        ensures
            r == self@.fee(amount),
    {
        let pct: u32 = match self.settings {
            Some(s) => s.base_fee_percent,
            None => DEFAULT_FEE_PERCENT,
        };
        (amount * pct as i128) / FEE_SCALE
    }

    fn inr_rate(&self) -> (r: i128)
        requires
            self@.wf(),
        ensures
            r == self@.inr_rate(),
    {
        let inr = "INR".to_string();
        match self.find_rate(&inr) {
            Some(i) => self.rates[i].1,
            None => DEFAULT_INR_RATE,
        }
    }

    /// Records a request to pay `amount` stroops of `user` out in INR.
    fn create_request(
        &mut self,
        caller: AccountId,
        now: u64,
        user: AccountId,
        offramp_type: OfframpType,
        amount: i128,
        recipient_id: String,
        recipient_name: String,
        ifsc_code: String,
    ) -> (r: Result<u64, OfframpError>)
        requires
            old(self)@.wf(),
        ensures
            final(self)@.wf(),
            match old(self)@.request_failure(caller, user, amount) {
                Some(e) => r == Err::<u64, OfframpError>(e) && final(self)@ == old(self)@,
                None => r == Ok::<u64, OfframpError>((old(self)@.requests.len() + 1) as u64)
                    && old(self)@.requested(
                    final(self)@,
                    now,
                    user,
                    offramp_type,
                    amount,
                    recipient_id,
                    recipient_name,
                    ifsc_code@,
                ),
            },
    {
        let ghost pre = self@;
        if caller != user {
            return Err(OfframpError::Unauthorized);
        }
        if self.paused {
            return Err(OfframpError::Paused);
        }
        let s = match self.settings {
            Some(s) => s,
            None => {
                return Err(OfframpError::NotInitialized);
            },
        };
        if amount < s.min_amount {
            return Err(OfframpError::AmountBelowMinimum);
        }
        if amount > s.max_amount {
            return Err(OfframpError::AmountAboveMaximum);
        }
        let scaled = match amount.checked_mul(s.base_fee_percent as i128) {
            Some(x) => x,
            None => {
                return Err(OfframpError::Overflow);
            },
        };
        let fee = scaled / FEE_SCALE;
        let rate = self.inr_rate();
        proof {
            assert(scaled >= 0) by (nonlinear_arith)
                requires
                    scaled == amount * (s.base_fee_percent as int),
                    amount > 0,
                    s.base_fee_percent >= 0,
            ;
            assert(0 <= fee <= scaled);
        }
        let net = amount - fee;
        let gross_fiat = match net.checked_mul(rate) {
            Some(x) => x,
            None => {
                return Err(OfframpError::Overflow);
            },
        };
        let total_volume = match self.total_volume.checked_add(amount) {
            Some(t) => t,
            None => {
                return Err(OfframpError::Overflow);
            },
        };
        if self.requests.len() as u64 == u64::MAX {
            return Err(OfframpError::Overflow);
        }
        let id = self.requests.len() as u64 + 1;
        let q = OfframpRequest {
            id,
            user,
            offramp_type,
            amount_xlm: amount,
            amount_fiat: gross_fiat / RATE_SCALE,
            currency: "INR".to_string(),
            recipient_id,
            recipient_name,
            ifsc_code,
            status: RequestStatus::Pending,
            created_at: now,
            processed_at: 0,
            exchange_rate: rate,
            fee,
        };
        self.requests.push(q);
        self.total_volume = total_volume;
        self.events.push(OfframpEvent::Created { request_id: id, offramp_type });
        proof {
            assert(self@.requests.drop_last() =~= pre.requests);
        }
        Ok(id)
    }

    /// Asks for `amount_xlm` stroops to be paid out to the UPI id `upi_id`.
    pub fn request_upi_offramp(
        &mut self,
        caller: AccountId,
        now: u64,
        user: AccountId,
        amount_xlm: i128,
        upi_id: String,
        recipient_name: String,
    ) -> (r: Result<u64, OfframpError>)
        requires
            old(self)@.wf(),
        ensures
            final(self)@.wf(),
            match old(self)@.request_failure(caller, user, amount_xlm) {
                Some(e) => r == Err::<u64, OfframpError>(e) && final(self)@ == old(self)@,
                None => r == Ok::<u64, OfframpError>((old(self)@.requests.len() + 1) as u64)
                    && old(self)@.requested(
                    final(self)@,
                    now,
                    user,
                    OfframpType::UPI,
                    amount_xlm,
                    upi_id,
                    recipient_name,
                    Seq::empty(),
                ),
            },
    {
        self.create_request(caller, now, user, OfframpType::UPI, amount_xlm, upi_id, recipient_name, String::new())
    }

    /// Asks for `amount_xlm` stroops to be paid out to a bank account.
    pub fn request_bank_offramp(
        &mut self,
        caller: AccountId,
        now: u64,
        user: AccountId,
        amount_xlm: i128,
        account_number: String,
        recipient_name: String,
        ifsc_code: String,
    ) -> (r: Result<u64, OfframpError>)
        requires
            old(self)@.wf(),
        ensures
            final(self)@.wf(),
            match old(self)@.request_failure(caller, user, amount_xlm) {
                Some(e) => r == Err::<u64, OfframpError>(e) && final(self)@ == old(self)@,
                None => r == Ok::<u64, OfframpError>((old(self)@.requests.len() + 1) as u64)
                    && old(self)@.requested(
                    final(self)@,
                    now,
                    user,
                    OfframpType::Bank,
                    amount_xlm,
                    account_number,
                    recipient_name,
                    ifsc_code@,
                ),
            },
    {
        self.create_request(caller, now, user, OfframpType::Bank, amount_xlm, account_number, recipient_name, ifsc_code)
    }

    /// Settles (`success`) or fails a pending or processing request; admin only.
    pub fn process_request(&mut self, caller: AccountId, now: u64, admin: AccountId, request_id: u64, success: bool) -> (r:
        Result<(), OfframpError>)
        requires
            old(self)@.wf(),
        ensures
            final(self)@.wf(),
            ({
                let pre = old(self)@;
                let q = pre.request(request_id)->0;
                if pre.operator_failure(caller, admin) is Some {
                    r == Err::<(), OfframpError>(pre.operator_failure(caller, admin)->0) && final(self)@ == pre
                } else if pre.request(request_id) is None {
                    r == Err::<(), OfframpError>(OfframpError::NotFound) && final(self)@ == pre
                } else if q.status != RequestStatus::Pending && q.status != RequestStatus::Processing {
                    r == Err::<(), OfframpError>(OfframpError::InvalidState) && final(self)@ == pre
                } else {
                    r is Ok && final(self)@ == (OfframpBook {
                        requests: pre.with_status(
                            request_id,
                            if success {
                                RequestStatus::Completed
                            } else {
                                RequestStatus::Failed
                            },
                            now,
                        ),
                        events: pre.events.push(
                            if success {
                                OfframpEvent::Completed { request_id }
                            } else {
                                OfframpEvent::Failed { request_id }
                            },
                        ),
                        ..pre
                    })
                }
            }),
    {
        match self.check_operator(caller, admin) {
            Ok(()) => {},
            Err(e) => {
                return Err(e);
            },
        }
        if request_id == 0 || request_id > self.requests.len() as u64 {
            return Err(OfframpError::NotFound);
        }
        let i = (request_id - 1) as usize;
        let status = self.requests[i].status;
        if status != RequestStatus::Pending && status != RequestStatus::Processing {
            return Err(OfframpError::InvalidState);
        }
        if success {
            self.requests[i].status = RequestStatus::Completed;
            self.requests[i].processed_at = now;
            self.events.push(OfframpEvent::Completed { request_id });
        } else {
            self.requests[i].status = RequestStatus::Failed;
            self.requests[i].processed_at = now;
            self.events.push(OfframpEvent::Failed { request_id });
        }
        proof {
            let pre = old(self)@;
            assert(self@.requests =~= pre.with_status(
                request_id,
                if success {
                    RequestStatus::Completed
                } else {
                    RequestStatus::Failed
                },
                now,
            ));
        }
        Ok(())
    }

    /// The user withdraws one of their pending requests.
    pub fn cancel_request(&mut self, caller: AccountId, user: AccountId, request_id: u64) -> (r: Result<
        (),
        OfframpError,
    >)
        requires
            old(self)@.wf(),
        ensures
            final(self)@.wf(),
            ({
                let pre = old(self)@;
                let q = pre.request(request_id)->0;
                if caller != user {
                    r == Err::<(), OfframpError>(OfframpError::Unauthorized) && final(self)@ == pre
                } else if pre.request(request_id) is None {
                    r == Err::<(), OfframpError>(OfframpError::NotFound) && final(self)@ == pre
                } else if q.user != user {
                    r == Err::<(), OfframpError>(OfframpError::Unauthorized) && final(self)@ == pre
                } else if q.status != RequestStatus::Pending {
                    r == Err::<(), OfframpError>(OfframpError::InvalidState) && final(self)@ == pre
                } else {
                    r is Ok && final(self)@ == (OfframpBook {
                        requests: pre.requests.update(
                            request_id - 1,
                            OfframpRequest { status: RequestStatus::Cancelled, ..q },
                        ),
                        events: pre.events.push(OfframpEvent::Cancelled { request_id }),
                        ..pre
                    })
                }
            }),
    {
        if caller != user {
            return Err(OfframpError::Unauthorized);
        }
        if request_id == 0 || request_id > self.requests.len() as u64 {
            return Err(OfframpError::NotFound);
        }
        let i = (request_id - 1) as usize;
        if self.requests[i].user != user {
            return Err(OfframpError::Unauthorized);
        }
        if self.requests[i].status != RequestStatus::Pending {
            return Err(OfframpError::InvalidState);
        }
        self.requests[i].status = RequestStatus::Cancelled;
        self.events.push(OfframpEvent::Cancelled { request_id });
        Ok(())
    }

    pub fn get_request(&self, request_id: u64) -> (r: Option<&OfframpRequest>)
        ensures
            match r {
                Some(q) => self@.request(request_id) == Some(*q),
                None => self@.request(request_id) is None,
            },
    {
        if request_id == 0 || request_id > self.requests.len() as u64 {
            None
        } else {
            Some(&self.requests[(request_id - 1) as usize])
        }
    }

    /// The ids of the requests that `user` made, oldest first.
    pub fn get_user_requests(&self, user: AccountId) -> (r: Vec<u64>)
        ensures
            r@ == user_request_ids(self@.requests, user, self@.requests.len()),
    {
        let mut ids: Vec<u64> = Vec::new();
        let mut i: usize = 0;
        while i < self.requests.len()
            invariant
                i <= self.requests@.len(),
                ids@ == user_request_ids(self@.requests, user, i as nat),
            decreases self.requests@.len() - i,
        {
            if self.requests[i].user == user {
                ids.push(self.requests[i].id);
            }
            i += 1;
        }
        ids
    }

    /// Hours a payout of this type usually takes.
    pub fn get_processing_time(&self, offramp_type: OfframpType) -> (r: u32)
        ensures
            r == match self@.settings {
                None => DEFAULT_PROCESSING_HOURS,
                Some(_) => match offramp_type {
                    OfframpType::UPI => UPI_PROCESSING_HOURS,
                    OfframpType::Bank => BANK_PROCESSING_HOURS,
                },
            },
    {
        match self.settings {
            None => DEFAULT_PROCESSING_HOURS,
            Some(_) => match offramp_type {
                OfframpType::UPI => UPI_PROCESSING_HOURS,
                OfframpType::Bank => BANK_PROCESSING_HOURS,
            },
        }
    }

    /// The recorded rate of `currency`, or 0.
    pub fn get_exchange_rate(&self, currency: &String) -> (r: i128)
        requires
            self@.wf(),
        ensures
            r == match self@.rate(currency@) {
                Some(x) => x,
                None => 0,
            },
    {
        match self.find_rate(currency) {
            Some(i) => self.rates[i].1,
            None => 0,
        }
    }

    /// The summed amount of every request made.
    pub fn get_total_volume(&self) -> (r: i128)
        ensures
            r == self@.total_volume,
    {
        self.total_volume
    }

    pub fn events(&self) -> (r: &Vec<OfframpEvent>)
        ensures
            r@ == self@.events,
    {
        &self.events
    }
}

} // verus!
