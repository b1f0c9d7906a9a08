//! Ledgers for tokenized real-world assets, and the smaller books that sit
//! beside them: collateral escrow, installment loans, direct payments, fiat
//! off-ramp requests and spot trading.
//!
//! Every operation is a verified state transition: it takes the invoking
//! account, the ledger time and plain arguments, and either commits its
//! effects or fails with an error and leaves the state untouched. Token
//! movements are not performed here; they are recorded as
//! [`TokenTransfer`]s for the host to carry out.

pub mod escrow;
pub mod keyed;
pub mod loan;
pub mod offramp;
pub mod payment;
pub mod rwa;
pub mod rwa_laws;
pub mod rwa_model;
pub mod stock_trading;
pub mod sums;
pub mod token;

pub use escrow::{EscrowBook, EscrowContract, EscrowData, EscrowError, EscrowEvent};
pub use loan::{EMISchedule, LoanBook, LoanContract, LoanData, LoanError, LoanEvent, EMI_PERIOD_SECONDS};
pub use offramp::{
    FiatOfframpContract, OfframpBook, OfframpError, OfframpEvent, OfframpRequest, OfframpSettings,
    OfframpType, RequestStatus,
};
pub use payment::{PaymentContract, PaymentError, PaymentEvent, PaymentLog};
pub use rwa::RWAContract;
pub use rwa_model::{
    AssetType, CountryRule, Distribution, Holding, Investor, RWAAsset, RwaError, RwaEvent, RwaLedger,
};
pub use token::{AccountId, TokenTransfer};
