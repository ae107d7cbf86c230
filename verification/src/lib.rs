//! A fungible-token ledger with spending allowances and a fixed-rate
//! exchange that settles token movements against an observed payment.

pub mod account;
pub mod error;
pub mod keys;
pub mod laws;
pub mod ledger;
pub mod message;
pub mod metadata;
pub mod model;
pub mod payment;
pub mod response;
pub mod store;
pub mod token;

pub use account::AccountId;
pub use error::TokenError;
pub use ledger::Ledger;
pub use message::Operation;
pub use metadata::TokenMetadata;
pub use payment::TxOutput;
pub use response::{CallContext, CallResponse, TokenTransfer};
pub use store::LedgerStore;
pub use token::BondingCurveToken;
