//! The contracts of a synthetic-asset protocol on Stellar, written as verified
//! state machines.
pub mod arith;
pub mod error;
pub mod host;
pub mod strkey;
pub mod sums;
pub mod table;
pub mod types;
pub mod sep41_token;
pub mod oracle_twap;
pub mod synthetic_engine;
pub mod liquidity_pool;
pub mod stability_pool;
pub mod earnings_distributor;
pub mod dao_governance;
pub mod compliance_registry;
pub mod partner_registry;
