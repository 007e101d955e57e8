//! The reward token: balances, allowances, minters, and an emergency stop for
//! everything that changes the supply.

pub mod call_laws;
pub mod contract;
pub mod laws;
pub mod model;
pub mod types;

pub use types::{
    AllowanceValue, DataKey, Effect, Event, PULSETokenContract, TokenError, INTERFACE_VERSION,
    MAX_MINTERS, TTL_BUMP, TTL_HIGH,
};
