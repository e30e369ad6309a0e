//! The services around a ledger of private coins: verification of on-ramp transactions and of
//! swaps, the ledger of coin commitments itself, and the witness and public statement with which a
//! coin is spent.

pub mod client;
pub mod coin;
pub mod curve;
pub mod field;
pub mod groth;
pub mod ledger;
pub mod onramp;
pub mod randomness;
pub mod spend;
pub mod swap;
