//! The logic of each contract, apart from storage, queries and message encoding.

pub mod account;
pub mod factory;
pub mod registry;
pub mod shouter;
pub mod smart_wallet;
pub mod staking;
