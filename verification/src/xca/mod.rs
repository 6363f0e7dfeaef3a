//! The messages and records that the contracts exchange.

pub mod account;
pub mod factory;
pub mod messages;
pub mod registry;
pub mod request;
pub mod staking;
pub mod wormhole;
