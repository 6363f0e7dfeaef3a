//! Cross-chain account primitives: the byte layouts that travel through
//! Wormhole, and the state transitions of the account, factory, registry,
//! shouter, smart-wallet and staking contracts, with their contracts proved.

pub mod byte_utils;
pub mod error;
pub mod json;
pub mod contracts;
pub mod xca;
