//! Messages of the smart wallet and of the Wormhole core contract.

use vstd::prelude::*;

verus! {

/// Sets up the smart wallet.
pub struct InstantiateMsg {
    pub owner: String,
    pub wormhole_contract: String,
    pub accounts: Vec<AccountInfo>,
}

/// The smart wallet's answer to a config query.
pub struct ConfigResponse {
    pub owner: String,
    pub wormhole_contract: String,
    pub accounts: Vec<AccountInfo>,
}

/// An account on some chain, and whether it emits (1) or receives (0).
pub struct AccountInfo {
    pub chain_id: u64,
    pub address: String,
    pub is_emitter: u8,
}

/// A verified action approval as the Wormhole core contract reports it.
pub struct ParsedVAA {
    pub version: u8,
    pub guardian_set_index: u32,
    pub timestamp: u32,
    pub nonce: u32,
    pub len_signers: u8,
    pub emitter_chain: u16,
    pub emitter_address: Vec<u8>,
    pub sequence: u64,
    pub consistency_level: u8,
    pub payload: Vec<u8>,
    pub hash: Vec<u8>,
}

} // verus!
