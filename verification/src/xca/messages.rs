//! Records of cross-chain messages, requests and their state.

use vstd::prelude::*;

verus! {

/// A message sent through Wormhole, with an optional message it must wait for.
pub struct WormholeMessage {
    message: Option<Message>,
    sender: String,
    emitter: Option<AccountInfo>,
    sequence: Option<u64>,
    is_response_expected: bool,
    is_executable: bool,
    execution_dependency: Option<Box<WormholeMessage>>,
}

/// The posted part of a Wormhole message.
pub struct Message {
    nonce: Option<u32>,
    consistency_level: Option<u8>,
    payload: Vec<u8>,
}

/// An account on a chain, by its Wormhole chain id.
pub struct AccountInfo {
    pub chain_id: u64,
    pub address: String,
}

/// The answer that came back for a Wormhole message.
pub struct WormholeResponse {
    vaa_details: ParsedVAA,
    wormhole_message: WormholeMessage,
}

/// A verified action approval as the Wormhole core contract reports it.
pub struct ParsedVAA {
    pub version: u8,
    pub guardian_set_index: u32,
    pub timestamp: u32,
    pub nonce: u32,
    pub len_signers: u8,
    pub emitter_chain: u16,
    pub emitter_address: Vec<u8>,
    pub sequence: u64,
    pub consistency_level: u8,
    pub payload: Vec<u8>,
    pub hash: Vec<u8>,
}

/// Where a request stands.
pub enum RequestStatus {
    /// The VAA is on its way.
    Pending,
    /// The answer came, or none was expected.
    Complete,
    /// The answer reported a failure.
    Failed,
}

} // verus!
