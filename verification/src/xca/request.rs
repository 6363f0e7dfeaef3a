//! A cross-chain request and its answer.

use vstd::prelude::*;
use crate::xca::messages::{RequestStatus, WormholeMessage, WormholeResponse};

verus! {

/// A Wormhole message with its destinations, caller, status and answer.
pub struct Request {
    wormhole_message: WormholeMessage,
    destination_chain: Option<Vec<u8>>,
    destination_address: Option<Vec<String>>,
    caller: Option<String>,
    status: RequestStatus,
    response: Option<WormholeResponse>,
}

} // verus!
