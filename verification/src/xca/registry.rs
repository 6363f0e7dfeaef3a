//! Messages of the chain registry.

use vstd::prelude::*;

verus! {

/// Sets up the registry for the chain it runs on.
pub struct InstantiateMsg {
    pub chain_id_here: u64,
    pub x_account_code_id: u64,
}

/// What the registry is asked to do.
pub enum ExecuteMsg {
    /// Replaces the account code id when one is given.
    UpdateConfig { x_account_code_id: Option<u64> },
    /// Adds the chain's information, replacing the entry of the same Wormhole id.
    UpsertChainInfo { chain_info: ChainInfo },
}

/// The registry's answer to a config query.
pub struct ConfigResponse {
    pub chain_id_here: u64,
    pub x_account_code_id: u64,
    pub chain_info: Vec<ChainInfo>,
}

/// Where a chain's Wormhole core, account factory and account deployer live.
pub struct ChainInfo {
    pub wormhole_id: u64,
    pub wormhole_core: String,
    pub x_account_factory: String,
    pub x_account_deployer: String,
}

} // verus!
