//! Messages and configuration of the cross-chain account.

use vstd::prelude::*;
use crate::xca::messages::AccountInfo;

verus! {

/// The account's configuration.
pub struct Config {
    /// The registry that names the Wormhole core of each chain.
    pub x_chain_registry: String,
    /// The account that may change the configuration.
    pub admin: AccountInfo,
    /// The account whose VAAs the account executes.
    pub master: AccountInfo,
    pub slave: Option<AccountInfo>,
}

/// Sets up the account.
pub struct InstantiateMsg {
    pub x_chain_registry_address: String,
    pub admin: AccountInfo,
    pub master: AccountInfo,
    pub slave: Option<AccountInfo>,
}

} // verus!
