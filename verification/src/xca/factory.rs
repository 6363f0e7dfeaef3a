//! Messages of the account factory.

use vstd::prelude::*;

verus! {

/// Sets up the factory with the registry it reads chain information from.
pub struct InstantiateMsg {
    pub x_account_registry: String,
}

/// The factory's answer to a config query.
pub struct ConfigResponse {
    pub x_account_registry: String,
}

} // verus!
