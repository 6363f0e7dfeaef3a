//! Messages of the staking contract.

use vstd::prelude::*;

verus! {

/// The staking contract's answer to a config query.
pub struct ConfigResponse {
    pub denom_name: String,
}

/// The staking contract's answer to a state query.
pub struct StateResponse {
    pub total_staked: u128,
}

/// Sets up the staking contract with the denomination it accepts.
pub struct InstantiateMsg {
    pub denom_name: String,
}

/// What the staking contract is asked to do.
pub enum ExecuteMsg {
    Stake {},
    Unstake {},
}

/// What the staking contract is asked about.
pub enum QueryMsg {
    Config {},
    State {},
}

} // verus!
