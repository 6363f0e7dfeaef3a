//! The errors that the contracts' logic answers a refused request with.

use vstd::prelude::*;

verus! {

/// Why a request was refused.
#[derive(Debug)]
pub enum XcaError {
    /// The registry holds no chain information for the chain it names as its own
    /// ("registry missing this chain's wormhole info").
    MissingChainInfo,
    /// A reply carried an id that no submessage was sent with ("invalid reply").
    InvalidReply,
    /// A reply's first `wasm` event carries no `message.sequence` attribute ("no sequence").
    NoSequence,
    /// A factory reply that carried a sequence, which the factory still refuses ("fail ftw").
    ReplyRefused,
    /// The archive check on a VAA refused it ("VAA already executed").
    VaaAlreadyExecuted,
    /// No coin of the staking denomination with a positive amount was sent
    /// ("Expected stakable denom not sent").
    NoStakableDenom,
    /// The sender may not make this request ("unauthorized").
    Unauthorized,
    /// Serialising a value to JSON failed.
    Serialization(cosmwasm_std::StdError),
}

impl XcaError {
    /// The message that the contracts report for this error.
    pub fn message(&self) -> (r: &'static str)
        ensures
            self is MissingChainInfo ==> r@ == "registry missing this chain's wormhole info"@,
            self is InvalidReply ==> r@ == "invalid reply"@,
            self is NoSequence ==> r@ == "no sequence"@,
            self is ReplyRefused ==> r@ == "fail ftw"@,
            self is VaaAlreadyExecuted ==> r@ == "VAA already executed"@,
            self is NoStakableDenom ==> r@ == "Expected stakable denom not sent"@,
            self is Unauthorized ==> r@ == "unauthorized"@,
            self is Serialization ==> r@ == "serialization failed"@,
    {
        match self {
            XcaError::MissingChainInfo => "registry missing this chain's wormhole info",
            XcaError::InvalidReply => "invalid reply",
            XcaError::NoSequence => "no sequence",
            XcaError::ReplyRefused => "fail ftw",
            XcaError::VaaAlreadyExecuted => "VAA already executed",
            XcaError::NoStakableDenom => "Expected stakable denom not sent",
            XcaError::Unauthorized => "unauthorized",
            XcaError::Serialization(_) => "serialization failed",
        }
    }
}

} // verus!
