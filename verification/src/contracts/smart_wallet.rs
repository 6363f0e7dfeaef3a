//! The smart wallet: posts payloads through Wormhole and receives VAAs,
//! checking each against an archive of VAA hashes.

use vstd::prelude::*;
use crate::byte_utils::to_vec;
use crate::error::XcaError;
use crate::json::{json_of_bytes, to_binary_bytes};
use crate::xca::wormhole::{AccountInfo, ConfigResponse};

verus! {

/// The nonce a dispatch posts with when none is given.
pub const DEFAULT_NONCE: u32 = 69;

/// The wallet's stored configuration.
pub struct Config {
    pub owner: String,
    pub wormhole_contract: String,
    pub accounts: Vec<AccountInfo>,
}

/// The wallet's stored state.
pub struct State {
    pub nonce: u32,
}

/// The configuration a new wallet starts with. The wallet takes the validated
/// owner address as its Wormhole contract too.
pub fn instantiate_config(validated_owner: String, accounts: Vec<AccountInfo>) -> (r: Config)
    ensures
        r.owner == validated_owner,
        r.wormhole_contract == validated_owner,
        r.accounts@ == accounts@,
{
    Config { owner: validated_owner.clone(), wormhole_contract: validated_owner, accounts }
}

/// The answer to a config query.
pub fn query_config(config: Config) -> (r: ConfigResponse)
    ensures
        r.owner == config.owner,
        r.wormhole_contract == config.wormhole_contract,
        r.accounts@ == config.accounts@,
{
    ConfigResponse {
        owner: config.owner,
        wormhole_contract: config.wormhole_contract,
        accounts: config.accounts,
    }
}

/// A message bound for a token bridge: its bytes, as they are.
pub struct TokenBridgeMessage {
    pub payload: Vec<u8>,
}

/// A token-bridge message travels as its payload, byte for byte: writing it gives
/// exactly its payload, and reading bytes gives a payload of exactly those bytes.
pub proof fn lemma_token_bridge_bytes_are_payload(payload: Seq<u8>, d: Seq<u8>)
    ensures
        encode_token_bridge(payload) == payload,
        decode_token_bridge(d) == d,
        encode_token_bridge(payload).len() == payload.len(),
        forall|i: int| 0 <= i < d.len() ==> #[trigger] decode_token_bridge(d)[i] == d[i],
{
}

/// The bytes of a token-bridge message with payload `payload`: the payload itself.
pub open spec fn encode_token_bridge(payload: Seq<u8>) -> Seq<u8> {
    payload
}

/// The payload read from the bytes `d`: all of them.
pub open spec fn decode_token_bridge(d: Seq<u8>) -> Seq<u8> {
    d
}

/// Writing a token-bridge message and reading it back gives the same payload,
/// and reading bytes and writing them back gives the same bytes.
pub proof fn lemma_token_bridge_roundtrip(payload: Seq<u8>, d: Seq<u8>)
    ensures
        decode_token_bridge(encode_token_bridge(payload)) == payload,
        encode_token_bridge(decode_token_bridge(d)) == d,
{
}

impl TokenBridgeMessage {
    /// Reads a message: the whole payload.
    pub fn deserialize(data: &Vec<u8>) -> (r: Result<TokenBridgeMessage, XcaError>)
        ensures
            r matches Ok(m) && m.payload@ == decode_token_bridge(data@),
            r matches Ok(m) && m.payload@ == data@,
    {
        Ok(TokenBridgeMessage { payload: to_vec(data.as_slice()) })
    }

    /// Writes a message: the whole payload.
    pub fn serialize(&self) -> (r: Vec<u8>)
        ensures
            r@ == encode_token_bridge(self.payload@),
            r@ == self.payload@,
    {
        to_vec(self.payload.as_slice())
    }
}

/// What a dispatch posts: the message for the Wormhole contract, and its nonce.
pub struct DispatchPlan {
    pub contract_addr: String,
    /// The JSON encoding of the token-bridge message's bytes.
    pub message: Vec<u8>,
    pub nonce: u32,
}

/// A dispatch posts with the nonce it is given, and with 69 when given none.
pub proof fn lemma_dispatch_nonce(n: u32)
    ensures
        dispatch_nonce(Some(n)) == n,
        dispatch_nonce(None) == 69,
{
}

/// The nonce a dispatch posts with.
pub open spec fn dispatch_nonce(nonce: Option<u32>) -> u32 {
    match nonce {
        Some(n) => n,
        None => DEFAULT_NONCE,
    }
}

/// `who` is the address of one of the wallet's emitter accounts (`is_emitter == 1`).
pub open spec fn is_emitter(accounts: Seq<AccountInfo>, who: Seq<char>) -> bool {
    exists|i: int| 0 <= i < accounts.len() && #[trigger] accounts[i].address@ == who && accounts[i].is_emitter == 1
}

/// A sender is an emitter exactly when some account has its address and is
/// marked as an emitter (1); the owner may administer, and so may emitters,
/// and nobody else.
pub proof fn lemma_emitter_and_admin(accounts: Seq<AccountInfo>, config: Config, who: Seq<char>)
    ensures
        is_emitter(accounts, who) <==> exists|i: int|
            0 <= i < accounts.len() && accounts[i].address@ == who && accounts[i].is_emitter == 1,
        may_administer(config, who) <==> (config.owner@ == who || exists|i: int|
            0 <= i < config.accounts@.len() && config.accounts@[i].address@ == who
                && config.accounts@[i].is_emitter == 1),
{
}

/// Whether `sender` is one of the emitter accounts in `accounts`.
pub fn sender_is_emitter(accounts: &Vec<AccountInfo>, sender: &String) -> (r: bool)
    ensures
        r == is_emitter(accounts@, sender@),
{
    let mut i: usize = 0;
    while i < accounts.len()
        invariant
            i <= accounts@.len(),
            forall|j: int| 0 <= j < i ==> !(#[trigger] accounts@[j].address@ == sender@ && accounts@[j].is_emitter == 1),
        decreases accounts@.len() - i,
    {
        if accounts[i].address == *sender && accounts[i].is_emitter == 1 {
            assert(accounts@[i as int].address@ == sender@);
            return true;
        }
        i = i + 1;
    }
    false
}

/// Who may change the wallet's configuration and accounts: its owner and its
/// emitter accounts.
pub open spec fn may_administer(config: Config, who: Seq<char>) -> bool {
    config.owner@ == who || is_emitter(config.accounts@, who)
}

/// Admits a configuration or account change from `sender` when it is the owner
/// or an emitter account, and refuses it with `Unauthorized` otherwise. (The
/// change itself leaves the wallet as it is.)
pub fn authorize_admin(config: &Config, sender: &String) -> (r: Result<(), XcaError>)
    ensures
        r is Ok <==> may_administer(*config, sender@),
        r is Err ==> r matches Err(XcaError::Unauthorized),
{
    if config.owner == *sender || sender_is_emitter(&config.accounts, sender) {
        Ok(())
    } else {
        Err(XcaError::Unauthorized)
    }
}

/// Plans the dispatch of `payload` as a token-bridge message to the wallet's
/// Wormhole contract. Only an emitter account may dispatch: any other sender
/// is refused with `Unauthorized`.
pub fn wormhole_dispatch(config: Config, sender: &String, payload: Vec<u8>, nonce: Option<u32>) -> (r:
    Result<DispatchPlan, XcaError>)
    ensures
        r is Ok <==> is_emitter(config.accounts@, sender@),
        !is_emitter(config.accounts@, sender@) ==> r matches Err(XcaError::Unauthorized),
        r matches Ok(plan) ==> plan.contract_addr == config.wormhole_contract && plan.message@
            == json_of_bytes(encode_token_bridge(payload@)) && plan.nonce == dispatch_nonce(nonce),
        r matches Ok(plan) ==> plan.message@ == json_of_bytes(payload@),
        r matches Ok(plan) ==> (nonce matches Some(n) ==> plan.nonce == n),
        r matches Ok(plan) ==> (nonce is None ==> plan.nonce == 69),
{
    if !sender_is_emitter(&config.accounts, sender) {
        return Err(XcaError::Unauthorized);
    }
    let message_payload = TokenBridgeMessage { payload };
    let bytes = message_payload.serialize();
    let n = match nonce {
        Some(n) => n,
        None => DEFAULT_NONCE,
    };
    match to_binary_bytes(&bytes) {
        Ok(message) => Ok(DispatchPlan { contract_addr: config.wormhole_contract, message, nonce: n }),
        Err(e) => Err(XcaError::Serialization(e)),
    }
}

/// The archive check on a received VAA: it passes only when the VAA's hash is
/// already recorded as executed; a VAA not yet recorded is refused.
pub fn check_archive(archived: Option<bool>) -> (r: Result<(), XcaError>)
    ensures
        r is Ok <==> archived == Some(true),
        r is Err ==> r matches Err(XcaError::VaaAlreadyExecuted),
{
    let seen = match archived {
        Some(b) => b,
        None => false,
    };
    if !seen {
        Err(XcaError::VaaAlreadyExecuted)
    } else {
        Ok(())
    }
}

/// Receives a verified VAA's payload, given what the archive holds for the
/// VAA's hash: refused unless the archive records it as executed; otherwise the
/// token-bridge message it carries. The archive then records the hash as
/// executed (the second result, which is always `true`).
pub fn parse_and_archive(archived: Option<bool>, payload: &Vec<u8>) -> (r: Result<
    (TokenBridgeMessage, bool),
    XcaError,
>)
    ensures
        r is Ok <==> archived == Some(true),
        r matches Ok((m, record)) ==> m.payload@ == decode_token_bridge(payload@) && record,
        r matches Ok((m, _)) ==> m.payload@ == payload@,
        r is Err ==> r matches Err(XcaError::VaaAlreadyExecuted),
{
    match check_archive(archived) {
        Ok(()) => match TokenBridgeMessage::deserialize(payload) {
            Ok(m) => Ok((m, true)),
            Err(e) => Err(e),
        },
        Err(e) => Err(e),
    }
}

} // verus!
