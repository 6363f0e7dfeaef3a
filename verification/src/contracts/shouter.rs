//! The shouter: reads the messages that VAAs carry to it, and the best-bid /
//! best-ask answers it shouts back.

use vstd::prelude::*;
use crate::byte_utils::{
    be_bytes, be_value, get_u256, lemma_be_bytes_len, lemma_be_value_bound,
    lemma_be_value_of_bytes, lemma_bytes_of_be_value, lemma_pow256_values, push_be, to_vec,
};
use crate::error::XcaError;

verus! {

/// Sets up the shouter with the Wormhole core contract it verifies VAAs with.
pub struct InstantiateMsg {
    pub wormhole_contract: String,
}

/// The shouter's stored configuration (the validated core contract address).
pub struct Config {
    pub wormhole_contract: String,
}

/// The configuration a new shouter starts with.
pub fn instantiate_config(validated_wormhole_contract: String) -> (r: Config)
    ensures
        r.wormhole_contract == validated_wormhole_contract,
{
    Config { wormhole_contract: validated_wormhole_contract }
}

/// A message shouted through Wormhole: its bytes, as they are.
pub struct ShouterMessage {
    pub payload: Vec<u8>,
}

impl ShouterMessage {
    /// Reads a message: the whole payload.
    pub fn deserialize(data: &Vec<u8>) -> (r: Result<ShouterMessage, XcaError>)
        ensures
            r matches Ok(m) && m.payload@ == decode_shouter(data@),
            r matches Ok(m) && m.payload@ == data@,
    {
        Ok(ShouterMessage { payload: to_vec(data.as_slice()) })
    }

    /// Writes a message: the whole payload.
    pub fn serialize(&self) -> (r: Vec<u8>)
        ensures
            r@ == encode_shouter(self.payload@),
            r@ == self.payload@,
    {
        to_vec(self.payload.as_slice())
    }

    /// The value of the `message` attribute that a submitted VAA answers with:
    /// the payload's first byte (a VAA with an empty payload aborts).
    pub fn first_byte(&self) -> (r: u8)
        requires
            self.payload@.len() > 0,
        ensures
            r == self.payload@[0],
    {
        self.payload[0]
    }
}

/// A shouted message travels as its payload, byte for byte: writing it gives
/// exactly its payload, and reading bytes gives a payload of exactly those bytes.
pub proof fn lemma_shouter_bytes_are_payload(payload: Seq<u8>, d: Seq<u8>)
    ensures
        encode_shouter(payload) == payload,
        decode_shouter(d) == d,
        encode_shouter(payload).len() == payload.len(),
        forall|i: int| 0 <= i < d.len() ==> #[trigger] decode_shouter(d)[i] == d[i],
{
}

/// The bytes of a shouted message with payload `payload`: the payload itself.
pub open spec fn encode_shouter(payload: Seq<u8>) -> Seq<u8> {
    payload
}

/// The payload read from the bytes `d`: all of them.
pub open spec fn decode_shouter(d: Seq<u8>) -> Seq<u8> {
    d
}

/// Writing a shouted message and reading it back gives the same payload, and
/// reading bytes and writing them back gives the same bytes.
pub proof fn lemma_shouter_roundtrip(payload: Seq<u8>, d: Seq<u8>)
    ensures
        decode_shouter(encode_shouter(payload)) == payload,
        encode_shouter(decode_shouter(d)) == d,
{
}

/// The best bid and best ask that the shouter answers with.
pub struct ShoutBackMessage {
    pub best_bid: u128,
    pub best_ask: u128,
}

/// The 32 bytes of an answer: best bid, then best ask, each big-endian in 16 bytes.
pub open spec fn encode_shout_back(best_bid: u128, best_ask: u128) -> Seq<u8> {
    be_bytes(best_bid as nat, 16) + be_bytes(best_ask as nat, 16)
}

impl ShoutBackMessage {
    /// Reads an answer from at least 32 bytes (fewer abort): the two big-endian
    /// halves of the 256-bit integer at offset 0.
    pub fn deserialize(data: &Vec<u8>) -> (r: Result<ShoutBackMessage, XcaError>)
        requires
            data@.len() >= 32,
        ensures
            r matches Ok(m) && m.best_bid as nat == be_value(data@.subrange(0, 16))
                && m.best_ask as nat == be_value(data@.subrange(16, 32)),
    {
        let (best_bid, best_ask) = get_u256(data.as_slice(), 0);
        Ok(ShoutBackMessage { best_bid, best_ask })
    }

    /// Writes the answer.
    pub fn serialize(&self) -> (r: Vec<u8>)
        ensures
            r@ == encode_shout_back(self.best_bid, self.best_ask),
    {
        let mut out: Vec<u8> = Vec::new();
        push_be(&mut out, self.best_bid, 16);
        push_be(&mut out, self.best_ask, 16);
        out
    }
}

/// An answer written and read back is the same answer.
pub proof fn lemma_shout_back_decode_encode(best_bid: u128, best_ask: u128)
    ensures
        encode_shout_back(best_bid, best_ask).len() == 32,
        be_value(encode_shout_back(best_bid, best_ask).subrange(0, 16)) == best_bid as nat,
        be_value(encode_shout_back(best_bid, best_ask).subrange(16, 32)) == best_ask as nat,
{
    let d = encode_shout_back(best_bid, best_ask);
    lemma_pow256_values();
    lemma_be_bytes_len(best_bid as nat, 16);
    lemma_be_bytes_len(best_ask as nat, 16);
    assert(d.subrange(0, 16) =~= be_bytes(best_bid as nat, 16));
    assert(d.subrange(16, 32) =~= be_bytes(best_ask as nat, 16));
    lemma_be_value_of_bytes(best_bid as nat, 16);
    lemma_be_value_of_bytes(best_ask as nat, 16);
}

/// Reading an answer from at least 32 bytes and writing it again gives those 32 bytes.
pub proof fn lemma_shout_back_encode_decode(d: Seq<u8>)
    requires
        d.len() >= 32,
    ensures
        encode_shout_back(
            be_value(d.subrange(0, 16)) as u128,
            be_value(d.subrange(16, 32)) as u128,
        ) == d.take(32),
{
    lemma_pow256_values();
    lemma_be_value_bound(d.subrange(0, 16));
    lemma_be_value_bound(d.subrange(16, 32));
    lemma_bytes_of_be_value(d.subrange(0, 16));
    lemma_bytes_of_be_value(d.subrange(16, 32));
    assert(encode_shout_back(
        be_value(d.subrange(0, 16)) as u128,
        be_value(d.subrange(16, 32)) as u128,
    ) =~= d.take(32));
}

} // verus!
