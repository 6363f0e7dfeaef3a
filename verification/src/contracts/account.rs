//! The cross-chain account: the request layout it posts to and reads from
//! Wormhole, and the decisions of its entry points.

use vstd::prelude::*;
use crate::contracts::registry::{find_chain_info, spec_find};
use crate::error::XcaError;
use crate::xca::account::{Config, InstantiateMsg as AccountInstantiateMsg};
use crate::xca::messages::AccountInfo;
use crate::xca::registry::{ChainInfo, ConfigResponse as RegistryConfigResponse};
use vstd::string::StringExecFns;
use crate::byte_utils::{append_range, be_bytes, be_value, lemma_be_bytes_len, lemma_be_value_bound, lemma_be_value_of_bytes, lemma_be_value_single, lemma_bytes_of_be_value, lemma_pow256_values, get_bytes32, get_u32, get_u64, get_u8, push_be};

verus! {

/// A cross-chain request as it travels in a VAA payload.
pub struct XRequest {
    pub status: u8,
    pub request_chain_id: u64,
    pub request_address: Vec<u8>,
    pub sender_chain_id: u64,
    pub sender_address: Vec<u8>,
    pub emitter_chain_id: u64,
    pub emitter_address: Vec<u8>,
    pub nonce: u32,
    pub destination_chain: u64,
    pub destination_address: Vec<u8>,
    pub is_response_expected: u8,
    pub is_executable: u8,
    pub execution_dependency_chain_id: u64,
    pub execution_dependency_sequence: u64,
    pub caller: Vec<u8>,
    pub response_of_chain_id: u64,
    pub response_of_sequence: u64,
    pub request_status: u8,
    pub response_chain_id: u64,
    pub response_sequence: u64,
    pub payload: Vec<u8>,
}

/// The fields of an [`XRequest`] as mathematical values.
pub struct RequestModel {
    pub status: u8,
    pub request_chain_id: u64,
    pub request_address: Seq<u8>,
    pub sender_chain_id: u64,
    pub sender_address: Seq<u8>,
    pub emitter_chain_id: u64,
    pub emitter_address: Seq<u8>,
    pub nonce: u32,
    pub destination_chain: u64,
    pub destination_address: Seq<u8>,
    pub is_response_expected: u8,
    pub is_executable: u8,
    pub execution_dependency_chain_id: u64,
    pub execution_dependency_sequence: u64,
    pub caller: Seq<u8>,
    pub response_of_chain_id: u64,
    pub response_of_sequence: u64,
    pub request_status: u8,
    pub response_chain_id: u64,
    pub response_sequence: u64,
    pub payload: Seq<u8>,
}

impl View for XRequest {
    type V = RequestModel;

    open spec fn view(&self) -> RequestModel {
        RequestModel {
            status: self.status,
            request_chain_id: self.request_chain_id,
            request_address: self.request_address@,
            sender_chain_id: self.sender_chain_id,
            sender_address: self.sender_address@,
            emitter_chain_id: self.emitter_chain_id,
            emitter_address: self.emitter_address@,
            nonce: self.nonce,
            destination_chain: self.destination_chain,
            destination_address: self.destination_address@,
            is_response_expected: self.is_response_expected,
            is_executable: self.is_executable,
            execution_dependency_chain_id: self.execution_dependency_chain_id,
            execution_dependency_sequence: self.execution_dependency_sequence,
            caller: self.caller@,
            response_of_chain_id: self.response_of_chain_id,
            response_of_sequence: self.response_of_sequence,
            request_status: self.request_status,
            response_chain_id: self.response_chain_id,
            response_sequence: self.response_sequence,
            payload: self.payload@,
        }
    }
}

/// The number of bytes before the payload that the decoder reads.
pub open spec fn header_len() -> nat {
    248
}

/// The bytes that [`XRequest::serialize`] writes: each integer big-endian, the
/// first 32 bytes of the request address, the other addresses whole, the payload
/// last. The nonce is not written.
pub open spec fn encode_request(m: RequestModel) -> Seq<u8> {
    be_bytes(m.status as nat, 1) + be_bytes(m.request_chain_id as nat, 8) + m.request_address.take(32)
        + be_bytes(m.sender_chain_id as nat, 8) + m.sender_address + be_bytes(
        m.emitter_chain_id as nat,
        8,
    ) + m.emitter_address + be_bytes(m.destination_chain as nat, 8) + m.destination_address
        + be_bytes(m.is_response_expected as nat, 1) + be_bytes(m.is_executable as nat, 1) + be_bytes(
        m.execution_dependency_chain_id as nat,
        8,
    ) + be_bytes(m.execution_dependency_sequence as nat, 8) + m.caller + be_bytes(
        m.response_of_chain_id as nat,
        8,
    ) + be_bytes(m.response_of_sequence as nat, 8) + be_bytes(m.request_status as nat, 1)
        + be_bytes(m.response_chain_id as nat, 8) + be_bytes(m.response_sequence as nat, 8)
        + m.payload
}

/// The big-endian integer in `d` from `i` up to `j`.
pub open spec fn be_at(d: Seq<u8>, i: int, j: int) -> nat {
    be_value(d.subrange(i, j))
}

/// The request that [`XRequest::deserialize`] reads from `d` (at least 248
/// bytes): fixed offsets, 32-byte addresses, a big-endian nonce at 244 and the
/// payload from 248 on.
pub open spec fn decode_request(d: Seq<u8>) -> RequestModel {
    RequestModel {
        status: d[0],
        request_chain_id: be_at(d, 1, 9) as u64,
        request_address: d.subrange(9, 41),
        sender_chain_id: be_at(d, 41, 49) as u64,
        sender_address: d.subrange(49, 81),
        emitter_chain_id: be_at(d, 81, 89) as u64,
        emitter_address: d.subrange(89, 121),
        destination_chain: be_at(d, 121, 129) as u64,
        destination_address: d.subrange(129, 161),
        is_response_expected: d[161],
        is_executable: d[162],
        execution_dependency_chain_id: be_at(d, 163, 171) as u64,
        execution_dependency_sequence: be_at(d, 171, 179) as u64,
        caller: d.subrange(179, 211),
        response_of_chain_id: be_at(d, 211, 219) as u64,
        response_of_sequence: be_at(d, 219, 227) as u64,
        request_status: d[227],
        response_chain_id: be_at(d, 228, 236) as u64,
        response_sequence: be_at(d, 236, 244) as u64,
        nonce: be_at(d, 244, 248) as u32,
        payload: d.subrange(248, d.len() as int),
    }
}

/// Appends all of `v` to `out`.
fn append_all(out: &mut Vec<u8>, v: &Vec<u8>)
    ensures
        final(out)@ == old(out)@ + v@,
{
    let n = v.len();
    append_range(out, v.as_slice(), 0, n);
    proof {
        assert(v@.subrange(0, n as int) =~= v@);
    }
}


/// The request's five addresses each hold 32 bytes: the shape the layout is made for.
pub open spec fn well_formed_request(m: RequestModel) -> bool {
    &&& m.request_address.len() == 32
    &&& m.sender_address.len() == 32
    &&& m.emitter_address.len() == 32
    &&& m.destination_address.len() == 32
    &&& m.caller.len() == 32
}

/// Where the writer puts each field. For a request whose request address holds
/// at least 32 bytes and whose other four addresses hold 32 each: the status at
/// byte 0; the request chain at 1..9; the request address's first 32 bytes at
/// 9..41; the sender chain at 41..49 and its address at 49..81; the emitter
/// chain at 81..89 and its address at 89..121; the destination chain at
/// 121..129 and its address at 129..161; the two flags at 161 and 162; the
/// execution dependency's chain and sequence at 163..171 and 171..179; the
/// caller at 179..211; the answered request's chain and sequence at 211..219 and
/// 219..227; the request status at 227; the response chain and sequence at
/// 228..236 and 236..244; the payload from 244 on. Every integer is big-endian.
pub proof fn lemma_request_layout(m: RequestModel)
    requires
        m.request_address.len() >= 32,
        m.sender_address.len() == 32,
        m.emitter_address.len() == 32,
        m.destination_address.len() == 32,
        m.caller.len() == 32,
    ensures
        encode_request(m).len() == 244 + m.payload.len(),
        encode_request(m)[0] == m.status,
        be_value(encode_request(m).subrange(1, 9)) == m.request_chain_id as nat,
        encode_request(m).subrange(9, 41) == m.request_address.subrange(0, 32),
        be_value(encode_request(m).subrange(41, 49)) == m.sender_chain_id as nat,
        encode_request(m).subrange(49, 81) == m.sender_address,
        be_value(encode_request(m).subrange(81, 89)) == m.emitter_chain_id as nat,
        encode_request(m).subrange(89, 121) == m.emitter_address,
        be_value(encode_request(m).subrange(121, 129)) == m.destination_chain as nat,
        encode_request(m).subrange(129, 161) == m.destination_address,
        encode_request(m)[161] == m.is_response_expected,
        encode_request(m)[162] == m.is_executable,
        be_value(encode_request(m).subrange(163, 171)) == m.execution_dependency_chain_id as nat,
        be_value(encode_request(m).subrange(171, 179)) == m.execution_dependency_sequence as nat,
        encode_request(m).subrange(179, 211) == m.caller,
        be_value(encode_request(m).subrange(211, 219)) == m.response_of_chain_id as nat,
        be_value(encode_request(m).subrange(219, 227)) == m.response_of_sequence as nat,
        encode_request(m)[227] == m.request_status,
        be_value(encode_request(m).subrange(228, 236)) == m.response_chain_id as nat,
        be_value(encode_request(m).subrange(236, 244)) == m.response_sequence as nat,
        encode_request(m).subrange(244, encode_request(m).len() as int) == m.payload,
{
    let d = encode_request(m);
    lemma_pow256_values();
    lemma_be_bytes_len(m.status as nat, 1);
    lemma_be_bytes_len(m.request_chain_id as nat, 8);
    lemma_be_bytes_len(m.sender_chain_id as nat, 8);
    lemma_be_bytes_len(m.emitter_chain_id as nat, 8);
    lemma_be_bytes_len(m.destination_chain as nat, 8);
    lemma_be_bytes_len(m.is_response_expected as nat, 1);
    lemma_be_bytes_len(m.is_executable as nat, 1);
    lemma_be_bytes_len(m.execution_dependency_chain_id as nat, 8);
    lemma_be_bytes_len(m.execution_dependency_sequence as nat, 8);
    lemma_be_bytes_len(m.response_of_chain_id as nat, 8);
    lemma_be_bytes_len(m.response_of_sequence as nat, 8);
    lemma_be_bytes_len(m.request_status as nat, 1);
    lemma_be_bytes_len(m.response_chain_id as nat, 8);
    lemma_be_bytes_len(m.response_sequence as nat, 8);
    assert(d.len() == 244 + m.payload.len());
    assert(d.subrange(0, 1) =~= be_bytes(m.status as nat, 1));
    lemma_be_value_single(be_bytes(m.status as nat, 1));
    lemma_be_value_of_bytes(m.status as nat, 1);
    assert(d.subrange(1, 9) =~= be_bytes(m.request_chain_id as nat, 8));
    lemma_be_value_of_bytes(m.request_chain_id as nat, 8);
    assert(d.subrange(9, 41) =~= m.request_address.subrange(0, 32));
    assert(d.subrange(41, 49) =~= be_bytes(m.sender_chain_id as nat, 8));
    lemma_be_value_of_bytes(m.sender_chain_id as nat, 8);
    assert(d.subrange(49, 81) =~= m.sender_address);
    assert(d.subrange(81, 89) =~= be_bytes(m.emitter_chain_id as nat, 8));
    lemma_be_value_of_bytes(m.emitter_chain_id as nat, 8);
    assert(d.subrange(89, 121) =~= m.emitter_address);
    assert(d.subrange(121, 129) =~= be_bytes(m.destination_chain as nat, 8));
    lemma_be_value_of_bytes(m.destination_chain as nat, 8);
    assert(d.subrange(129, 161) =~= m.destination_address);
    assert(d.subrange(161, 162) =~= be_bytes(m.is_response_expected as nat, 1));
    lemma_be_value_single(be_bytes(m.is_response_expected as nat, 1));
    lemma_be_value_of_bytes(m.is_response_expected as nat, 1);
    assert(d.subrange(162, 163) =~= be_bytes(m.is_executable as nat, 1));
    lemma_be_value_single(be_bytes(m.is_executable as nat, 1));
    lemma_be_value_of_bytes(m.is_executable as nat, 1);
    assert(d.subrange(163, 171) =~= be_bytes(m.execution_dependency_chain_id as nat, 8));
    lemma_be_value_of_bytes(m.execution_dependency_chain_id as nat, 8);
    assert(d.subrange(171, 179) =~= be_bytes(m.execution_dependency_sequence as nat, 8));
    lemma_be_value_of_bytes(m.execution_dependency_sequence as nat, 8);
    assert(d.subrange(179, 211) =~= m.caller);
    assert(d.subrange(211, 219) =~= be_bytes(m.response_of_chain_id as nat, 8));
    lemma_be_value_of_bytes(m.response_of_chain_id as nat, 8);
    assert(d.subrange(219, 227) =~= be_bytes(m.response_of_sequence as nat, 8));
    lemma_be_value_of_bytes(m.response_of_sequence as nat, 8);
    assert(d.subrange(227, 228) =~= be_bytes(m.request_status as nat, 1));
    lemma_be_value_single(be_bytes(m.request_status as nat, 1));
    lemma_be_value_of_bytes(m.request_status as nat, 1);
    assert(d.subrange(228, 236) =~= be_bytes(m.response_chain_id as nat, 8));
    lemma_be_value_of_bytes(m.response_chain_id as nat, 8);
    assert(d.subrange(236, 244) =~= be_bytes(m.response_sequence as nat, 8));
    lemma_be_value_of_bytes(m.response_sequence as nat, 8);
    assert(d.subrange(244, d.len() as int) =~= m.payload);
}

/// Where the reader takes each field from, in bytes of at least 248: the status
/// from byte 0; the request chain from 1..9; the request address from 9..41;
/// the sender chain and address from 41..49 and 49..81; the emitter chain and
/// address from 81..89 and 89..121; the destination chain and address from
/// 121..129 and 129..161; the flags from 161 and 162; the execution
/// dependency from 163..171 and 171..179; the caller from 179..211; the answered
/// request from 211..219 and 219..227; the request status from 227; the
/// response chain and sequence from 228..236 and 236..244; the nonce from
/// 244..248; the payload from 248 on. Every integer is big-endian.
pub proof fn lemma_request_reading(d: Seq<u8>)
    requires
        d.len() >= 248,
    ensures
        decode_request(d).status == d[0],
        decode_request(d).request_chain_id as nat == be_value(d.subrange(1, 9)),
        decode_request(d).request_address == d.subrange(9, 41),
        decode_request(d).sender_chain_id as nat == be_value(d.subrange(41, 49)),
        decode_request(d).sender_address == d.subrange(49, 81),
        decode_request(d).emitter_chain_id as nat == be_value(d.subrange(81, 89)),
        decode_request(d).emitter_address == d.subrange(89, 121),
        decode_request(d).destination_chain as nat == be_value(d.subrange(121, 129)),
        decode_request(d).destination_address == d.subrange(129, 161),
        decode_request(d).is_response_expected == d[161],
        decode_request(d).is_executable == d[162],
        decode_request(d).execution_dependency_chain_id as nat == be_value(d.subrange(163, 171)),
        decode_request(d).execution_dependency_sequence as nat == be_value(d.subrange(171, 179)),
        decode_request(d).caller == d.subrange(179, 211),
        decode_request(d).response_of_chain_id as nat == be_value(d.subrange(211, 219)),
        decode_request(d).response_of_sequence as nat == be_value(d.subrange(219, 227)),
        decode_request(d).request_status == d[227],
        decode_request(d).response_chain_id as nat == be_value(d.subrange(228, 236)),
        decode_request(d).response_sequence as nat == be_value(d.subrange(236, 244)),
        decode_request(d).nonce as nat == be_value(d.subrange(244, 248)),
        decode_request(d).payload == d.subrange(248, d.len() as int),
{
    lemma_pow256_values();
    lemma_be_value_bound(d.subrange(1, 9));
    lemma_be_value_bound(d.subrange(41, 49));
    lemma_be_value_bound(d.subrange(81, 89));
    lemma_be_value_bound(d.subrange(121, 129));
    lemma_be_value_bound(d.subrange(163, 171));
    lemma_be_value_bound(d.subrange(171, 179));
    lemma_be_value_bound(d.subrange(211, 219));
    lemma_be_value_bound(d.subrange(219, 227));
    lemma_be_value_bound(d.subrange(228, 236));
    lemma_be_value_bound(d.subrange(236, 244));
    lemma_be_value_bound(d.subrange(244, 248));
}

/// A well-formed request with a payload of at least 4 bytes reads back with
/// every header field unchanged. The layout writes no nonce, so the reader takes
/// the payload's first 4 bytes as the nonce and the rest as the payload.
pub proof fn lemma_decode_encode(m: RequestModel)
    requires
        well_formed_request(m),
        m.payload.len() >= 4,
    ensures
        encode_request(m).len() == 244 + m.payload.len(),
        decode_request(encode_request(m)) == (RequestModel {
            nonce: be_value(m.payload.take(4)) as u32,
            payload: m.payload.skip(4),
            ..m
        }),
{
    let d = encode_request(m);
    lemma_pow256_values();
    lemma_be_bytes_len(m.status as nat, 1);
    lemma_be_bytes_len(m.request_chain_id as nat, 8);
    lemma_be_bytes_len(m.sender_chain_id as nat, 8);
    lemma_be_bytes_len(m.emitter_chain_id as nat, 8);
    lemma_be_bytes_len(m.destination_chain as nat, 8);
    lemma_be_bytes_len(m.is_response_expected as nat, 1);
    lemma_be_bytes_len(m.is_executable as nat, 1);
    lemma_be_bytes_len(m.execution_dependency_chain_id as nat, 8);
    lemma_be_bytes_len(m.execution_dependency_sequence as nat, 8);
    lemma_be_bytes_len(m.response_of_chain_id as nat, 8);
    lemma_be_bytes_len(m.response_of_sequence as nat, 8);
    lemma_be_bytes_len(m.request_status as nat, 1);
    lemma_be_bytes_len(m.response_chain_id as nat, 8);
    lemma_be_bytes_len(m.response_sequence as nat, 8);
    assert(m.request_address.take(32) =~= m.request_address);
    assert(d.len() == 244 + m.payload.len());
    assert(d.subrange(0, 1) =~= be_bytes(m.status as nat, 1));
    lemma_be_value_of_bytes(m.status as nat, 1);
    assert(d.subrange(1, 9) =~= be_bytes(m.request_chain_id as nat, 8));
    lemma_be_value_of_bytes(m.request_chain_id as nat, 8);
    assert(d.subrange(9, 41) =~= m.request_address);
    assert(d.subrange(41, 49) =~= be_bytes(m.sender_chain_id as nat, 8));
    lemma_be_value_of_bytes(m.sender_chain_id as nat, 8);
    assert(d.subrange(49, 81) =~= m.sender_address);
    assert(d.subrange(81, 89) =~= be_bytes(m.emitter_chain_id as nat, 8));
    lemma_be_value_of_bytes(m.emitter_chain_id as nat, 8);
    assert(d.subrange(89, 121) =~= m.emitter_address);
    assert(d.subrange(121, 129) =~= be_bytes(m.destination_chain as nat, 8));
    lemma_be_value_of_bytes(m.destination_chain as nat, 8);
    assert(d.subrange(129, 161) =~= m.destination_address);
    assert(d.subrange(161, 162) =~= be_bytes(m.is_response_expected as nat, 1));
    lemma_be_value_of_bytes(m.is_response_expected as nat, 1);
    assert(d.subrange(162, 163) =~= be_bytes(m.is_executable as nat, 1));
    lemma_be_value_of_bytes(m.is_executable as nat, 1);
    assert(d.subrange(163, 171) =~= be_bytes(m.execution_dependency_chain_id as nat, 8));
    lemma_be_value_of_bytes(m.execution_dependency_chain_id as nat, 8);
    assert(d.subrange(171, 179) =~= be_bytes(m.execution_dependency_sequence as nat, 8));
    lemma_be_value_of_bytes(m.execution_dependency_sequence as nat, 8);
    assert(d.subrange(179, 211) =~= m.caller);
    assert(d.subrange(211, 219) =~= be_bytes(m.response_of_chain_id as nat, 8));
    lemma_be_value_of_bytes(m.response_of_chain_id as nat, 8);
    assert(d.subrange(219, 227) =~= be_bytes(m.response_of_sequence as nat, 8));
    lemma_be_value_of_bytes(m.response_of_sequence as nat, 8);
    assert(d.subrange(227, 228) =~= be_bytes(m.request_status as nat, 1));
    lemma_be_value_of_bytes(m.request_status as nat, 1);
    assert(d.subrange(228, 236) =~= be_bytes(m.response_chain_id as nat, 8));
    lemma_be_value_of_bytes(m.response_chain_id as nat, 8);
    assert(d.subrange(236, 244) =~= be_bytes(m.response_sequence as nat, 8));
    lemma_be_value_of_bytes(m.response_sequence as nat, 8);
    assert(d.subrange(244, 248) =~= m.payload.take(4));
    assert(d.subrange(248, d.len() as int) =~= m.payload.skip(4));
    lemma_be_value_bound(m.payload.take(4));
}

/// Reading a request from at least 248 bytes and writing it again gives the
/// same bytes, except the 4 nonce bytes at offset 244, which the layout does not write.
pub proof fn lemma_encode_decode(d: Seq<u8>)
    requires
        d.len() >= header_len(),
    ensures
        encode_request(decode_request(d)) == d.take(244) + d.skip(248),
{
    let m = decode_request(d);
    lemma_pow256_values();
    lemma_bytes_of_be_value(d.subrange(1, 9));
    lemma_be_value_bound(d.subrange(1, 9));
    lemma_bytes_of_be_value(d.subrange(41, 49));
    lemma_be_value_bound(d.subrange(41, 49));
    lemma_bytes_of_be_value(d.subrange(81, 89));
    lemma_be_value_bound(d.subrange(81, 89));
    lemma_bytes_of_be_value(d.subrange(121, 129));
    lemma_be_value_bound(d.subrange(121, 129));
    lemma_bytes_of_be_value(d.subrange(163, 171));
    lemma_be_value_bound(d.subrange(163, 171));
    lemma_bytes_of_be_value(d.subrange(171, 179));
    lemma_be_value_bound(d.subrange(171, 179));
    lemma_bytes_of_be_value(d.subrange(211, 219));
    lemma_be_value_bound(d.subrange(211, 219));
    lemma_bytes_of_be_value(d.subrange(219, 227));
    lemma_be_value_bound(d.subrange(219, 227));
    lemma_bytes_of_be_value(d.subrange(228, 236));
    lemma_be_value_bound(d.subrange(228, 236));
    lemma_bytes_of_be_value(d.subrange(236, 244));
    lemma_be_value_bound(d.subrange(236, 244));
    lemma_bytes_of_be_value(d.subrange(0, 1));
    lemma_bytes_of_be_value(d.subrange(161, 162));
    lemma_bytes_of_be_value(d.subrange(162, 163));
    lemma_bytes_of_be_value(d.subrange(227, 228));
    lemma_be_value_single(d.subrange(0, 1));
    lemma_be_value_single(d.subrange(161, 162));
    lemma_be_value_single(d.subrange(162, 163));
    lemma_be_value_single(d.subrange(227, 228));
    assert(m.request_address.take(32) =~= d.subrange(9, 41));
    assert(encode_request(m) =~= d.take(244) + d.skip(248));
}

impl XRequest {
    /// Reads a request from a VAA payload of at least 248 bytes.
    pub fn deserialize(data: &Vec<u8>) -> (r: Result<XRequest, crate::error::XcaError>)
        requires
            data@.len() >= header_len(),
        ensures
            r matches Ok(req) && req@ == decode_request(data@),
    {
        let d = data.as_slice();
        let len = d.len();
        let status = get_u8(d, 0);
        let request_chain_id = get_u64(d, 1);
        let request_address = get_bytes32(d, 9);
        let sender_chain_id = get_u64(d, 41);
        let sender_address = get_bytes32(d, 49);
        let emitter_chain_id = get_u64(d, 81);
        let emitter_address = get_bytes32(d, 89);
        let destination_chain = get_u64(d, 121);
        let destination_address = get_bytes32(d, 129);
        let is_response_expected = get_u8(d, 161);
        let is_executable = get_u8(d, 162);
        let execution_dependency_chain_id = get_u64(d, 163);
        let execution_dependency_sequence = get_u64(d, 171);
        let caller = get_bytes32(d, 179);
        let response_of_chain_id = get_u64(d, 211);
        let response_of_sequence = get_u64(d, 219);
        let request_status = get_u8(d, 227);
        let response_chain_id = get_u64(d, 228);
        let response_sequence = get_u64(d, 236);
        let nonce = get_u32(d, 244);
        let mut payload: Vec<u8> = Vec::new();
        append_range(&mut payload, d, 248, len);
        proof {
            assert(payload@ =~= d@.subrange(248, len as int));
        }
        Ok(
            XRequest {
                status,
                request_chain_id,
                request_address,
                sender_chain_id,
                sender_address,
                emitter_chain_id,
                emitter_address,
                nonce,
                destination_chain,
                destination_address,
                is_response_expected,
                is_executable,
                execution_dependency_chain_id,
                execution_dependency_sequence,
                caller,
                response_of_chain_id,
                response_of_sequence,
                request_status,
                response_chain_id,
                response_sequence,
                payload,
            },
        )
    }

    /// Writes the request in its wire layout. The request address must hold at
    /// least 32 bytes; only its first 32 are written.
    pub fn serialize(&self) -> (r: Vec<u8>)
        requires
            self.request_address@.len() >= 32,
        ensures
            r@ == encode_request(self@),
    {
        let mut out: Vec<u8> = Vec::new();
        push_be(&mut out, self.status as u128, 1);
        push_be(&mut out, self.request_chain_id as u128, 8);
        append_range(&mut out, self.request_address.as_slice(), 0, 32);
        push_be(&mut out, self.sender_chain_id as u128, 8);
        append_all(&mut out, &self.sender_address);
        push_be(&mut out, self.emitter_chain_id as u128, 8);
        append_all(&mut out, &self.emitter_address);
        push_be(&mut out, self.destination_chain as u128, 8);
        append_all(&mut out, &self.destination_address);
        push_be(&mut out, self.is_response_expected as u128, 1);
        push_be(&mut out, self.is_executable as u128, 1);
        push_be(&mut out, self.execution_dependency_chain_id as u128, 8);
        push_be(&mut out, self.execution_dependency_sequence as u128, 8);
        append_all(&mut out, &self.caller);
        push_be(&mut out, self.response_of_chain_id as u128, 8);
        push_be(&mut out, self.response_of_sequence as u128, 8);
        push_be(&mut out, self.request_status as u128, 1);
        push_be(&mut out, self.response_chain_id as u128, 8);
        push_be(&mut out, self.response_sequence as u128, 8);
        append_all(&mut out, &self.payload);
        proof {
            assert(self.request_address@.subrange(0, 32) =~= self.request_address@.take(32));
            assert(out@ =~= encode_request(self@));
        }
        out
    }
}


/// The name the account reports at instantiation.
pub const CONTRACT_NAME: &'static str = "crates.io:account";

/// The id of the submessage whose reply the account accepts.
pub const POST_REPLY_ID: u64 = 1;

/// The nonce the account posts its requests with.
pub const OUTGOING_NONCE: u32 = 6969;

/// The status an outgoing request carries.
pub const OUTGOING_STATUS: u8 = 1;

/// The code id of the staking contract that a finished call instantiates.
pub const STAKING_CODE_ID: u64 = 4998;

/// Sets up the account (the account contract's own instantiate message).
pub struct InstantiateMsg {
    pub x_chain_registry_address: String,
    pub admin: AccountInfo,
    pub master: AccountInfo,
    pub slave: Option<AccountInfo>,
}

/// The answer to a VAA verification.
pub struct VerifyResponse {}

/// The configuration a new account starts with.
pub fn instantiate_config(msg: AccountInstantiateMsg) -> (r: Config)
    ensures
        r.x_chain_registry == msg.x_chain_registry_address,
        r.admin == msg.admin,
        r.master == msg.master,
        r.slave == msg.slave,
{
    Config {
        x_chain_registry: msg.x_chain_registry_address,
        admin: msg.admin,
        master: msg.master,
        slave: msg.slave,
    }
}

/// The configuration after an update: the given values, as they are.
pub fn update_config(
    x_chain_registry: String,
    admin: AccountInfo,
    master: AccountInfo,
    slave: Option<AccountInfo>,
) -> (r: Config)
    ensures
        r == (Config { x_chain_registry, admin, master, slave }),
{
    Config { x_chain_registry, admin, master, slave }
}

/// Accepts the reply to the posted message and refuses any other.
pub fn reply(id: u64) -> (r: Result<(), XcaError>)
    ensures
        r is Ok <==> id == POST_REPLY_ID,
        r is Err ==> r matches Err(XcaError::InvalidReply),
{
    if id == POST_REPLY_ID {
        Ok(())
    } else {
        Err(XcaError::InvalidReply)
    }
}

/// Whether a call of type `msg_type` asks for execution: every type but `QueryMsg`,
/// and no type at all, does.
pub open spec fn spec_is_executable(msg_type: Option<String>) -> u8 {
    match msg_type {
        Some(t) => if t@ == "QueryMsg"@ {
            0
        } else {
            1
        },
        None => 1,
    }
}

/// 1 when a call of type `msg_type` is to be executed, 0 for a query.
pub fn is_executable_for(msg_type: &Option<String>) -> (r: u8)
    ensures
        r == spec_is_executable(*msg_type),
{
    match msg_type {
        Some(t) => {
            let query = String::from_str("QueryMsg");
            if *t == query {
                0
            } else {
                1
            }
        },
        None => 1,
    }
}

/// A call of type `QueryMsg` is not for execution; a call of any other type,
/// or of no type, is.
pub proof fn lemma_is_executable(t: String)
    ensures
        spec_is_executable(None) == 1,
        t@ == "QueryMsg"@ ==> spec_is_executable(Some(t)) == 0,
        t@ != "QueryMsg"@ ==> spec_is_executable(Some(t)) == 1,
{
}

/// The request a call posts from chain `c` carries status 1, `c` as requesting
/// chain, 32 zero bytes for each address, 0 for every other integer, and the
/// call's message as payload.
pub proof fn lemma_outgoing_request_fields(c: u64, msg: Seq<u8>)
    ensures
        spec_outgoing_request(c, msg).status == 1,
        spec_outgoing_request(c, msg).request_chain_id == c,
        spec_outgoing_request(c, msg).payload == msg,
        spec_outgoing_request(c, msg).request_address.len() == 32,
        forall|i: int| 0 <= i < 32 ==> #[trigger] spec_outgoing_request(c, msg).request_address[i] == 0,
        spec_outgoing_request(c, msg).sender_address == spec_outgoing_request(c, msg).request_address,
        spec_outgoing_request(c, msg).emitter_address == spec_outgoing_request(c, msg).request_address,
        spec_outgoing_request(c, msg).destination_address == spec_outgoing_request(c, msg).request_address,
        spec_outgoing_request(c, msg).caller == spec_outgoing_request(c, msg).request_address,
        spec_outgoing_request(c, msg).sender_chain_id == 0,
        spec_outgoing_request(c, msg).emitter_chain_id == 0,
        spec_outgoing_request(c, msg).nonce == 0,
        spec_outgoing_request(c, msg).destination_chain == 0,
        spec_outgoing_request(c, msg).is_response_expected == 0,
        spec_outgoing_request(c, msg).is_executable == 0,
        spec_outgoing_request(c, msg).execution_dependency_chain_id == 0,
        spec_outgoing_request(c, msg).execution_dependency_sequence == 0,
        spec_outgoing_request(c, msg).response_of_chain_id == 0,
        spec_outgoing_request(c, msg).response_of_sequence == 0,
        spec_outgoing_request(c, msg).request_status == 0,
        spec_outgoing_request(c, msg).response_chain_id == 0,
        spec_outgoing_request(c, msg).response_sequence == 0,
{
}

/// 32 zero bytes: an address left unset.
pub open spec fn zero_address() -> Seq<u8> {
    Seq::new(32, |i: int| 0u8)
}

/// An address left unset.
fn unset_address() -> (r: Vec<u8>)
    ensures
        r@ == zero_address(),
{
    let mut v: Vec<u8> = Vec::new();
    let mut i: usize = 0;
    while i < 32
        invariant
            i <= 32,
            v@ == Seq::new(i as nat, |k: int| 0u8),
        decreases 32 - i,
    {
        v.push(0u8);
        i = i + 1;
        proof {
            assert(v@ =~= Seq::new(i as nat, |k: int| 0u8));
        }
    }
    v
}

/// The request a call posts from chain `local_chain`: it carries the outgoing
/// status, the local chain as requesting chain, and the call's message as
/// payload; every other field is zero and every address unset.
pub open spec fn spec_outgoing_request(local_chain: u64, msg: Seq<u8>) -> RequestModel {
    RequestModel {
        status: OUTGOING_STATUS,
        request_chain_id: local_chain,
        request_address: zero_address(),
        sender_chain_id: 0,
        sender_address: zero_address(),
        emitter_chain_id: 0,
        emitter_address: zero_address(),
        nonce: 0,
        destination_chain: 0,
        destination_address: zero_address(),
        is_response_expected: 0,
        is_executable: 0,
        execution_dependency_chain_id: 0,
        execution_dependency_sequence: 0,
        caller: zero_address(),
        response_of_chain_id: 0,
        response_of_sequence: 0,
        request_status: 0,
        response_chain_id: 0,
        response_sequence: 0,
        payload: msg,
    }
}

/// The request that a call posts from chain `local_chain`.
pub fn outgoing_request(local_chain: u64, msg: Vec<u8>) -> (r: XRequest)
    ensures
        r@ == spec_outgoing_request(local_chain, msg@),
{
    XRequest {
        status: OUTGOING_STATUS,
        request_chain_id: local_chain,
        request_address: unset_address(),
        sender_chain_id: 0,
        sender_address: unset_address(),
        emitter_chain_id: 0,
        emitter_address: unset_address(),
        nonce: 0,
        destination_chain: 0,
        destination_address: unset_address(),
        is_response_expected: 0,
        is_executable: 0,
        execution_dependency_chain_id: 0,
        execution_dependency_sequence: 0,
        caller: unset_address(),
        response_of_chain_id: 0,
        response_of_sequence: 0,
        request_status: 0,
        response_chain_id: 0,
        response_sequence: 0,
        payload: msg,
    }
}

/// The request a call posts is well formed, and where its message holds at
/// least 4 bytes it reads back at the destination with the outgoing status and
/// the posting chain as requesting chain; its first 4 message bytes come back
/// as the nonce and the rest as the payload.
pub proof fn lemma_outgoing_request_reads_back(local_chain: u64, msg: Seq<u8>)
    requires
        msg.len() >= 4,
    ensures
        well_formed_request(spec_outgoing_request(local_chain, msg)),
        ({
            let back = decode_request(encode_request(spec_outgoing_request(local_chain, msg)));
            &&& back.status == OUTGOING_STATUS
            &&& back.request_chain_id == local_chain
            &&& back.request_address == zero_address()
            &&& back.nonce == be_value(msg.take(4)) as u32
            &&& back.payload == msg.skip(4)
        }),
{
    lemma_decode_encode(spec_outgoing_request(local_chain, msg));
}

/// What a call posts: the message for the local Wormhole core contract, and
/// the nonce to post it with.
pub struct CallPlan {
    /// The Wormhole core contract of the local chain.
    pub wormhole_core: String,
    /// The serialized request.
    pub message: Vec<u8>,
    pub nonce: u32,
}

/// Plans a call from the registry's answer. The registry must hold the entry of
/// its own chain (the call aborts otherwise). The plan depends neither on the
/// call's type, whose executability is worked out but not carried, nor on its
/// extra data, which is not read.
pub fn call_plan(
    registry: RegistryConfigResponse,
    msg_type: &Option<String>,
    msg: Vec<u8>,
    x_data: &Option<Vec<u8>>,
) -> (r: CallPlan)
    requires
        spec_find(registry.chain_info@, registry.chain_id_here) is Some,
    ensures
        ({
            let ci = spec_find(registry.chain_info@, registry.chain_id_here)->Some_0;
            &&& r.wormhole_core == ci.wormhole_core
            &&& r.message@ == encode_request(spec_outgoing_request(ci.wormhole_id, msg@))
            &&& r.nonce == OUTGOING_NONCE
        }),
{
    let _is_executable = is_executable_for(msg_type);
    let _ = x_data;
    let here = registry.chain_id_here;
    let local = find_chain_info(registry.chain_info, here);
    match local {
        Some(ci) => {
            let request = outgoing_request(ci.wormhole_id, msg);
            let message = request.serialize();
            CallPlan { wormhole_core: ci.wormhole_core, message, nonce: OUTGOING_NONCE }
        },
        None => {
            proof {
                assert(false);
            }
            CallPlan { wormhole_core: String::new(), message: Vec::new(), nonce: OUTGOING_NONCE }
        },
    }
}

/// The staking contract that a finished call instantiates.
pub struct StakingInstantiate {
    pub code_id: u64,
    pub label: String,
    pub denom_name: String,
    pub admin: Option<String>,
}

/// Handles one verified VAA of a finished call: reads the request in its
/// payload (at least 248 bytes; the call aborts otherwise) and answers with the
/// staking contract to instantiate.
pub fn finish_call_message(payload: &Vec<u8>) -> (r: StakingInstantiate)
    requires
        payload@.len() >= header_len(),
    ensures
        r.code_id == STAKING_CODE_ID,
        r.label@ == "staking_contract"@,
        r.denom_name@ == "uluna"@,
        r.admin is None,
{
    let _request = XRequest::deserialize(payload);
    StakingInstantiate {
        code_id: STAKING_CODE_ID,
        label: String::from_str("staking_contract"),
        denom_name: String::from_str("uluna"),
        admin: None,
    }
}

} // verus!
