use xca::byte_utils::{get_bytes32, get_u128_be, get_u16, get_u256, get_u32, get_u64, get_u8, push_be, read_be, to_vec};
use xca::contracts::account::XRequest;
use xca::contracts::shouter::{ShoutBackMessage, ShouterMessage};
use xca::contracts::smart_wallet::TokenBridgeMessage;

fn sample_request() -> XRequest {
    XRequest {
        status: 1,
        request_chain_id: 0x0102_0304_0506_0708,
        request_address: vec![0xaa; 32],
        sender_chain_id: 2,
        sender_address: vec![0xbb; 32],
        emitter_chain_id: 3,
        emitter_address: vec![0xcc; 32],
        nonce: 77,
        destination_chain: 4,
        destination_address: vec![0xdd; 32],
        is_response_expected: 1,
        is_executable: 0,
        execution_dependency_chain_id: 5,
        execution_dependency_sequence: 6,
        caller: vec![0xee; 32],
        response_of_chain_id: 7,
        response_of_sequence: 8,
        request_status: 2,
        response_chain_id: 9,
        response_sequence: 10,
        payload: vec![0, 0, 1, 2, 9, 8, 7],
    }
}

#[test]
fn reads_big_endian_integers() {
    let d: Vec<u8> = (1u8..=40).collect();
    assert_eq!(get_u8(&d, 3), 4);
    assert_eq!(get_u16(&d, 0), 0x0102);
    assert_eq!(get_u32(&d, 1), 0x0203_0405);
    assert_eq!(get_u64(&d, 0), 0x0102_0304_0506_0708);
    assert_eq!(get_u128_be(&d, 0), u128::from_be_bytes(d[0..16].try_into().unwrap()));
    let (hi, lo) = get_u256(&d, 2);
    assert_eq!(hi, u128::from_be_bytes(d[2..18].try_into().unwrap()));
    assert_eq!(lo, u128::from_be_bytes(d[18..34].try_into().unwrap()));
    assert_eq!(read_be(&d, 5, 0), 0);
    assert_eq!(get_bytes32(&d, 8), d[8..40].to_vec());
    assert_eq!(to_vec(&d), d);
}

#[test]
fn writes_big_endian_integers() {
    let mut out = vec![0xff];
    push_be(&mut out, 0x0102_0304, 4);
    push_be(&mut out, 0x0102_0304, 2);
    push_be(&mut out, u64::MAX as u128, 8);
    let mut expected = vec![0xff, 1, 2, 3, 4, 3, 4];
    expected.extend_from_slice(&u64::MAX.to_be_bytes());
    assert_eq!(out, expected);
}

#[test]
fn xrequest_layout() {
    let r = sample_request();
    let bytes = r.serialize();
    assert_eq!(bytes.len(), 244 + 7);
    assert_eq!(bytes[0], 1);
    assert_eq!(&bytes[1..9], &0x0102_0304_0506_0708u64.to_be_bytes());
    assert_eq!(&bytes[9..41], &[0xaa; 32]);
    assert_eq!(&bytes[41..49], &2u64.to_be_bytes());
    assert_eq!(&bytes[161..163], &[1, 0]);
    assert_eq!(bytes[227], 2);
    assert_eq!(&bytes[236..244], &10u64.to_be_bytes());
    assert_eq!(&bytes[244..], &[0, 0, 1, 2, 9, 8, 7]);
}

#[test]
fn xrequest_serialize_takes_first_32_request_address_bytes() {
    let mut r = sample_request();
    r.request_address = (0u8..40).collect();
    let bytes = r.serialize();
    assert_eq!(&bytes[9..41], &(0u8..32).collect::<Vec<u8>>()[..]);
    assert_eq!(bytes.len(), 244 + 7);
}

#[test]
fn xrequest_read_back_splits_nonce_from_payload() {
    let r = sample_request();
    let back = XRequest::deserialize(&r.serialize()).unwrap();
    assert_eq!(back.status, r.status);
    assert_eq!(back.request_chain_id, r.request_chain_id);
    assert_eq!(back.request_address, r.request_address);
    assert_eq!(back.sender_chain_id, r.sender_chain_id);
    assert_eq!(back.sender_address, r.sender_address);
    assert_eq!(back.emitter_chain_id, r.emitter_chain_id);
    assert_eq!(back.emitter_address, r.emitter_address);
    assert_eq!(back.destination_chain, r.destination_chain);
    assert_eq!(back.destination_address, r.destination_address);
    assert_eq!(back.is_response_expected, r.is_response_expected);
    assert_eq!(back.is_executable, r.is_executable);
    assert_eq!(back.execution_dependency_chain_id, r.execution_dependency_chain_id);
    assert_eq!(back.execution_dependency_sequence, r.execution_dependency_sequence);
    assert_eq!(back.caller, r.caller);
    assert_eq!(back.response_of_chain_id, r.response_of_chain_id);
    assert_eq!(back.response_of_sequence, r.response_of_sequence);
    assert_eq!(back.request_status, r.request_status);
    assert_eq!(back.response_chain_id, r.response_chain_id);
    assert_eq!(back.response_sequence, r.response_sequence);
    // the layout carries no nonce: the first four payload bytes are read as one
    assert_eq!(back.nonce, 0x0000_0102);
    assert_eq!(back.payload, vec![9, 8, 7]);
}

#[test]
fn xrequest_bytes_written_back_lose_only_the_nonce() {
    let d: Vec<u8> = (0..260u32).map(|i| (i * 7 % 251) as u8).collect();
    let r = XRequest::deserialize(&d).unwrap();
    assert_eq!(r.nonce, u32::from_be_bytes(d[244..248].try_into().unwrap()));
    assert_eq!(r.payload, d[248..].to_vec());
    let mut expected = d[..244].to_vec();
    expected.extend_from_slice(&d[248..]);
    assert_eq!(r.serialize(), expected);
}

#[test]
fn xrequest_minimal_payload() {
    let d = vec![0u8; 248];
    let r = XRequest::deserialize(&d).unwrap();
    assert!(r.payload.is_empty());
    assert_eq!(r.nonce, 0);
    assert_eq!(r.serialize(), vec![0u8; 244]);
}

#[test]
fn shouter_message_is_its_payload() {
    let m = ShouterMessage::deserialize(&vec![5, 6, 7]).unwrap();
    assert_eq!(m.payload, vec![5, 6, 7]);
    assert_eq!(m.serialize(), vec![5, 6, 7]);
    assert_eq!(m.first_byte(), 5);
    let empty = ShouterMessage::deserialize(&vec![]).unwrap();
    assert!(empty.serialize().is_empty());
}

#[test]
fn token_bridge_message_is_its_payload() {
    let m = TokenBridgeMessage::deserialize(&vec![1, 2]).unwrap();
    assert_eq!(m.payload, vec![1, 2]);
    assert_eq!(m.serialize(), vec![1, 2]);
}

#[test]
fn shout_back_roundtrip() {
    let m = ShoutBackMessage { best_bid: 1234567890123456789, best_ask: u128::MAX - 5 };
    let bytes = m.serialize();
    let mut expected = 1234567890123456789u128.to_be_bytes().to_vec();
    expected.extend_from_slice(&(u128::MAX - 5).to_be_bytes());
    assert_eq!(bytes, expected);
    let back = ShoutBackMessage::deserialize(&bytes).unwrap();
    assert_eq!(back.best_bid, m.best_bid);
    assert_eq!(back.best_ask, m.best_ask);
}

#[test]
fn shout_back_reads_only_first_32_bytes() {
    let mut d = vec![0u8; 40];
    d[15] = 3;
    d[31] = 4;
    d[39] = 9;
    let m = ShoutBackMessage::deserialize(&d).unwrap();
    assert_eq!(m.best_bid, 3);
    assert_eq!(m.best_ask, 4);
    assert_eq!(m.serialize(), d[..32].to_vec());
}
