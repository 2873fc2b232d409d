//! The invite wire codec: round trips, field handling, malformed input,
//! and agreement with an independent protobuf implementation.

use signaling::invite::{InviteCode, encode_invite, decode_invite, make_invite};
use signaling::varint::{push_varint, read_varint};
use signaling::errors::SignalingError;

fn invite(secret: &[u8], host_public_key: &[u8]) -> InviteCode {
    InviteCode { secret: secret.to_vec(), host_public_key: host_public_key.to_vec() }
}

#[test]
fn round_trip_both_fields() {
    let m = invite(&[1, 2, 3], &[4, 5, 6, 7]);
    let bytes = encode_invite(&m);
    let back = decode_invite(&bytes).unwrap();
    assert_eq!(back.secret, vec![1, 2, 3]);
    assert_eq!(back.host_public_key, vec![4, 5, 6, 7]);
}

#[test]
fn round_trip_empty_fields() {
    let m = invite(&[], &[]);
    let bytes = encode_invite(&m);
    assert!(bytes.is_empty());
    let back = decode_invite(&bytes).unwrap();
    assert!(back.secret.is_empty());
    assert!(back.host_public_key.is_empty());

    let only_key = invite(&[], &[9, 9]);
    let back = decode_invite(&encode_invite(&only_key)).unwrap();
    assert!(back.secret.is_empty());
    assert_eq!(back.host_public_key, vec![9, 9]);
}

#[test]
fn canonical_field_layout() {
    let m = invite(&[0xAA], &[0xBB, 0xCC]);
    let bytes = encode_invite(&m);
    assert_eq!(bytes, vec![0x0A, 0x01, 0xAA, 0x12, 0x02, 0xBB, 0xCC]);
}

#[test]
fn matches_independent_protobuf_encoder() {
    let secret: Vec<u8> = (0u16..200).map(|i| (i % 251) as u8).collect();
    let host_public_key: Vec<u8> = vec![2, 4, 6, 8];
    let mine = encode_invite(&invite(&secret, &host_public_key));
    let mut theirs: Vec<u8> = Vec::new();
    prost::encoding::bytes::encode(1, &secret, &mut theirs);
    prost::encoding::bytes::encode(2, &host_public_key, &mut theirs);
    assert_eq!(mine, theirs);
}

#[test]
fn fields_in_any_order_and_last_wins() {
    // field 2 first, then field 1, then field 2 again: decoders take the
    // last occurrence of a field.
    let bytes = vec![0x12, 0x01, 0x05, 0x0A, 0x01, 0x06, 0x12, 0x01, 0x07];
    let back = decode_invite(&bytes).unwrap();
    assert_eq!(back.secret, vec![6]);
    assert_eq!(back.host_public_key, vec![7]);
}

#[test]
fn unknown_fields_are_skipped() {
    // field 3 (length-delimited), field 4 (varint), field 5 (64-bit),
    // field 6 (32-bit), then field 2.
    let mut bytes = vec![0x1A, 0x02, 1, 2];
    bytes.extend([0x20, 0x96, 0x01]);
    bytes.extend([0x29, 0, 0, 0, 0, 0, 0, 0, 0]);
    bytes.extend([0x35, 0, 0, 0, 0]);
    bytes.extend([0x12, 0x01, 0x55]);
    let back = decode_invite(&bytes).unwrap();
    assert!(back.secret.is_empty());
    assert_eq!(back.host_public_key, vec![0x55]);
}

#[test]
fn malformed_inputs_are_invalid_invites() {
    // truncated length-delimited payload
    assert_eq!(decode_invite(&vec![0x0A, 0x05, 1, 2]), Err(SignalingError::InvalidInvite));
    // length varint cut off
    assert_eq!(decode_invite(&vec![0x0A, 0x80]), Err(SignalingError::InvalidInvite));
    // deprecated group wire types
    assert_eq!(decode_invite(&vec![0x0B]), Err(SignalingError::InvalidInvite));
    assert_eq!(decode_invite(&vec![0x0C]), Err(SignalingError::InvalidInvite));
    // truncated 64-bit field
    assert_eq!(decode_invite(&vec![0x29, 0, 0]), Err(SignalingError::InvalidInvite));
    // truncated 32-bit field
    assert_eq!(decode_invite(&vec![0x35, 0]), Err(SignalingError::InvalidInvite));
    // bare continuation byte
    assert_eq!(decode_invite(&vec![0x80]), Err(SignalingError::InvalidInvite));
}

#[test]
fn varint_round_trips() {
    for value in [0u64, 1, 127, 128, 300, 16383, 16384, u64::MAX - 1, u64::MAX] {
        let mut out: Vec<u8> = Vec::new();
        push_varint(&mut out, value);
        let (read, used) = read_varint(&out, 0).unwrap();
        assert_eq!(read, value);
        assert_eq!(used, out.len());
    }
}

#[test]
fn varint_agrees_with_independent_implementation() {
    for value in [0u64, 127, 128, 98765, u64::MAX] {
        let mut mine: Vec<u8> = Vec::new();
        push_varint(&mut mine, value);
        let mut theirs: Vec<u8> = Vec::new();
        prost::encoding::encode_varint(value, &mut theirs);
        assert_eq!(mine, theirs);
        let mut cursor: &[u8] = &mine;
        assert_eq!(prost::encoding::decode_varint(&mut cursor).unwrap(), value);
    }
}

#[test]
fn varint_over_64_bits_is_rejected() {
    // eleven continuation groups encode a value past u64::MAX
    let bytes = vec![0x80, 0x80, 0x80, 0x80, 0x80, 0x80, 0x80, 0x80, 0x80, 0x80, 0x01];
    assert_eq!(read_varint(&bytes, 0), None);
    assert_eq!(decode_invite(&{
        let mut b = vec![0x08];
        b.extend(&bytes);
        b
    }), Err(SignalingError::InvalidInvite));
}

#[test]
fn invite_text_is_base58() {
    let m = invite(&[1], &[2]);
    let text = make_invite(&m);
    assert!(!text.is_empty());
    assert!(text.chars().all(|c| c.is_ascii_alphanumeric()));
    assert!(!text.contains('0') && !text.contains('O') && !text.contains('I') && !text.contains('l'));
}
