//! The public-key fingerprint and invite resolution: the encode/decode
//! round trip reproduces the directly fingerprinted slug.

use openssl::bn::BigNumContext;
use openssl::ec::{EcGroup, EcKey, PointConversionForm};
use openssl::nid::Nid;

use signaling::b58_fingerprint::b58_fingerprint;
use signaling::errors::SignalingError;
use signaling::invite::{InviteCode, make_invite};
use signaling::protocol::resolve_target;

fn fresh_key() -> (String, Vec<u8>) {
    let group = EcGroup::from_curve_name(Nid::X9_62_PRIME256V1).unwrap();
    let mut ctx = BigNumContext::new().unwrap();
    let key = EcKey::generate(&group).unwrap();
    let pem = String::from_utf8(key.public_key_to_pem().unwrap()).unwrap();
    let point = key
        .public_key()
        .to_bytes(&group, PointConversionForm::COMPRESSED, &mut ctx)
        .unwrap();
    (pem, point)
}

#[test]
fn fingerprint_is_stable() {
    let (pem, point) = fresh_key();
    let first = b58_fingerprint(&pem).unwrap();
    let second = b58_fingerprint(&pem).unwrap();
    assert_eq!(first, second);
    assert!(!first.is_empty());
    // a compressed P-256 point is 33 bytes; its base-58 text is shorter
    // than the PEM and contains no look-alike characters
    assert_eq!(point.len(), 33);
    assert!(first.chars().all(|c| c.is_ascii_alphanumeric()));
}

#[test]
fn invite_round_trip_reproduces_fingerprint() {
    let (pem, point) = fresh_key();
    let direct = b58_fingerprint(&pem).unwrap();

    let invite = make_invite(&InviteCode {
        secret: vec![7, 7, 7],
        host_public_key: point,
    });
    let resolved = resolve_target(None, Some(&invite)).unwrap();
    assert_eq!(resolved, direct);
}

#[test]
fn fingerprint_rejects_garbage() {
    let r = b58_fingerprint(&String::from("not a pem key"));
    assert_eq!(r, Err(SignalingError::InternalServerError));
}

#[test]
fn resolve_target_requires_exactly_one_path() {
    assert_eq!(
        resolve_target(None, None),
        Err(SignalingError::InvalidRequest)
    );
    let invite = String::from("3yZe7d");
    assert_eq!(
        resolve_target(Some(String::from("slug")), Some(&invite)),
        Err(SignalingError::InvalidRequest)
    );
    assert_eq!(resolve_target(Some(String::from("a-slug")), None).unwrap(), "a-slug");
}

#[test]
fn resolve_target_rejects_bad_invites() {
    // '0' and '!' are outside the base-58 alphabet
    assert_eq!(
        resolve_target(None, Some(&String::from("0!!"))),
        Err(SignalingError::InvalidInvite)
    );
    // valid base-58, but the bytes are a truncated invite
    let text = bs58::encode(&[0x0Au8, 0x05, 0x01]).into_string();
    assert_eq!(
        resolve_target(None, Some(&text)),
        Err(SignalingError::InvalidInvite)
    );
}

#[test]
fn resolve_target_reads_the_invites_public_key() {
    let invite = make_invite(&InviteCode {
        secret: vec![1, 2, 3],
        host_public_key: vec![0xAB, 0xCD],
    });
    let resolved = resolve_target(None, Some(&invite)).unwrap();
    assert_eq!(resolved, bs58::encode(&[0xABu8, 0xCD]).into_string());
}
