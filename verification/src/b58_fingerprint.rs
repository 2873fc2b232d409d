//! The public-key fingerprint that names a host.
//!
//! A host is keyed by a slug derived from its identity public key alone:
//! the elliptic-curve point of the key (P-256, PEM form) in compressed
//! encoding, rendered as base-58 text. The derivation is one-way and
//! stable, so the same key always yields the same slug.

use vstd::prelude::*;
use crate::base58::{b58_of, b58_encode};
use crate::errors::SignalingError;

verus! {

/// Whether a text is a PEM-encoded P-256 public key as openssl reads it:
/// the parse outcome depends on the text alone.
pub uninterp spec fn p256_readable(pem: Seq<char>) -> bool;

/// The compressed elliptic-curve point of the public key a PEM text holds.
pub uninterp spec fn compressed_point_of(pem: Seq<char>) -> Seq<u8>;

/// Relies on openssl: `EcKey::public_key_from_pem` to read the key and
/// `EcPoint::to_bytes` with `PointConversionForm::COMPRESSED` on the P-256
/// group (with a fresh `BigNumContext`) to compress its point. The call is
/// a function of the PEM text alone: it succeeds exactly on the texts
/// openssl reads as such a key, and the bytes are the key's compressed
/// point.
#[verifier::external_body]
fn compressed_ec_point(pem: &String) -> (r: Option<Vec<u8>>)
    ensures
        r is Some <==> p256_readable(pem@),
        r matches Some(b) ==> b@ == compressed_point_of(pem@),
{
    let group = openssl::ec::EcGroup::from_curve_name(openssl::nid::Nid::X9_62_PRIME256V1).ok()?;
    let mut ctx = openssl::bn::BigNumContext::new().ok()?;
    let key = openssl::ec::EcKey::public_key_from_pem(pem.as_bytes()).ok()?;
    key.public_key().to_bytes(&group, openssl::ec::PointConversionForm::COMPRESSED, &mut ctx).ok()
}

/// The slug derived from a public key: base-58 text of its compressed point.
pub open spec fn fingerprint_of(pem: Seq<char>) -> Seq<char> {
    b58_of(compressed_point_of(pem))
}

/// Derives the base-58 fingerprint of an identity public key in PEM form.
/// It succeeds exactly on readable P-256 keys and is deterministic: equal
/// keys always yield the same slug. Anything else maps to the generic
/// internal error, as infrastructure failures do.
pub fn b58_fingerprint(identity_public_key: &String) -> (r: Result<String, SignalingError>)
    ensures
        r is Ok <==> p256_readable(identity_public_key@),
        r matches Ok(f) ==> f@ == fingerprint_of(identity_public_key@),
        r is Err ==> r == Err::<String, SignalingError>(SignalingError::InternalServerError),
{
    match compressed_ec_point(identity_public_key) {
        Some(point) => Ok(b58_encode(point.as_slice())),
        None => Err(SignalingError::InternalServerError),
    }
}

} // verus!
