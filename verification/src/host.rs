//! The host record: a long-running authenticated agent.
//!
//! A host is created on its first successful identity verification and
//! keyed by a slug computed from its public key alone (see
//! [`crate::b58_fingerprint`]); it is immutable thereafter. Persistence of
//! host records is delegated to an outside store; this module holds the
//! record as plain values and the verified derivation of a new record.

use vstd::prelude::*;
use crate::b58_fingerprint::{b58_fingerprint, fingerprint_of, p256_readable};
use crate::errors::SignalingError;

verus! {

/// A registered host, as the store hands it back. Timestamps are seconds
/// since the epoch.
#[derive(Debug)]
pub struct Host {
    pub id: i64,
    pub created_at: i64,
    pub updated_at: i64,
    pub identity_public_key: String,
    pub slug: String,
}

/// What a [`Host`] holds, mathematically.
#[verifier::ext_equal]
pub struct HostData {
    pub id: i64,
    pub created_at: i64,
    pub updated_at: i64,
    pub identity_public_key: Seq<char>,
    pub slug: Seq<char>,
}

impl View for Host {
    type V = HostData;

    open spec fn view(&self) -> HostData {
        HostData {
            id: self.id,
            created_at: self.created_at,
            updated_at: self.updated_at,
            identity_public_key: self.identity_public_key@,
            slug: self.slug@,
        }
    }
}

impl DeepView for Host {
    type V = HostData;

    open spec fn deep_view(&self) -> HostData {
        self.view()
    }
}

impl Host {
    /// The host's stable id.
    pub fn id(&self) -> (r: i64)
        ensures
            r == self@.id,
    {
        self.id
    }

    /// The host's slug, derived from its public key.
    pub fn slug(&self) -> (r: &String)
        ensures
            r@ == self@.slug,
    {
        &self.slug
    }
}

/// The row inserted for a host seen for the first time.
#[derive(Debug)]
pub struct NewHost {
    pub identity_public_key: String,
    pub slug: String,
}

/// Builds the record for a host presenting `identity_public_key` for the
/// first time: the key as given, the slug its fingerprint. It succeeds
/// exactly on readable P-256 keys; any other text maps to the generic
/// internal error.
pub fn new_host_record(identity_public_key: String) -> (r: Result<NewHost, SignalingError>)
    ensures
        r is Ok <==> p256_readable(identity_public_key@),
        r matches Ok(h) ==> h.identity_public_key@ == identity_public_key@ && h.slug@
            == fingerprint_of(identity_public_key@),
        r is Err ==> r == Err::<NewHost, SignalingError>(SignalingError::InternalServerError),
{
    match b58_fingerprint(&identity_public_key) {
        Ok(slug) => Ok(NewHost { identity_public_key, slug }),
        Err(e) => Err(e),
    }
}

} // verus!
