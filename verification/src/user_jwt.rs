//! The claims of a user's identity token.
//!
//! An outside decoder verifies the token's signature against the identity
//! provider's current signing keys, refreshed periodically, and hands back
//! the claims; the audience check applied to those claims is verified
//! here.

use vstd::prelude::*;
use crate::errors::SignalingError;

verus! {

/// The claims of a verified user token.
#[derive(Debug)]
pub struct JWTPayload {
    /// The subject: the identity provider's stable id for the user.
    pub sub: String,
    /// The audience: must name this deployment's project.
    pub aud: String,
    pub email: String,
    pub email_verified: bool,
}

/// One of the identity provider's current signing keys, as PEM bytes.
#[derive(Debug)]
pub struct PemKey(pub Vec<u8>);

/// The claims check of a user token, applied after the outside decoder
/// verified its signature against one of the current signing keys: the
/// audience must be this deployment's project id. Anything else is an
/// identity failure.
pub fn validate_user_claims(payload: &JWTPayload, firebase_project_id: &String) -> (r: Result<
    (),
    SignalingError,
>)
    ensures
        r is Ok <==> payload.aud@ == firebase_project_id@,
        r is Err ==> r == Err::<(), SignalingError>(SignalingError::Unauthorized),
{
    if payload.aud == *firebase_project_id {
        Ok(())
    } else {
        Err(SignalingError::Unauthorized)
    }
}

} // verus!
