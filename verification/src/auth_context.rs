//! The caller identity attached to every request.
//!
//! Transport hands each request an `AuthContext`: an authenticated user, a
//! host, or neither. Credential cryptography is outside — a JWT decoder
//! verifies the signature against the presented key and yields claims —
//! and the checks on those claims, and what each protected operation
//! demands of the context, are verified here.

use vstd::prelude::*;
use vstd::string::StrSliceExecFns;
use vstd::string::StringExecFns;
use crate::errors::SignalingError;
use crate::host::Host;
use crate::user::User;

verus! {

/// The claims of a host's self-signed bootstrap credential, as the outside
/// decoder hands them back after verifying the signature against the
/// host's presented public key.
#[derive(Debug)]
pub struct JWTPayload {
    /// The subject, derived from the host's public key.
    pub subject: String,
    /// The audience: must name this service's signaling endpoint.
    pub audience: String,
    /// The self-signed flag: must be set for a bootstrap credential.
    pub self_signature: bool,
}

/// The claims check of a host bootstrap credential, applied after the
/// outside decoder verified its signature: the token must declare itself
/// self-signed, and its audience must be this deployment's signaling
/// endpoint. Anything else is an identity failure.
pub fn validate_host_claims(payload: &JWTPayload, signalling_url: &String) -> (r: Result<
    (),
    SignalingError,
>)
    ensures
        r is Ok <==> (payload.self_signature && payload.audience@ == signalling_url@),
        r is Err ==> r == Err::<(), SignalingError>(SignalingError::Unauthorized),
{
    if !payload.self_signature {
        return Err(SignalingError::Unauthorized);
    }
    if !(payload.audience == *signalling_url) {
        return Err(SignalingError::Unauthorized);
    }
    Ok(())
}

/// Extracts the token of a bearer authorization header: everything after
/// the `Bearer` marker and its separator. A header too short or not
/// starting with the marker is an identity failure.
pub fn bearer_token(authorization_header: &String) -> (r: Result<String, SignalingError>)
    ensures
        r is Ok <==> (authorization_header@.len() >= 7 && authorization_header@.subrange(0, 6)
            == "Bearer"@),
        r matches Ok(t) ==> t@ == authorization_header@.skip(7),
        r is Err ==> r == Err::<String, SignalingError>(SignalingError::Unauthorized),
{
    proof {
        reveal_strlit("Bearer");
    }
    let s = authorization_header.as_str();
    let n = s.unicode_len();
    if n < 7 {
        return Err(SignalingError::Unauthorized);
    }
    if s.get_char(0) == 'B' && s.get_char(1) == 'e' && s.get_char(2) == 'a' && s.get_char(3) == 'r'
        && s.get_char(4) == 'e' && s.get_char(5) == 'r' {
        assert(authorization_header@.subrange(0, 6) =~= "Bearer"@);
        let token = s.substring_char(7, n);
        Ok(String::from_str(token))
    } else {
        assert(authorization_header@.subrange(0, 6) != "Bearer"@) by {
            let pre = authorization_header@.subrange(0, 6);
            let lit = "Bearer"@;
            if pre == lit {
                assert(pre[0] == lit[0] && pre[1] == lit[1] && pre[2] == lit[2] && pre[3] == lit[3]
                    && pre[4] == lit[4] && pre[5] == lit[5]);
            }
        }
        Err(SignalingError::Unauthorized)
    }
}

/// What a request is allowed to do: its authenticated user, its host, or
/// neither. At most one of the two is set by the transport layer.
#[derive(Debug)]
pub struct AuthContext {
    pub user: Option<User>,
    pub host: Option<Host>,
}

impl AuthContext {
    /// The authenticated user's id, if any.
    pub fn user_id(&self) -> (r: Option<i64>)
        ensures
            self.user is Some ==> (r matches Some(id) && id == self.user.unwrap()@.id),
            self.user is None ==> r is None,
    {
        match &self.user {
            Some(user) => Some(user.id),
            None => None,
        }
    }

    /// The authenticated user, if any; for operations open to anonymous
    /// callers that still act on an identity where one is present.
    pub fn allow_unauthorized_user(&self) -> (r: Option<&User>)
        ensures
            self.user is Some ==> (r matches Some(u) && u@ == self.user.unwrap()@),
            self.user is None ==> r is None,
    {
        self.user.as_ref()
    }

    /// The authenticated user, demanded: an anonymous caller is refused.
    pub fn require_authorized_user(&self) -> (r: Result<&User, SignalingError>)
        ensures
            self.user is Some ==> (r matches Ok(u) && u@ == self.user.unwrap()@),
            self.user is None ==> r == Err::<&User, SignalingError>(SignalingError::Unauthorized),
    {
        match &self.user {
            Some(user) => Ok(user),
            None => Err(SignalingError::Unauthorized),
        }
    }

    /// The authenticated host, demanded: any other caller is refused.
    pub fn require_host(&self) -> (r: Result<&Host, SignalingError>)
        ensures
            self.host is Some ==> (r matches Ok(h) && h@ == self.host.unwrap()@),
            self.host is None ==> r == Err::<&Host, SignalingError>(SignalingError::Unauthorized),
    {
        match &self.host {
            Some(host) => Ok(host),
            None => Err(SignalingError::Unauthorized),
        }
    }
}

} // verus!
