//! The connection-request message a host receives.
//!
//! A signal carries one client's offer to one host: the requester's
//! identity where the caller was authenticated, the invite it presented (if
//! any), the fresh session id, the opaque offer payload, and a by-value
//! copy of the ICE snapshot taken at dispatch time. A signal is immutable
//! once constructed.

use vstd::prelude::*;
use crate::ice_server::{IceServer, IceData};

verus! {

/// The authenticated identity on whose behalf a connection is requested.
#[derive(Debug)]
pub struct Requester {
    pub user_id: i64,
    pub email: Option<String>,
    pub email_verified: bool,
}

/// What a [`Requester`] holds, mathematically.
#[verifier::ext_equal]
pub struct RequesterData {
    pub user_id: i64,
    pub email: Option<Seq<char>>,
    pub email_verified: bool,
}

impl View for Requester {
    type V = RequesterData;

    open spec fn view(&self) -> RequesterData {
        RequesterData {
            user_id: self.user_id,
            email: self.email.deep_view(),
            email_verified: self.email_verified,
        }
    }
}

impl DeepView for Requester {
    type V = RequesterData;

    open spec fn deep_view(&self) -> RequesterData {
        self.view()
    }
}

/// One connection-request message.
#[derive(Debug)]
pub struct Signal {
    /// The requester, absent while a request precedes full authorization.
    pub requester: Option<Requester>,
    /// The invite text the client presented, passed through for the host.
    pub invite: Option<String>,
    /// The session this request opened.
    pub session_id: String,
    /// The offer payload, opaque to the broker.
    pub offer: String,
    /// The ICE snapshot, copied by value at dispatch time.
    pub ice_servers: Vec<IceServer>,
}

/// What a [`Signal`] holds, mathematically.
#[verifier::ext_equal]
pub struct SignalData {
    pub requester: Option<RequesterData>,
    pub invite: Option<Seq<char>>,
    pub session_id: Seq<char>,
    pub offer: Seq<char>,
    pub ice_servers: Seq<IceData>,
}

impl View for Signal {
    type V = SignalData;

    open spec fn view(&self) -> SignalData {
        SignalData {
            requester: self.requester.deep_view(),
            invite: self.invite.deep_view(),
            session_id: self.session_id@,
            offer: self.offer@,
            ice_servers: self.ice_servers.deep_view(),
        }
    }
}

impl DeepView for Signal {
    type V = SignalData;

    open spec fn deep_view(&self) -> SignalData {
        self.view()
    }
}

} // verus!
