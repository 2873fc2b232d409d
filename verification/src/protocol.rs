//! The signaling protocol: resolve host, dispatch signal, await response.
//!
//! The broker ties the connector registry and the pending-response table
//! together. A client's connect resolves its target, dispatches a signal
//! through the host's live connector, and only later — when the client
//! asks for the response — opens the waiter the host's answer is delivered
//! to. That ordering is kept from the observed flow on purpose: a host
//! answering between dispatch and the opening of the waiter produces an
//! orphaned answer even though the client is actively waiting. Closing the
//! race by opening the waiter atomically with dispatch would change the
//! protocol; this implementation documents the hazard instead of fixing it
//! silently.
//!
//! Time and randomness come from outside: callers pass the clock reading
//! into every deadline-sensitive call, and the session id is drawn through
//! a trusted wrapper.

use vstd::prelude::*;
use crate::auth_context::AuthContext;
use crate::base58::{b58_of, b58_encode};
use crate::connector::{Connector, ConnectorData, ConnectorState};
use crate::errors::SignalingError;
use crate::host::Host;
use crate::ice_server::{IceServer, copy_ice_snapshot};
use crate::invite::{decode_invite_text, spec_decode_invite, invite_slug_of};
use crate::pending::{PendingResponseTable, PendingEntryData, PollOutcome, WaiterStateData,
    HostConnectionResponse, ResponseData};
use crate::registry::ConnectorRegistry;
use crate::signal::{Signal, SignalData, Requester};
use crate::user::User;

verus! {

/// The length, in characters, of every issued session id.
pub const SESSION_ID_LEN: usize = 21;

/// Relies on `nanoid::format` with the crate's default URL-safe alphabet
/// and default secure random source: a fresh random identifier of exactly
/// [`SESSION_ID_LEN`] characters. Nothing more is promised of a random
/// value; unpredictability and collision odds rest on the outside crate.
/// The random source draws from the operating system and aborts the
/// process if that fails — an environmental failure, like running out of
/// memory, not an input.
#[verifier::external_body]
fn generate_session_id() -> (r: String)
    ensures
        r@.len() == SESSION_ID_LEN,
{
    nanoid::format(nanoid::rngs::default, &nanoid::alphabet::SAFE, SESSION_ID_LEN)
}

/// The process-wide brokering state: the connector registry and the
/// pending-response table. No operation spans both maps transactionally;
/// each is kept consistent on its own.
#[derive(Debug)]
pub struct SignalBroker {
    pub registry: ConnectorRegistry,
    pub pending: PendingResponseTable,
}

/// One client's connect attempt, as handed back by
/// [`SignalBroker::connect_to_host`]: the resolved host and the fresh
/// session id. The response is not in it; the client asks for it
/// separately, which is when the waiter is opened.
#[derive(Debug)]
pub struct HostConnection {
    pub host: Host,
    pub session_id: String,
    /// Whether a successful response should record a user↔host
    /// association: set exactly when the caller was authenticated.
    pub add_to_host_users: bool,
}

impl SignalBroker {
    /// Both tables well-formed.
    pub open spec fn wf(&self) -> bool {
        self.registry.wf() && self.pending.wf()
    }

    /// The registry as a host-keyed map.
    pub open spec fn connectors(&self) -> Map<i64, ConnectorData> {
        self.registry.as_map()
    }

    /// The pending table as a key-indexed map.
    pub open spec fn waiters(&self) -> Map<(i64, Seq<char>), PendingEntryData> {
        self.pending.as_map()
    }

    /// A broker with no connectors and no waiters.
    pub fn new() -> (r: SignalBroker)
        ensures
            r.wf(),
            r.connectors() == Map::<i64, ConnectorData>::empty(),
            r.waiters() == Map::<(i64, Seq<char>), PendingEntryData>::empty(),
            r.registry.next_id == 0,
    {
        SignalBroker { registry: ConnectorRegistry::new(), pending: PendingResponseTable::new() }
    }

    /// Host-side subscription: registers a fresh connector for `host_id`
    /// and hands back its id, together with the previous connector where
    /// one was registered — evicted and already stopped, so the same host
    /// subscribing again (say, from a second browser tab) invalidates its
    /// first stream. The pending table is untouched.
    pub fn connection_requested(&mut self, host_id: i64) -> (r: (u64, Option<Connector>))
        requires
            old(self).wf(),
            old(self).registry.next_id < u64::MAX,
        ensures
            final(self).wf(),
            final(self).waiters() == old(self).waiters(),
            final(self).registry.next_id == old(self).registry.next_id + 1,
            r.0 == old(self).registry.next_id,
            final(self).connectors() == old(self).connectors().insert(
                host_id,
                (ConnectorData {
                    connector_id: r.0,
                    host_id,
                    state: ConnectorState::Active,
                    queue: Seq::empty(),
                }),
            ),
            old(self).connectors().contains_key(host_id) ==> (r.1 matches Some(e) && e@
                == (ConnectorData {
                state: ConnectorState::Stopped,
                ..old(self).connectors()[host_id]
            })),
            !old(self).connectors().contains_key(host_id) ==> r.1 is None,
    {
        let c = self.registry.new_connector(host_id);
        let id = c.connector_id;
        let evicted = self.registry.register(c);
        (id, evicted)
    }

    /// Client-side connect, target already resolved to a host record:
    /// draws a fresh session id and dispatches a signal — the requester if
    /// authenticated, the invite reference, the session id, the offer and
    /// a by-value copy of the ICE snapshot — through the host's live
    /// connector. Without one the call fails as `HostOffline` at once, and
    /// no waiter is created. No waiter is created on success either: the
    /// response step opens it later (see the module note on the ordering
    /// hazard).
    pub fn connect_to_host(
        &mut self,
        host: Host,
        requester: Option<Requester>,
        invite: Option<String>,
        offer: String,
        ice_snapshot: &Vec<IceServer>,
    ) -> (r: Result<HostConnection, SignalingError>)
        requires
            old(self).wf(),
        ensures
            final(self).wf(),
            final(self).waiters() == old(self).waiters(),
            final(self).registry.next_id == old(self).registry.next_id,
            !old(self).registry.has_live(host@.id) ==> r is Err && (r matches Err(e) && e
                == SignalingError::HostOffline) && final(self).connectors() == old(self).connectors(),
            old(self).registry.has_live(host@.id) ==> r is Ok,
            r matches Ok(hc) ==> {
                &&& old(self).registry.has_live(host@.id)
                &&& hc.host@ == host@
                &&& hc.add_to_host_users == (requester is Some)
                &&& hc.session_id@.len() == SESSION_ID_LEN
                &&& final(self).connectors() == old(self).connectors().insert(
                    host@.id,
                    (ConnectorData {
                        queue: old(self).connectors()[host@.id].queue.push(
                            (SignalData {
                                requester: requester.deep_view(),
                                invite: invite.deep_view(),
                                session_id: hc.session_id@,
                                offer: offer@,
                                ice_servers: ice_snapshot.deep_view(),
                            }),
                        ),
                        ..old(self).connectors()[host@.id]
                    }),
                )
            },
    {
        let add_to_host_users = requester.is_some();
        let session_id = generate_session_id();
        let session_id_copy = session_id.clone();
        let signal = Signal {
            requester,
            invite,
            session_id,
            offer,
            ice_servers: copy_ice_snapshot(ice_snapshot),
        };
        let ghost sent = signal@;
        let accepted = self.registry.dispatch(host.id, signal);
        if accepted {
            Ok(HostConnection { host, session_id: session_id_copy, add_to_host_users })
        } else {
            Err(SignalingError::HostOffline)
        }
    }

    /// Host-side answer to a session. Delivers to the waiter where one
    /// stands open; the result says whether it did. A `false` — no such
    /// waiter, or one already answered — is the orphaned-answer case: the
    /// host answered late or answered a foreign session, which is not the
    /// host's fault and is acknowledged all the same, observable only in
    /// logs. The registry is untouched.
    pub fn respond_to_connection_request(
        &mut self,
        host_id: i64,
        session_id: &String,
        answer: String,
        ice_candidates: Vec<String>,
    ) -> (delivered: bool)
        requires
            old(self).wf(),
        ensures
            final(self).wf(),
            final(self).connectors() == old(self).connectors(),
            final(self).registry.next_id == old(self).registry.next_id,
            delivered == (old(self).waiters().contains_key((host_id, session_id@)) && old(self).waiters()[(host_id, session_id@)].state is Waiting),
            delivered ==> final(self).waiters() == old(self).waiters().insert(
                (host_id, session_id@),
                (PendingEntryData {
                    state: WaiterStateData::Delivered(
                        (ResponseData { answer: answer@, ice_candidates: ice_candidates.deep_view() }),
                    ),
                    ..old(self).waiters()[(host_id, session_id@)]
                }),
            ),
            !delivered ==> final(self).waiters() == old(self).waiters(),
    {
        let response = HostConnectionResponse { answer, ice_candidates };
        self.pending.fulfill(host_id, session_id, response)
    }

    /// What the subscribed stream of connector `connector_id` reads next
    /// for `host_id`: the oldest queued signal, in dispatch order.
    pub fn take_next_signal(&mut self, host_id: i64, connector_id: u64) -> (r: Option<Signal>)
        requires
            old(self).wf(),
        ensures
            final(self).wf(),
            final(self).waiters() == old(self).waiters(),
            final(self).registry.next_id == old(self).registry.next_id,
            ({
                let m = old(self).connectors();
                if m.contains_key(host_id) && m[host_id].connector_id == connector_id
                    && m[host_id].queue.len() > 0 {
                    &&& r matches Some(s) && s@ == m[host_id].queue[0]
                    &&& final(self).connectors() == m.insert(
                        host_id,
                        (ConnectorData { queue: m[host_id].queue.drop_first(), ..m[host_id] }),
                    )
                } else {
                    r is None && final(self).connectors() == m
                }
            }),
    {
        self.registry.take_next_signal(host_id, connector_id)
    }

    /// Ends a host's subscription: the connector deregisters itself, but
    /// only if the registry still points at that exact instance, so a
    /// late-stopping old connector never erases a newer registration.
    pub fn end_subscription(&mut self, host_id: i64, connector_id: u64) -> (removed: bool)
        requires
            old(self).wf(),
        ensures
            final(self).wf(),
            final(self).waiters() == old(self).waiters(),
            final(self).registry.next_id == old(self).registry.next_id,
            removed == (old(self).connectors().contains_key(host_id) && old(self).connectors()[host_id].connector_id == connector_id),
            removed ==> final(self).connectors() == old(self).connectors().remove(host_id),
            !removed ==> final(self).connectors() == old(self).connectors(),
    {
        self.registry.deregister_if_current(host_id, connector_id)
    }

    /// The host-only subscription entry: a caller without an authenticated
    /// host identity is refused `Unauthorized` and nothing changes; an
    /// authenticated host subscribes exactly as
    /// [`SignalBroker::connection_requested`] for its own id.
    pub fn subscribe_as_host(&mut self, auth: &AuthContext) -> (r: Result<
        (u64, Option<Connector>),
        SignalingError,
    >)
        requires
            old(self).wf(),
            old(self).registry.next_id < u64::MAX,
        ensures
            final(self).wf(),
            final(self).waiters() == old(self).waiters(),
            auth.host is None ==> {
                &&& r == Err::<(u64, Option<Connector>), SignalingError>(
                    SignalingError::Unauthorized,
                )
                &&& final(self).connectors() == old(self).connectors()
                &&& final(self).registry.next_id == old(self).registry.next_id
            },
            auth.host is Some ==> r is Ok,
            r matches Ok(sub) ==> {
                let host_id = auth.host.unwrap()@.id;
                &&& auth.host is Some
                &&& final(self).registry.next_id == old(self).registry.next_id + 1
                &&& sub.0 == old(self).registry.next_id
                &&& final(self).connectors() == old(self).connectors().insert(
                    host_id,
                    (ConnectorData {
                        connector_id: sub.0,
                        host_id,
                        state: ConnectorState::Active,
                        queue: Seq::empty(),
                    }),
                )
                &&& old(self).connectors().contains_key(host_id) ==> (sub.1 matches Some(e) && e@
                    == (ConnectorData {
                    state: ConnectorState::Stopped,
                    ..old(self).connectors()[host_id]
                }))
                &&& !old(self).connectors().contains_key(host_id) ==> sub.1 is None
            },
    {
        match auth.require_host() {
            Ok(host) => Ok(self.connection_requested(host.id())),
            Err(e) => Err(e),
        }
    }

    /// The host-only answer entry: a caller without an authenticated host
    /// identity is refused `Unauthorized` and nothing changes — nothing is
    /// delivered to any waiter. An authenticated host answers exactly as
    /// [`SignalBroker::respond_to_connection_request`] under its own id,
    /// and the call acknowledges whether or not a waiter stood open: an
    /// orphaned answer is not the host's fault.
    pub fn respond_as_host(
        &mut self,
        auth: &AuthContext,
        session_id: &String,
        answer: String,
        ice_candidates: Vec<String>,
    ) -> (r: Result<bool, SignalingError>)
        requires
            old(self).wf(),
        ensures
            final(self).wf(),
            final(self).connectors() == old(self).connectors(),
            final(self).registry.next_id == old(self).registry.next_id,
            auth.host is None ==> r == Err::<bool, SignalingError>(SignalingError::Unauthorized)
                && final(self).waiters() == old(self).waiters(),
            auth.host is Some ==> r is Ok,
            r matches Ok(delivered) ==> {
                let host_id = auth.host.unwrap()@.id;
                &&& auth.host is Some
                &&& delivered == (old(self).waiters().contains_key((host_id, session_id@)) && old(
                    self,
                ).waiters()[(host_id, session_id@)].state is Waiting)
                &&& delivered ==> final(self).waiters() == old(self).waiters().insert(
                    (host_id, session_id@),
                    (PendingEntryData {
                        state: WaiterStateData::Delivered(
                            (ResponseData {
                                answer: answer@,
                                ice_candidates: ice_candidates.deep_view(),
                            }),
                        ),
                        ..old(self).waiters()[(host_id, session_id@)]
                    }),
                )
                &&& !delivered ==> final(self).waiters() == old(self).waiters()
            },
    {
        match auth.require_host() {
            Ok(host) => {
                let host_id = host.id();
                Ok(self.respond_to_connection_request(host_id, session_id, answer, ice_candidates))
            },
            Err(e) => Err(e),
        }
    }
}

impl HostConnection {
    /// The host this connection reached.
    pub fn host(&self) -> (r: &Host)
        ensures
            r@ == self.host@,
    {
        &self.host
    }

    /// Opens this connection's waiter, thirty seconds of patience from
    /// `now`. Run when the client asks for the response — after dispatch,
    /// preserving the documented ordering hazard. Refused when the key is
    /// already live.
    pub fn response_open(&self, broker: &mut SignalBroker, now: u64) -> (opened: bool)
        requires
            old(broker).wf(),
            now <= u64::MAX - crate::pending::RESPONSE_TIMEOUT_SECS,
        ensures
            final(broker).wf(),
            final(broker).connectors() == old(broker).connectors(),
            opened == !old(broker).waiters().contains_key((self.host@.id, self.session_id@)),
            opened ==> final(broker).waiters() == old(broker).waiters().insert(
                (self.host@.id, self.session_id@),
                (PendingEntryData {
                    host_id: self.host@.id,
                    session_id: self.session_id@,
                    deadline: (now + crate::pending::RESPONSE_TIMEOUT_SECS) as u64,
                    state: WaiterStateData::Waiting,
                }),
            ),
            !opened ==> final(broker).waiters() == old(broker).waiters(),
    {
        broker.pending.open(self.host.id, self.session_id.clone(), now)
    }

    /// One poll of this connection's waiter at time `now`: the delivered
    /// answer, a timeout once the deadline has passed, or patience.
    /// Delivery and timeout both release the entry.
    pub fn response_poll(&self, broker: &mut SignalBroker, now: u64) -> (r: PollOutcome)
        requires
            old(broker).wf(),
        ensures
            final(broker).wf(),
            final(broker).connectors() == old(broker).connectors(),
            !old(broker).waiters().contains_key((self.host@.id, self.session_id@)) ==> r is Gone
                && final(broker).waiters() == old(broker).waiters(),
            ({
                let m = old(broker).waiters();
                let k = (self.host@.id, self.session_id@);
                m.contains_key(k) ==> match m[k].state {
                    WaiterStateData::Delivered(resp) => (r matches PollOutcome::Ready(out) && out@
                        == resp) && final(broker).waiters() == m.remove(k),
                    WaiterStateData::Waiting => {
                        if now >= m[k].deadline {
                            r is TimedOut && final(broker).waiters() == m.remove(k)
                        } else {
                            r is Pending && final(broker).waiters() == m
                        }
                    },
                }
            }),
    {
        broker.pending.poll(self.host.id, &self.session_id, now)
    }

    /// Releases this connection's waiter unconditionally: the guaranteed
    /// finalizer run when the awaiting call exits by any path, normal
    /// completion, timeout, caller cancellation or error alike.
    pub fn response_abandon(&self, broker: &mut SignalBroker) -> (removed: bool)
        requires
            old(broker).wf(),
        ensures
            final(broker).wf(),
            final(broker).connectors() == old(broker).connectors(),
            removed == old(broker).waiters().contains_key((self.host@.id, self.session_id@)),
            removed ==> final(broker).waiters() == old(broker).waiters().remove(
                (self.host@.id, self.session_id@),
            ),
            !removed ==> final(broker).waiters() == old(broker).waiters(),
    {
        broker.pending.abandon(self.host.id, &self.session_id)
    }

    /// Whether a successful response should record a user↔host
    /// association: only for a connection opened by an authenticated
    /// caller who is still known. The write itself is an idempotent upsert
    /// delegated to the outside store.
    pub fn should_record_association(&self, user: Option<&User>) -> (r: bool)
        ensures
            r == (self.add_to_host_users && user is Some),
    {
        self.add_to_host_users && user.is_some()
    }
}

/// The empty result object mutations acknowledge with.
#[derive(Clone, Copy, Debug)]
pub struct Void;

impl Void {
    /// The fixed id of the empty result object.
    pub fn id(&self) -> (r: &'static str)
        ensures
            r@ == "VOID"@,
    {
        "VOID"
    }
}

/// Step one of a connect: the slug naming the target host. Exactly one of
/// the two ways must be given: the slug itself, or an invite whose
/// embedded public key the slug is derived from; anything else is an
/// invalid request, and an undecodable invite is an invalid invite.
pub fn resolve_target(host_slug: Option<String>, invite: Option<&String>) -> (r: Result<
    String,
    SignalingError,
>)
    ensures
        host_slug is Some && invite is Some ==> r == Err::<String, SignalingError>(
            SignalingError::InvalidRequest,
        ),
        host_slug is None && invite is None ==> r == Err::<String, SignalingError>(
            SignalingError::InvalidRequest,
        ),
        host_slug matches Some(s) ==> invite is None ==> (r matches Ok(slug) && slug@ == s@),
        invite matches Some(text) ==> host_slug is None ==> (match r {
            Ok(slug) => {
                &&& forall|raw: Seq<u8>| #![trigger spec_decode_invite(raw)]
                    b58_of(raw) == text@ ==> (match spec_decode_invite(raw) {
                        Some(m) => slug@ == invite_slug_of(m),
                        None => false,
                    })
                &&& exists|raw: Seq<u8>|
                    b58_of(raw) == text@ && (#[trigger] spec_decode_invite(raw)) is Some
            },
            Err(e) => e == SignalingError::InvalidInvite && forall|raw: Seq<u8>|
                #![trigger spec_decode_invite(raw)]
                b58_of(raw) == text@ ==> spec_decode_invite(raw) is None,
        }),
{
    match (host_slug, invite) {
        (Some(_), Some(_)) => Err(SignalingError::InvalidRequest),
        (None, None) => Err(SignalingError::InvalidRequest),
        (Some(slug), None) => Ok(slug),
        (None, Some(text)) => {
            match decode_invite_text(text.as_str()) {
                Ok(m) => Ok(b58_encode(m.host_public_key.as_slice())),
                Err(e) => Err(e),
            }
        },
    }
}

} // verus!
