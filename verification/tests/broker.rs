//! The brokering core end to end: registry eviction, signal routing,
//! response delivery, timeouts and orphaned answers.

use signaling::auth_context::AuthContext;
use signaling::connector::ConnectorState;
use signaling::errors::SignalingError;
use signaling::host::Host;
use signaling::ice_server::{IceServer, dev_twillio_mock};
use signaling::pending::PollOutcome;
use signaling::protocol::SignalBroker;
use signaling::signal::Requester;
use signaling::user::User;

fn host(id: i64) -> Host {
    Host {
        id,
        created_at: 0,
        updated_at: 0,
        identity_public_key: format!("key-{}", id),
        slug: format!("slug-{}", id),
    }
}

fn requester(user_id: i64) -> Requester {
    Requester { user_id, email: Some(String::from("a@example.com")), email_verified: true }
}

fn ice() -> Vec<IceServer> {
    dev_twillio_mock()
}

#[test]
fn scenario_connect_and_answer() {
    let mut broker = SignalBroker::new();
    let (c1, evicted) = broker.connection_requested(1);
    assert!(evicted.is_none());

    let hc = broker
        .connect_to_host(host(1), Some(requester(7)), None, String::from("offerA"), &ice())
        .unwrap();
    assert_eq!(hc.session_id.len(), 21);
    assert!(hc.add_to_host_users);

    // the host's stream receives the signal for this session
    let signal = broker.take_next_signal(1, c1).unwrap();
    assert_eq!(signal.session_id, hc.session_id);
    assert_eq!(signal.offer, "offerA");
    assert_eq!(signal.requester.as_ref().unwrap().user_id, 7);
    assert_eq!(signal.ice_servers.len(), 2);
    assert!(broker.take_next_signal(1, c1).is_none());

    // the client awaits; the host answers within the window
    assert!(hc.response_open(&mut broker, 100));
    let delivered = broker.respond_to_connection_request(
        1,
        &hc.session_id,
        String::from("answerA"),
        vec![String::from("candidate-1")],
    );
    assert!(delivered);
    match hc.response_poll(&mut broker, 105) {
        PollOutcome::Ready(response) => {
            assert_eq!(response.answer, "answerA");
            assert_eq!(response.ice_candidates, vec![String::from("candidate-1")]);
        },
        other => panic!("expected the delivered answer, got {:?}", other),
    }
    // delivered exactly once: the entry is gone
    assert!(matches!(hc.response_poll(&mut broker, 106), PollOutcome::Gone));
    assert_eq!(broker.pending.count(), 0);
}

#[test]
fn scenario_resubscribe_evicts_first_connector() {
    let mut broker = SignalBroker::new();
    let (c1, _) = broker.connection_requested(1);
    let (c2, evicted) = broker.connection_requested(1);
    assert_ne!(c1, c2);

    // the first connector came back stopped: it must not keep streaming
    let mut old = evicted.unwrap();
    assert_eq!(old.connector_id, c1);
    assert!(matches!(old.state, ConnectorState::Stopped));

    let hc = broker
        .connect_to_host(host(1), None, None, String::from("offerB"), &ice())
        .unwrap();
    assert!(!hc.add_to_host_users);

    // only the new connector receives the signal
    let signal = broker.take_next_signal(1, c2).unwrap();
    assert_eq!(signal.offer, "offerB");
    assert!(signal.requester.is_none());
    assert!(old.take_next().is_none());
    assert!(broker.take_next_signal(1, c1).is_none());
}

#[test]
fn scenario_offline_host_fails_fast() {
    let mut broker = SignalBroker::new();
    let r = broker.connect_to_host(host(5), None, None, String::from("offer"), &ice());
    match r {
        Err(e) => assert_eq!(e, SignalingError::HostOffline),
        Ok(_) => panic!("a host that never subscribed must be offline"),
    }
    // no pending entry was created
    assert_eq!(broker.pending.count(), 0);

    // a dead entry counts as offline too: the consumer abandoned its stream
    let (c1, _) = broker.connection_requested(6);
    assert!(broker.registry.mark_stopped(6, c1));
    let r = broker.connect_to_host(host(6), None, None, String::from("offer"), &ice());
    assert!(matches!(r, Err(SignalingError::HostOffline)));
}

#[test]
fn lookup_sees_only_live_connectors() {
    let mut broker = SignalBroker::new();
    assert!(broker.registry.lookup_live(1).is_none());
    let (c1, _) = broker.connection_requested(1);
    assert_eq!(broker.registry.lookup_live(1), Some(c1));
    // a dead entry is treated as absent, even before lazy cleanup
    assert!(broker.registry.mark_stopped(1, c1));
    assert!(broker.registry.lookup_live(1).is_none());
}

#[test]
fn scenario_orphaned_answer_is_acknowledged() {
    let mut broker = SignalBroker::new();
    let delivered = broker.respond_to_connection_request(
        1,
        &String::from("nobody-waits-here"),
        String::from("answer"),
        Vec::new(),
    );
    // no waiter: reported as an orphan, not an error, and nothing changed
    assert!(!delivered);
    assert_eq!(broker.pending.count(), 0);
}

#[test]
fn second_answer_for_a_session_is_refused() {
    let mut broker = SignalBroker::new();
    let (_c1, _) = broker.connection_requested(1);
    let hc = broker
        .connect_to_host(host(1), None, None, String::from("offer"), &ice())
        .unwrap();
    assert!(hc.response_open(&mut broker, 0));
    assert!(broker.respond_to_connection_request(1, &hc.session_id, String::from("first"), Vec::new()));
    assert!(!broker.respond_to_connection_request(1, &hc.session_id, String::from("second"), Vec::new()));
    // the first answer is the one delivered
    match hc.response_poll(&mut broker, 1) {
        PollOutcome::Ready(response) => assert_eq!(response.answer, "first"),
        other => panic!("expected the first answer, got {:?}", other),
    }
}

#[test]
fn waiter_times_out_and_key_is_reusable() {
    let mut broker = SignalBroker::new();
    let (_c1, _) = broker.connection_requested(1);
    let hc = broker
        .connect_to_host(host(1), None, None, String::from("offer"), &ice())
        .unwrap();

    assert!(hc.response_open(&mut broker, 1000));
    // within the window: patience
    assert!(matches!(hc.response_poll(&mut broker, 1029), PollOutcome::Pending));
    // at the deadline: timeout, and the entry is gone
    assert!(matches!(hc.response_poll(&mut broker, 1030), PollOutcome::TimedOut));
    assert_eq!(broker.pending.count(), 0);

    // an answer arriving after the timeout is an orphan
    assert!(!broker.respond_to_connection_request(1, &hc.session_id, String::from("late"), Vec::new()));

    // the same key reused later sees no stale state
    assert!(hc.response_open(&mut broker, 2000));
    assert!(matches!(hc.response_poll(&mut broker, 2001), PollOutcome::Pending));
}

#[test]
fn abandoned_waiter_releases_its_entry() {
    let mut broker = SignalBroker::new();
    let (_c1, _) = broker.connection_requested(1);
    let hc = broker
        .connect_to_host(host(1), None, None, String::from("offer"), &ice())
        .unwrap();

    assert!(hc.response_open(&mut broker, 0));
    assert_eq!(broker.pending.count(), 1);
    // the caller was cancelled: the scope guard releases the entry
    assert!(hc.response_abandon(&mut broker));
    assert_eq!(broker.pending.count(), 0);
    // a fulfil for the released key reports an orphan
    assert!(!broker.respond_to_connection_request(1, &hc.session_id, String::from("x"), Vec::new()));
    assert!(matches!(hc.response_poll(&mut broker, 0), PollOutcome::Gone));
}

#[test]
fn answer_before_the_waiter_opens_is_orphaned_by_design() {
    // the waiter is opened only when the client asks for the response,
    // after dispatch; a host answering in that gap produces an orphan even
    // though the client is about to wait — the documented ordering hazard
    let mut broker = SignalBroker::new();
    let (c1, _) = broker.connection_requested(1);
    let hc = broker
        .connect_to_host(host(1), None, None, String::from("offer"), &ice())
        .unwrap();
    let signal = broker.take_next_signal(1, c1).unwrap();
    let early = broker.respond_to_connection_request(
        1,
        &signal.session_id,
        String::from("too-early"),
        Vec::new(),
    );
    assert!(!early);
    // the client then opens its waiter and, unanswered, times out
    assert!(hc.response_open(&mut broker, 50));
    assert!(matches!(hc.response_poll(&mut broker, 80), PollOutcome::TimedOut));
}

#[test]
fn duplicate_open_is_refused() {
    let mut broker = SignalBroker::new();
    let (_c1, _) = broker.connection_requested(1);
    let hc = broker
        .connect_to_host(host(1), None, None, String::from("offer"), &ice())
        .unwrap();
    assert!(hc.response_open(&mut broker, 0));
    assert!(!hc.response_open(&mut broker, 5));
    assert_eq!(broker.pending.count(), 1);
}

#[test]
fn sessions_are_isolated_per_host_and_session() {
    let mut broker = SignalBroker::new();
    let (ca, _) = broker.connection_requested(1);
    let (cb, _) = broker.connection_requested(2);
    let hca = broker
        .connect_to_host(host(1), None, None, String::from("to-1"), &ice())
        .unwrap();
    let hcb = broker
        .connect_to_host(host(2), None, None, String::from("to-2"), &ice())
        .unwrap();
    assert_ne!(hca.session_id, hcb.session_id);

    assert_eq!(broker.take_next_signal(1, ca).unwrap().offer, "to-1");
    assert_eq!(broker.take_next_signal(2, cb).unwrap().offer, "to-2");

    assert!(hca.response_open(&mut broker, 0));
    assert!(hcb.response_open(&mut broker, 0));
    // host 2 answering host 1's session id is foreign: an orphan
    assert!(!broker.respond_to_connection_request(2, &hca.session_id, String::from("x"), Vec::new()));
    assert!(broker.respond_to_connection_request(1, &hca.session_id, String::from("a"), Vec::new()));
    assert!(broker.respond_to_connection_request(2, &hcb.session_id, String::from("b"), Vec::new()));
}

#[test]
fn host_only_operations_refuse_callers_without_a_host_identity() {
    let mut broker = SignalBroker::new();

    // neither an anonymous caller nor a plain user may subscribe
    let anonymous = AuthContext { user: None, host: None };
    let as_user = AuthContext {
        user: Some(User {
            id: 3,
            created_at: 0,
            updated_at: 0,
            firebase_uid: String::from("uid"),
            email: String::from("a@example.com"),
            email_verified: true,
        }),
        host: None,
    };
    assert!(matches!(
        broker.subscribe_as_host(&anonymous),
        Err(SignalingError::Unauthorized)
    ));
    assert!(matches!(
        broker.subscribe_as_host(&as_user),
        Err(SignalingError::Unauthorized)
    ));
    assert!(broker.registry.connectors.is_empty());

    // nor answer: nothing is delivered to any waiter
    let as_host = AuthContext { user: None, host: Some(host(1)) };
    let sub = broker.subscribe_as_host(&as_host).unwrap();
    let hc = broker
        .connect_to_host(host(1), None, None, String::from("offer"), &ice())
        .unwrap();
    assert!(hc.response_open(&mut broker, 0));
    assert!(matches!(
        broker.respond_as_host(&anonymous, &hc.session_id, String::from("x"), Vec::new()),
        Err(SignalingError::Unauthorized)
    ));
    assert_eq!(broker.pending.count(), 1);
    assert!(matches!(hc.response_poll(&mut broker, 1), PollOutcome::Pending));

    // the authenticated host goes through under its own id
    let delivered = broker
        .respond_as_host(&as_host, &hc.session_id, String::from("a"), Vec::new())
        .unwrap();
    assert!(delivered);
    match hc.response_poll(&mut broker, 2) {
        PollOutcome::Ready(response) => assert_eq!(response.answer, "a"),
        other => panic!("expected the delivered answer, got {:?}", other),
    }

    // a host answering under its identity cannot fulfil another host's key
    let as_other_host = AuthContext { user: None, host: Some(host(2)) };
    let hc2 = broker
        .connect_to_host(host(1), None, None, String::from("offer"), &ice())
        .unwrap();
    assert!(hc2.response_open(&mut broker, 0));
    let foreign = broker
        .respond_as_host(&as_other_host, &hc2.session_id, String::from("x"), Vec::new())
        .unwrap();
    assert!(!foreign);
    assert!(matches!(hc2.response_poll(&mut broker, 1), PollOutcome::Pending));
    let _ = sub;
}

#[test]
fn association_is_recorded_only_for_authenticated_callers() {
    let mut broker = SignalBroker::new();
    let (_c1, _) = broker.connection_requested(1);
    let authed = broker
        .connect_to_host(host(1), Some(requester(3)), None, String::from("o"), &ice())
        .unwrap();
    let anon = broker
        .connect_to_host(host(1), None, None, String::from("o"), &ice())
        .unwrap();
    let user = User {
        id: 3,
        created_at: 0,
        updated_at: 0,
        firebase_uid: String::from("uid"),
        email: String::from("a@example.com"),
        email_verified: true,
    };
    assert!(authed.should_record_association(Some(&user)));
    assert!(!authed.should_record_association(None));
    assert!(!anon.should_record_association(Some(&user)));
}

#[test]
fn late_deregistration_respects_identity() {
    let mut broker = SignalBroker::new();
    let (c1, _) = broker.connection_requested(1);
    let (c2, _) = broker.connection_requested(1);
    // the evicted connector stops late and tries to deregister: refused,
    // the registry points at the newer one
    assert!(!broker.end_subscription(1, c1));
    let hc = broker
        .connect_to_host(host(1), None, None, String::from("offer"), &ice())
        .unwrap();
    assert_eq!(broker.take_next_signal(1, c2).unwrap().session_id, hc.session_id);
    // the current connector may deregister itself
    assert!(broker.end_subscription(1, c2));
    let r = broker.connect_to_host(host(1), None, None, String::from("offer"), &ice());
    assert!(matches!(r, Err(SignalingError::HostOffline)));
}
