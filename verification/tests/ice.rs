//! The ICE snapshot: the development fallback list, the source choice,
//! and by-value copying at dispatch time.

use signaling::ice_server::{IceServer, dev_twillio_mock, use_dev_mock, copy_ice_snapshot};

#[test]
fn dev_mock_lists_the_two_public_stun_servers() {
    let servers = dev_twillio_mock();
    assert_eq!(servers.len(), 2);
    assert_eq!(servers[0].urls, vec![String::from("stun:stun.l.google.com:19302")]);
    assert_eq!(
        servers[1].urls,
        vec![String::from("stun:global.stun.twilio.com:3478?transport=udp")]
    );
    for s in &servers {
        assert!(s.url.is_none());
        assert!(s.username.is_none());
        assert!(s.credential.is_none());
    }
}

#[test]
fn dev_mock_is_used_only_in_development_without_an_account() {
    assert!(use_dev_mock(&String::from("development"), false));
    assert!(!use_dev_mock(&String::from("development"), true));
    assert!(!use_dev_mock(&String::from("production"), false));
    assert!(!use_dev_mock(&String::from(""), false));
}

#[test]
fn snapshots_are_copied_by_value() {
    let source = vec![
        IceServer {
            url: Some(String::from("turn:relay.example")),
            urls: vec![String::from("turn:relay.example?transport=udp")],
            username: Some(String::from("u")),
            credential: Some(String::from("c")),
        },
        IceServer { url: None, urls: Vec::new(), username: None, credential: None },
    ];
    let copy = copy_ice_snapshot(&source);
    assert_eq!(copy.len(), source.len());
    for (a, b) in copy.iter().zip(source.iter()) {
        assert_eq!(a.url, b.url);
        assert_eq!(a.urls, b.urls);
        assert_eq!(a.username, b.username);
        assert_eq!(a.credential, b.credential);
    }
    let one = source[0].copied();
    assert_eq!(one.url, source[0].url);
    assert_eq!(one.urls, source[0].urls);
}
