//! The ICE relay-server snapshot.
//!
//! A process-wide list of relay servers is refreshed by an outside task
//! roughly hourly; the broker only ever reads it, copying it by value into
//! each dispatched signal. Fetching the list is transport work and stays
//! outside; the development fallback list and the choice between the two
//! sources are plain values and live here.

use vstd::prelude::*;
use vstd::string::StringExecFns;

verus! {

/// One relay (STUN or TURN) server a client may use.
#[derive(Debug)]
pub struct IceServer {
    pub url: Option<String>,
    pub urls: Vec<String>,
    pub username: Option<String>,
    pub credential: Option<String>,
}

/// What an [`IceServer`] holds, mathematically.
#[verifier::ext_equal]
pub struct IceData {
    pub url: Option<Seq<char>>,
    pub urls: Seq<Seq<char>>,
    pub username: Option<Seq<char>>,
    pub credential: Option<Seq<char>>,
}

impl View for IceServer {
    type V = IceData;

    open spec fn view(&self) -> IceData {
        IceData {
            url: self.url.deep_view(),
            urls: self.urls.deep_view(),
            username: self.username.deep_view(),
            credential: self.credential.deep_view(),
        }
    }
}

impl DeepView for IceServer {
    type V = IceData;

    open spec fn deep_view(&self) -> IceData {
        self.view()
    }
}

/// Copies an optional string, value for value.
fn clone_opt_string(o: &Option<String>) -> (r: Option<String>)
    ensures
        r.deep_view() == o.deep_view(),
{
    match o {
        None => None,
        Some(s) => Some(s.clone()),
    }
}

/// Copies a list of strings, value for value.
fn clone_string_vec(v: &Vec<String>) -> (r: Vec<String>)
    ensures
        r.deep_view() == v.deep_view(),
{
    let mut out: Vec<String> = Vec::new();
    let mut i: usize = 0;
    while i < v.len()
        invariant
            i <= v@.len(),
            out.deep_view() =~= v.deep_view().take(i as int),
        decreases v@.len() - i,
    {
        let ghost pre = out.deep_view();
        out.push(v[i].clone());
        proof {
            assert(out.deep_view() =~= pre.push(v.deep_view()[i as int]));
            assert(pre.push(v.deep_view()[i as int]) =~= v.deep_view().take(i as int + 1));
        }
        i = i + 1;
    }
    assert(v.deep_view().take(v@.len() as int) =~= v.deep_view());
    out
}

impl IceServer {
    /// An exact copy of this server's record.
    pub fn copied(&self) -> (r: IceServer)
        ensures
            r@ == self@,
    {
        let r = IceServer {
            url: clone_opt_string(&self.url),
            urls: clone_string_vec(&self.urls),
            username: clone_opt_string(&self.username),
            credential: clone_opt_string(&self.credential),
        };
        assert(r@ =~= self@);
        r
    }
}

/// Copies the current snapshot by value, as every dispatch must.
pub fn copy_ice_snapshot(v: &Vec<IceServer>) -> (r: Vec<IceServer>)
    ensures
        r.deep_view() == v.deep_view(),
{
    let mut out: Vec<IceServer> = Vec::new();
    let mut i: usize = 0;
    while i < v.len()
        invariant
            i <= v@.len(),
            out.deep_view() =~= v.deep_view().take(i as int),
        decreases v@.len() - i,
    {
        let ghost pre = out.deep_view();
        out.push(v[i].copied());
        proof {
            assert(out.deep_view() =~= pre.push(v.deep_view()[i as int]));
            assert(pre.push(v.deep_view()[i as int]) =~= v.deep_view().take(i as int + 1));
        }
        i = i + 1;
    }
    assert(v.deep_view().take(v@.len() as int) =~= v.deep_view());
    out
}

/// The first development fallback relay: a public STUN server.
pub open spec fn dev_stun_primary() -> IceData {
    IceData {
        url: None,
        urls: seq!["stun:stun.l.google.com:19302"@],
        username: None,
        credential: None,
    }
}

/// The second development fallback relay.
pub open spec fn dev_stun_secondary() -> IceData {
    IceData {
        url: None,
        urls: seq!["stun:global.stun.twilio.com:3478?transport=udp"@],
        username: None,
        credential: None,
    }
}

/// The relay list used in development when no account for the real relay
/// service is configured: two public STUN servers.
pub fn dev_twillio_mock() -> (r: Vec<IceServer>)
    ensures
        r.deep_view() =~= seq![dev_stun_primary(), dev_stun_secondary()],
{
    let mut first_urls: Vec<String> = Vec::new();
    first_urls.push(String::from_str("stun:stun.l.google.com:19302"));
    let first = IceServer { url: None, urls: first_urls, username: None, credential: None };
    let mut second_urls: Vec<String> = Vec::new();
    second_urls.push(String::from_str("stun:global.stun.twilio.com:3478?transport=udp"));
    let second = IceServer { url: None, urls: second_urls, username: None, credential: None };
    let mut out: Vec<IceServer> = Vec::new();
    out.push(first);
    out.push(second);
    assert(out@[0]@ =~= dev_stun_primary());
    assert(out@[1]@ =~= dev_stun_secondary());
    out
}

/// Whether the development fallback list stands in for the real relay
/// service: only in a development environment with no account configured.
pub fn use_dev_mock(rust_env: &String, has_twilio_sid: bool) -> (r: bool)
    ensures
        r == (rust_env@ == "development"@ && !has_twilio_sid),
{
    let development = String::from_str("development");
    *rust_env == development && !has_twilio_sid
}

} // verus!
