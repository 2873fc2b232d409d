//! The browser session record.
//!
//! Session cookies, their signing and their store belong to the transport
//! layer; the record they carry is plain values and lives here so typed
//! code can hand it through.

use vstd::prelude::*;

verus! {

/// What a session stores for its user.
#[derive(Debug)]
pub struct Data {
    pub user_id: i32,
}

/// The session body kept under the session id.
#[derive(Debug)]
pub struct Sess {
    pub original_max_age: u32,
    pub http_only: bool,
    pub path: String,
    pub csrf_secret: Vec<u8>,
    pub data: Option<Box<Data>>,
}

} // verus!
