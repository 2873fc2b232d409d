//! The pending-response table: one waiter per in-flight connect attempt.
//!
//! A client that dispatched an offer waits for the host's answer under the
//! key (host id, session id). The host's answer is delivered through the
//! same key at most once; an answer for a key nobody waits on — the host
//! answered after the timeout, or answered a foreign session — is reported
//! as an orphan (`false`), never as an error. A waiter unfulfilled thirty
//! seconds after opening resolves to a timeout, and its entry is removed on
//! every exit path: delivery, timeout and abandonment alike, so a key is
//! never left dangling and can be reused by a later attempt.

use vstd::prelude::*;

verus! {

/// How long a waiter stands before it resolves to a timeout, in seconds.
pub const RESPONSE_TIMEOUT_SECS: u64 = 30;

/// The host's answer to one connection request.
#[derive(Debug)]
pub struct HostConnectionResponse {
    /// The answer payload, opaque to the broker.
    pub answer: String,
    /// ICE candidates the host gathered, each opaque.
    pub ice_candidates: Vec<String>,
}

/// What a [`HostConnectionResponse`] holds, mathematically.
#[verifier::ext_equal]
pub struct ResponseData {
    pub answer: Seq<char>,
    pub ice_candidates: Seq<Seq<char>>,
}

impl View for HostConnectionResponse {
    type V = ResponseData;

    open spec fn view(&self) -> ResponseData {
        ResponseData {
            answer: self.answer@,
            ice_candidates: self.ice_candidates.deep_view(),
        }
    }
}

impl DeepView for HostConnectionResponse {
    type V = ResponseData;

    open spec fn deep_view(&self) -> ResponseData {
        self.view()
    }
}

/// A waiter's slot: still waiting, or holding the answer in flight to it.
#[derive(Debug)]
pub enum WaiterState {
    Waiting,
    Delivered(HostConnectionResponse),
}

/// What a [`WaiterState`] holds, mathematically.
#[verifier::ext_equal]
pub enum WaiterStateData {
    Waiting,
    Delivered(ResponseData),
}

impl View for WaiterState {
    type V = WaiterStateData;

    open spec fn view(&self) -> WaiterStateData {
        match self {
            WaiterState::Waiting => WaiterStateData::Waiting,
            WaiterState::Delivered(r) => WaiterStateData::Delivered(r@),
        }
    }
}

/// One table entry: a keyed one-shot slot with its deadline.
#[derive(Debug)]
pub struct PendingEntry {
    pub host_id: i64,
    pub session_id: String,
    pub deadline: u64,
    pub state: WaiterState,
}

/// What a [`PendingEntry`] holds, mathematically.
#[verifier::ext_equal]
pub struct PendingEntryData {
    pub host_id: i64,
    pub session_id: Seq<char>,
    pub deadline: u64,
    pub state: WaiterStateData,
}

impl View for PendingEntry {
    type V = PendingEntryData;

    open spec fn view(&self) -> PendingEntryData {
        PendingEntryData {
            host_id: self.host_id,
            session_id: self.session_id@,
            deadline: self.deadline,
            state: self.state@,
        }
    }
}

impl DeepView for PendingEntry {
    type V = PendingEntryData;

    open spec fn deep_view(&self) -> PendingEntryData {
        self.view()
    }
}

/// What one poll of a waiter observes.
#[derive(Debug)]
pub enum PollOutcome {
    /// The host's answer arrived; the entry is released.
    Ready(HostConnectionResponse),
    /// The deadline passed unanswered; the entry is released.
    TimedOut,
    /// Still within the deadline, no answer yet; the entry stands.
    Pending,
    /// No such waiter: it was already resolved or abandoned.
    Gone,
}

/// No two entries share a (host, session) key.
pub open spec fn unique_keys(s: Seq<PendingEntryData>) -> bool {
    forall|i: int, j: int|
        0 <= i < j < s.len() ==> !(s[i].host_id == s[j].host_id && s[i].session_id
            == s[j].session_id)
}

/// The index of the entry keyed (h, sid), where one exists.
pub open spec fn key_index_of(s: Seq<PendingEntryData>, h: i64, sid: Seq<char>) -> int {
    choose|i: int| 0 <= i < s.len() && s[i].host_id == h && s[i].session_id == sid
}

/// The entries as a key-indexed map.
pub open spec fn seq_to_key_map(s: Seq<PendingEntryData>) -> Map<(i64, Seq<char>), PendingEntryData> {
    Map::new(
        |k: (i64, Seq<char>)| exists|i: int|
            0 <= i < s.len() && s[i].host_id == k.0 && s[i].session_id == k.1,
        |k: (i64, Seq<char>)| s[key_index_of(s, k.0, k.1)],
    )
}

/// The process-wide table of pending response waiters.
#[derive(Debug)]
pub struct PendingResponseTable {
    pub entries: Vec<PendingEntry>,
}

impl PendingResponseTable {
    /// The table's entries, mathematically.
    pub open spec fn entries_data(&self) -> Seq<PendingEntryData> {
        self.entries.deep_view()
    }

    /// The table as a key-indexed map.
    pub open spec fn as_map(&self) -> Map<(i64, Seq<char>), PendingEntryData> {
        seq_to_key_map(self.entries_data())
    }

    /// Well-formedness: at most one entry per (host, session) key.
    pub open spec fn wf(&self) -> bool {
        unique_keys(self.entries_data())
    }

    /// An empty table.
    pub fn new() -> (r: PendingResponseTable)
        ensures
            r.wf(),
            r.as_map() == Map::<(i64, Seq<char>), PendingEntryData>::empty(),
    {
        let r = PendingResponseTable { entries: Vec::new() };
        proof {
            assert(r.entries_data() =~= Seq::<PendingEntryData>::empty());
            assert(r.as_map() =~= Map::<(i64, Seq<char>), PendingEntryData>::empty());
        }
        r
    }

    /// How many waiters stand in the table.
    pub fn count(&self) -> (r: usize)
        ensures
            r == self.entries_data().len(),
    {
        self.entries.len()
    }

    /// Finds the entry keyed (host_id, session_id).
    fn find_key(&self, host_id: i64, session_id: &String) -> (r: Option<usize>)
        ensures
            r matches Some(i) ==> i < self.entries_data().len()
                && self.entries_data()[i as int].host_id == host_id
                && self.entries_data()[i as int].session_id == session_id@,
            r is None ==> forall|i: int|
                0 <= i < self.entries_data().len() ==> !((#[trigger] self.entries_data()[i]).host_id
                    == host_id && self.entries_data()[i].session_id == session_id@),
    {
        let mut i: usize = 0;
        while i < self.entries.len()
            invariant
                i <= self.entries_data().len(),
                self.entries_data().len() == self.entries@.len(),
                forall|j: int|
                    0 <= j < i ==> !((#[trigger] self.entries_data()[j]).host_id == host_id
                        && self.entries_data()[j].session_id == session_id@),
            decreases self.entries@.len() - i,
        {
            if self.entries[i].host_id == host_id && self.entries[i].session_id == *session_id {
                return Some(i);
            }
            i = i + 1;
        }
        None
    }

    /// Opens a one-shot waiter for (host_id, session_id) with a deadline
    /// thirty seconds from `now`. Refused — `false`, table untouched — when
    /// the key is already live: a session id is never reused while its
    /// entry stands.
    pub fn open(&mut self, host_id: i64, session_id: String, now: u64) -> (opened: bool)
        requires
            old(self).wf(),
            now <= u64::MAX - RESPONSE_TIMEOUT_SECS,
        ensures
            final(self).wf(),
            opened == !old(self).as_map().contains_key((host_id, session_id@)),
            opened ==> final(self).as_map() == old(self).as_map().insert(
                (host_id, session_id@),
                (PendingEntryData {
                    host_id,
                    session_id: session_id@,
                    deadline: (now + RESPONSE_TIMEOUT_SECS) as u64,
                    state: WaiterStateData::Waiting,
                }),
            ),
            !opened ==> final(self).as_map() == old(self).as_map(),
    {
        match self.find_key(host_id, &session_id) {
            Some(i) => {
                proof {
                    lemma_key_map_present(old(self).entries_data(), i as int);
                    assert(self.entries_data() =~= old(self).entries_data());
                }
                false
            },
            None => {
                proof {
                    lemma_key_map_absent(old(self).entries_data(), host_id, session_id@);
                }
                let entry = PendingEntry {
                    host_id,
                    session_id,
                    deadline: now + RESPONSE_TIMEOUT_SECS,
                    state: WaiterState::Waiting,
                };
                let ghost e = entry@;
                self.entries.push(entry);
                proof {
                    let s0 = old(self).entries_data();
                    assert(self.entries_data() =~= s0.push(e));
                    lemma_key_map_push_new(s0, e);
                }
                true
            },
        }
    }

    /// Delivers `response` to the waiter keyed (host_id, session_id):
    /// `true` exactly when a waiter stood open there, in which case the
    /// slot now holds exactly this response. An absent key or an already
    /// answered one returns `false` — the orphaned-answer case — and
    /// leaves the table untouched; it is not an error.
    pub fn fulfill(
        &mut self,
        host_id: i64,
        session_id: &String,
        response: HostConnectionResponse,
    ) -> (delivered: bool)
        requires
            old(self).wf(),
        ensures
            final(self).wf(),
            delivered == (old(self).as_map().contains_key((host_id, session_id@)) && old(self).as_map()[(host_id, session_id@)].state is Waiting),
            delivered ==> final(self).as_map() == old(self).as_map().insert(
                (host_id, session_id@),
                (PendingEntryData {
                    state: WaiterStateData::Delivered(response@),
                    ..old(self).as_map()[(host_id, session_id@)]
                }),
            ),
            !delivered ==> final(self).as_map() == old(self).as_map(),
    {
        match self.find_key(host_id, session_id) {
            Some(i) => {
                proof {
                    lemma_key_map_present(old(self).entries_data(), i as int);
                }
                let waiting = match &self.entries[i].state {
                    WaiterState::Waiting => true,
                    WaiterState::Delivered(_) => false,
                };
                if waiting {
                    let mut entry = self.entries.remove(i);
                    entry.state = WaiterState::Delivered(response);
                    let ghost updated = entry@;
                    self.entries.insert(i, entry);
                    proof {
                        let s0 = old(self).entries_data();
                        assert(self.entries_data() =~= s0.update(i as int, updated));
                        lemma_key_map_update(s0, i as int, updated);
                    }
                    true
                } else {
                    proof {
                        assert(self.entries_data() =~= old(self).entries_data());
                    }
                    false
                }
            },
            None => {
                proof {
                    lemma_key_map_absent(old(self).entries_data(), host_id, session_id@);
                    assert(self.entries_data() =~= old(self).entries_data());
                }
                false
            },
        }
    }

    /// One poll of the waiter keyed (host_id, session_id) at time `now`.
    /// A delivered answer is collected and its entry released; a waiter
    /// past its deadline resolves to a timeout and its entry is released —
    /// whichever state the entry is in decides, deterministically, so an
    /// answer racing the deadline is either delivered or timed out, never
    /// both and never neither.
    pub fn poll(&mut self, host_id: i64, session_id: &String, now: u64) -> (r: PollOutcome)
        requires
            old(self).wf(),
        ensures
            final(self).wf(),
            !old(self).as_map().contains_key((host_id, session_id@)) ==> r is Gone && final(self).as_map() == old(self).as_map(),
            ({
                let m = old(self).as_map();
                let k = (host_id, session_id@);
                m.contains_key(k) ==> match m[k].state {
                    WaiterStateData::Delivered(resp) => (r matches PollOutcome::Ready(out)
                        && out@ == resp) && final(self).as_map() == m.remove(k),
                    WaiterStateData::Waiting => {
                        if now >= m[k].deadline {
                            r is TimedOut && final(self).as_map() == m.remove(k)
                        } else {
                            r is Pending && final(self).as_map() == m
                        }
                    },
                }
            }),
    {
        match self.find_key(host_id, session_id) {
            Some(i) => {
                proof {
                    lemma_key_map_present(old(self).entries_data(), i as int);
                }
                let delivered = match &self.entries[i].state {
                    WaiterState::Waiting => false,
                    WaiterState::Delivered(_) => true,
                };
                if delivered {
                    let entry = self.entries.remove(i);
                    proof {
                        let s0 = old(self).entries_data();
                        assert(self.entries_data() =~= s0.remove(i as int));
                        lemma_key_map_remove(s0, i as int);
                    }
                    match entry.state {
                        WaiterState::Delivered(resp) => PollOutcome::Ready(resp),
                        WaiterState::Waiting => {
                            proof {
                                assert(false);
                            }
                            PollOutcome::Gone
                        },
                    }
                } else if now >= self.entries[i].deadline {
                    let _ = self.entries.remove(i);
                    proof {
                        let s0 = old(self).entries_data();
                        assert(self.entries_data() =~= s0.remove(i as int));
                        lemma_key_map_remove(s0, i as int);
                    }
                    PollOutcome::TimedOut
                } else {
                    proof {
                        assert(self.entries_data() =~= old(self).entries_data());
                    }
                    PollOutcome::Pending
                }
            },
            None => {
                proof {
                    lemma_key_map_absent(old(self).entries_data(), host_id, session_id@);
                    assert(self.entries_data() =~= old(self).entries_data());
                }
                PollOutcome::Gone
            },
        }
    }

    /// Releases the waiter keyed (host_id, session_id) unconditionally:
    /// the guaranteed finalizer run when the awaiting call exits by any
    /// path — completion, timeout, caller cancellation or error. Releasing
    /// an already absent key changes nothing.
    pub fn abandon(&mut self, host_id: i64, session_id: &String) -> (removed: bool)
        requires
            old(self).wf(),
        ensures
            final(self).wf(),
            removed == old(self).as_map().contains_key((host_id, session_id@)),
            removed ==> final(self).as_map() == old(self).as_map().remove((host_id, session_id@)),
            !removed ==> final(self).as_map() == old(self).as_map(),
    {
        match self.find_key(host_id, session_id) {
            Some(i) => {
                proof {
                    lemma_key_map_present(old(self).entries_data(), i as int);
                }
                let _ = self.entries.remove(i);
                proof {
                    let s0 = old(self).entries_data();
                    assert(self.entries_data() =~= s0.remove(i as int));
                    lemma_key_map_remove(s0, i as int);
                }
                true
            },
            None => {
                proof {
                    lemma_key_map_absent(old(self).entries_data(), host_id, session_id@);
                    assert(self.entries_data() =~= old(self).entries_data());
                }
                false
            },
        }
    }
}

/// Law: opening (h, s) and then fulfilling it delivers exactly the
/// fulfilled response into the slot, and a second fulfilment of the same
/// key is refused — the slot is no longer waiting.
pub proof fn lemma_open_then_fulfill_delivers_once(
    t0: PendingResponseTable,
    t1: PendingResponseTable,
    t2: PendingResponseTable,
    host_id: i64,
    session_id: Seq<char>,
    deadline: u64,
    response: ResponseData,
)
    requires
        !t0.as_map().contains_key((host_id, session_id)),
        // what a successful `open` ensures:
        t1.as_map() == t0.as_map().insert(
            (host_id, session_id),
            (PendingEntryData {
                host_id,
                session_id,
                deadline,
                state: WaiterStateData::Waiting,
            }),
        ),
        // what a successful `fulfill` ensures:
        t2.as_map() == t1.as_map().insert(
            (host_id, session_id),
            (PendingEntryData {
                state: WaiterStateData::Delivered(response),
                ..t1.as_map()[(host_id, session_id)]
            }),
        ),
    ensures
        // the fulfilment was owed success: the slot stood waiting,
        t1.as_map()[(host_id, session_id)].state is Waiting,
        // the slot now holds exactly the fulfilled response,
        t2.as_map()[(host_id, session_id)].state == WaiterStateData::Delivered(response),
        // and a second fulfill of the same key finds no waiter and is refused.
        !(t2.as_map()[(host_id, session_id)].state is Waiting),
{
}

/// Law: a waiter resolved by timeout leaves no table entry behind, so the
/// same key, reused by a later open, sees no stale state: the open is
/// accepted and starts from a fresh waiting slot.
pub proof fn lemma_timeout_clears_key(
    t0: PendingResponseTable,
    t1: PendingResponseTable,
    host_id: i64,
    session_id: Seq<char>,
)
    requires
        t0.as_map().contains_key((host_id, session_id)),
        // what a `poll` that timed out (or delivered) ensures:
        t1.as_map() == t0.as_map().remove((host_id, session_id)),
    ensures
        !t1.as_map().contains_key((host_id, session_id)),
{
}

/// An entry present at index `i` is what the key map answers for its key.
proof fn lemma_key_map_present(s: Seq<PendingEntryData>, i: int)
    requires
        unique_keys(s),
        0 <= i < s.len(),
    ensures
        seq_to_key_map(s).contains_key((s[i].host_id, s[i].session_id)),
        seq_to_key_map(s)[(s[i].host_id, s[i].session_id)] == s[i],
{
    let h = s[i].host_id;
    let sid = s[i].session_id;
    assert(0 <= i < s.len() && s[i].host_id == h && s[i].session_id == sid);
    let j = key_index_of(s, h, sid);
    assert(0 <= j < s.len() && s[j].host_id == h && s[j].session_id == sid);
    assert(j == i);
}

/// A key no entry carries is not in the key map.
proof fn lemma_key_map_absent(s: Seq<PendingEntryData>, h: i64, sid: Seq<char>)
    requires
        forall|i: int|
            0 <= i < s.len() ==> !((#[trigger] s[i]).host_id == h && s[i].session_id == sid),
    ensures
        !seq_to_key_map(s).contains_key((h, sid)),
{
}

/// Replacing the entry at `i` by one with the same key updates the map at
/// that key alone.
proof fn lemma_key_map_update(s: Seq<PendingEntryData>, i: int, e: PendingEntryData)
    requires
        unique_keys(s),
        0 <= i < s.len(),
        s[i].host_id == e.host_id,
        s[i].session_id == e.session_id,
    ensures
        unique_keys(s.update(i, e)),
        seq_to_key_map(s.update(i, e)) == seq_to_key_map(s).insert((e.host_id, e.session_id), e),
{
    let s2 = s.update(i, e);
    assert(unique_keys(s2)) by {
        assert forall|p: int, q: int| 0 <= p < q < s2.len() implies !(s2[p].host_id == s2[q].host_id
            && s2[p].session_id == s2[q].session_id) by {
            assert(!(s[p].host_id == s[q].host_id && s[p].session_id == s[q].session_id));
        }
    }
    assert(seq_to_key_map(s2) =~= seq_to_key_map(s).insert((e.host_id, e.session_id), e)) by {
        assert forall|k: (i64, Seq<char>)| #[trigger]
            seq_to_key_map(s2).contains_key(k) == seq_to_key_map(s).insert(
                (e.host_id, e.session_id),
                e,
            ).contains_key(k) && (seq_to_key_map(s2).contains_key(k) ==> seq_to_key_map(s2)[k]
            == seq_to_key_map(s).insert((e.host_id, e.session_id), e)[k]) by {
            if k.0 == e.host_id && k.1 == e.session_id {
                lemma_key_map_present(s2, i);
            } else {
                if seq_to_key_map(s).contains_key(k) {
                    let j = key_index_of(s, k.0, k.1);
                    lemma_key_map_present(s, j);
                    assert(s2[j] == s[j]);
                    lemma_key_map_present(s2, j);
                }
                if seq_to_key_map(s2).contains_key(k) {
                    let j = key_index_of(s2, k.0, k.1);
                    lemma_key_map_present(s2, j);
                    assert(s[j] == s2[j]);
                    lemma_key_map_present(s, j);
                }
            }
        }
    }
}

/// Appending an entry under a key no entry carries extends the map by that
/// key alone.
proof fn lemma_key_map_push_new(s: Seq<PendingEntryData>, e: PendingEntryData)
    requires
        unique_keys(s),
        forall|i: int|
            0 <= i < s.len() ==> !((#[trigger] s[i]).host_id == e.host_id && s[i].session_id
                == e.session_id),
    ensures
        unique_keys(s.push(e)),
        seq_to_key_map(s.push(e)) == seq_to_key_map(s).insert((e.host_id, e.session_id), e),
{
    let s2 = s.push(e);
    assert(unique_keys(s2)) by {
        assert forall|p: int, q: int| 0 <= p < q < s2.len() implies !(s2[p].host_id == s2[q].host_id
            && s2[p].session_id == s2[q].session_id) by {}
    }
    assert(seq_to_key_map(s2) =~= seq_to_key_map(s).insert((e.host_id, e.session_id), e)) by {
        assert forall|k: (i64, Seq<char>)| #[trigger]
            seq_to_key_map(s2).contains_key(k) == seq_to_key_map(s).insert(
                (e.host_id, e.session_id),
                e,
            ).contains_key(k) && (seq_to_key_map(s2).contains_key(k) ==> seq_to_key_map(s2)[k]
            == seq_to_key_map(s).insert((e.host_id, e.session_id), e)[k]) by {
            if k.0 == e.host_id && k.1 == e.session_id {
                lemma_key_map_present(s2, s2.len() - 1);
            } else {
                if seq_to_key_map(s).contains_key(k) {
                    let j = key_index_of(s, k.0, k.1);
                    lemma_key_map_present(s, j);
                    assert(s2[j] == s[j]);
                    lemma_key_map_present(s2, j);
                }
                if seq_to_key_map(s2).contains_key(k) {
                    let j = key_index_of(s2, k.0, k.1);
                    lemma_key_map_present(s2, j);
                    assert(j < s.len() && s[j] == s2[j]);
                    lemma_key_map_present(s, j);
                }
            }
        }
    }
}

/// Removing the entry at `i` removes its key from the map, and no other.
proof fn lemma_key_map_remove(s: Seq<PendingEntryData>, i: int)
    requires
        unique_keys(s),
        0 <= i < s.len(),
    ensures
        unique_keys(s.remove(i)),
        seq_to_key_map(s.remove(i)) == seq_to_key_map(s).remove((s[i].host_id, s[i].session_id)),
{
    let s2 = s.remove(i);
    let key = (s[i].host_id, s[i].session_id);
    assert(forall|p: int|
        0 <= p < s2.len() ==> s2[p] == (if p < i {
            s[p]
        } else {
            s[p + 1]
        }));
    assert(unique_keys(s2)) by {
        assert forall|p: int, q: int| 0 <= p < q < s2.len() implies !(s2[p].host_id == s2[q].host_id
            && s2[p].session_id == s2[q].session_id) by {}
    }
    assert(seq_to_key_map(s2) =~= seq_to_key_map(s).remove(key)) by {
        assert forall|k: (i64, Seq<char>)| #[trigger]
            seq_to_key_map(s2).contains_key(k) == seq_to_key_map(s).remove(key).contains_key(k) && (
            seq_to_key_map(s2).contains_key(k) ==> seq_to_key_map(s2)[k] == seq_to_key_map(
                s,
            ).remove(key)[k]) by {
            if !(k.0 == s[i].host_id && k.1 == s[i].session_id) {
                if seq_to_key_map(s).contains_key(k) {
                    let j = key_index_of(s, k.0, k.1);
                    lemma_key_map_present(s, j);
                    let j2 = if j < i {
                        j
                    } else {
                        j - 1
                    };
                    assert(s2[j2] == s[j]);
                    lemma_key_map_present(s2, j2);
                }
                if seq_to_key_map(s2).contains_key(k) {
                    let j2 = key_index_of(s2, k.0, k.1);
                    lemma_key_map_present(s2, j2);
                    let j = if j2 < i {
                        j2
                    } else {
                        j2 + 1
                    };
                    assert(s[j] == s2[j2]);
                    lemma_key_map_present(s, j);
                }
            } else {
                if seq_to_key_map(s2).contains_key(k) {
                    let j2 = key_index_of(s2, k.0, k.1);
                    lemma_key_map_present(s2, j2);
                    let j = if j2 < i {
                        j2
                    } else {
                        j2 + 1
                    };
                    assert(s[j] == s2[j2]);
                    assert(j != i);
                    assert(false);
                }
            }
        }
    }
}

} // verus!
