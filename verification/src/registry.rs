//! The connector registry: at most one live signaling channel per host.
//!
//! The registry is a host-keyed map of connectors. Registering a connector
//! for a host that already has one atomically swaps the old one out and
//! stops it, so a host re-subscribing (say, from a second browser tab)
//! silently invalidates its first channel. A connector whose consumer died
//! without deregistering stays in the map as a dead entry; lookups treat it
//! as absent, and a late self-deregistration removes an entry only when the
//! registry still points at that exact instance, so a newer registration is
//! never erased by an old connector stopping late.

use vstd::prelude::*;
use crate::connector::{Connector, ConnectorData, ConnectorState};
use crate::signal::Signal;

verus! {

/// No two entries answer for the same host.
pub open spec fn unique_hosts(s: Seq<ConnectorData>) -> bool {
    forall|i: int, j: int| 0 <= i < j < s.len() ==> s[i].host_id != s[j].host_id
}

/// No two entries are the same connector instance.
pub open spec fn unique_ids(s: Seq<ConnectorData>) -> bool {
    forall|i: int, j: int| 0 <= i < j < s.len() ==> s[i].connector_id != s[j].connector_id
}

/// The index of the entry answering for `h`, where one exists.
pub open spec fn host_index_of(s: Seq<ConnectorData>, h: i64) -> int {
    choose|i: int| 0 <= i < s.len() && s[i].host_id == h
}

/// The entries as a host-keyed map.
pub open spec fn seq_to_host_map(s: Seq<ConnectorData>) -> Map<i64, ConnectorData> {
    Map::new(
        |h: i64| exists|i: int| 0 <= i < s.len() && s[i].host_id == h,
        |h: i64| s[host_index_of(s, h)],
    )
}

/// The process-wide registry of per-host connectors.
#[derive(Debug)]
pub struct ConnectorRegistry {
    pub connectors: Vec<Connector>,
    pub next_id: u64,
}

impl ConnectorRegistry {
    /// The registry's entries, mathematically.
    pub open spec fn entries(&self) -> Seq<ConnectorData> {
        self.connectors.deep_view()
    }

    /// The registry as a host-keyed map.
    pub open spec fn as_map(&self) -> Map<i64, ConnectorData> {
        seq_to_host_map(self.entries())
    }

    /// Well-formedness: entries unique per host and per instance, ids all
    /// issued by this registry, and nothing registered before activation.
    pub open spec fn wf(&self) -> bool {
        &&& unique_hosts(self.entries())
        &&& unique_ids(self.entries())
        &&& forall|i: int|
            0 <= i < self.entries().len() ==> (#[trigger] self.entries()[i]).connector_id
                < self.next_id
        &&& forall|i: int|
            0 <= i < self.entries().len() ==> !((#[trigger] self.entries()[i]).state is Created)
    }

    /// Whether `host_id` has a connector that still forwards signals.
    pub open spec fn has_live(&self, host_id: i64) -> bool {
        self.as_map().contains_key(host_id) && self.as_map()[host_id].state is Active
    }

    /// An empty registry.
    pub fn new() -> (r: ConnectorRegistry)
        ensures
            r.wf(),
            r.as_map() == Map::<i64, ConnectorData>::empty(),
            r.next_id == 0,
    {
        let r = ConnectorRegistry { connectors: Vec::new(), next_id: 0 };
        proof {
            assert(r.entries() =~= Seq::<ConnectorData>::empty());
            assert(r.as_map() =~= Map::<i64, ConnectorData>::empty());
        }
        r
    }

    /// Issues a fresh connector for `host_id`, in the `Created` state. The
    /// id is new: no present entry carries it, nor ever will another issue.
    pub fn new_connector(&mut self, host_id: i64) -> (c: Connector)
        requires
            old(self).wf(),
            old(self).next_id < u64::MAX,
        ensures
            final(self).wf(),
            final(self).next_id == old(self).next_id + 1,
            final(self).as_map() == old(self).as_map(),
            c@ == (ConnectorData {
                connector_id: old(self).next_id,
                host_id,
                state: ConnectorState::Created,
                queue: Seq::empty(),
            }),
            forall|h: i64|
                final(self).as_map().contains_key(h) ==> (#[trigger] final(self).as_map()[h]).connector_id != c@.connector_id,
    {
        let id = self.next_id;
        self.next_id = self.next_id + 1;
        let c = Connector::new(id, host_id);
        proof {
            assert(self.entries() =~= old(self).entries());
            assert forall|h: i64| self.as_map().contains_key(h) implies (#[trigger] self
                .as_map()[h]).connector_id != c@.connector_id by {
                let i = host_index_of(self.entries(), h);
                assert(0 <= i < self.entries().len() && self.entries()[i].host_id == h);
            }
        }
        c
    }

    /// Finds the entry answering for `host_id`.
    fn find_host(&self, host_id: i64) -> (r: Option<usize>)
        ensures
            r matches Some(i) ==> i < self.entries().len() && self.entries()[i as int].host_id
                == host_id,
            r is None ==> forall|i: int|
                0 <= i < self.entries().len() ==> (#[trigger] self.entries()[i]).host_id != host_id,
    {
        let mut i: usize = 0;
        while i < self.connectors.len()
            invariant
                i <= self.entries().len(),
                self.entries().len() == self.connectors@.len(),
                forall|j: int| 0 <= j < i ==> (#[trigger] self.entries()[j]).host_id != host_id,
            decreases self.connectors@.len() - i,
        {
            if self.connectors[i].host_id == host_id {
                return Some(i);
            }
            i = i + 1;
        }
        None
    }

    /// Registers `c` as its host's connector, activating it. An entry
    /// already answering for that host is swapped out, stopped, and handed
    /// back: it must not keep streaming after eviction.
    pub fn register(&mut self, c: Connector) -> (evicted: Option<Connector>)
        requires
            old(self).wf(),
            c@.state is Created,
            c@.queue.len() == 0,
            c@.connector_id < old(self).next_id,
            forall|h: i64|
                old(self).as_map().contains_key(h) ==> (#[trigger] old(self).as_map()[h]).connector_id != c@.connector_id,
        ensures
            final(self).wf(),
            final(self).next_id == old(self).next_id,
            final(self).as_map() == old(self).as_map().insert(
                c@.host_id,
                (ConnectorData { state: ConnectorState::Active, ..c@ }),
            ),
            old(self).as_map().contains_key(c@.host_id) ==> (evicted matches Some(e) && e@
                == (ConnectorData {
                state: ConnectorState::Stopped,
                ..old(self).as_map()[c@.host_id]
            })),
            !old(self).as_map().contains_key(c@.host_id) ==> evicted is None,
    {
        let mut fresh = c;
        fresh.activate();
        let ghost active = fresh@;
        match self.find_host(fresh.host_id) {
            Some(i) => {
                proof {
                    lemma_host_map_present(old(self).entries(), i as int);
                }
                let mut prev = self.connectors.remove(i);
                prev.stop();
                self.connectors.push(fresh);
                proof {
                    let s0 = old(self).entries();
                    let s2 = self.entries();
                    assert(s2 =~= s0.remove(i as int).push(active));
                    lemma_host_map_swap(s0, i as int, active);
                    assert forall|p: int| 0 <= p < s0.len() implies (#[trigger] s0[p]).connector_id
                        != active.connector_id by {
                        lemma_host_map_present(s0, p);
                    }
                    assert(forall|p: int|
                        0 <= p < s2.len() - 1 ==> s2[p] == (if p < i as int {
                            s0[p]
                        } else {
                            s0[p + 1]
                        }));
                    assert(s2[s2.len() - 1] == active);
                    assert(unique_ids(s2)) by {
                        assert forall|p: int, q: int| 0 <= p < q < s2.len() implies s2[p].connector_id
                            != s2[q].connector_id by {}
                    }
                }
                Some(prev)
            },
            None => {
                proof {
                    lemma_host_map_absent(old(self).entries(), c@.host_id);
                }
                self.connectors.push(fresh);
                proof {
                    let s0 = old(self).entries();
                    let s2 = self.entries();
                    assert(s2 =~= s0.push(active));
                    lemma_host_map_push_new(s0, active);
                    assert forall|p: int| 0 <= p < s0.len() implies (#[trigger] s0[p]).connector_id
                        != active.connector_id by {
                        lemma_host_map_present(s0, p);
                    }
                    assert(unique_ids(s2)) by {
                        assert forall|p: int, q: int| 0 <= p < q < s2.len() implies s2[p].connector_id
                            != s2[q].connector_id by {}
                    }
                }
                None
            },
        }
    }

    /// Returns the connector id answering for `host_id`, live entries only:
    /// an entry whose connector has stopped counts as absent.
    pub fn lookup_live(&self, host_id: i64) -> (r: Option<u64>)
        requires
            self.wf(),
        ensures
            r is Some <==> self.has_live(host_id),
            r matches Some(id) ==> id == self.as_map()[host_id].connector_id,
    {
        match self.find_host(host_id) {
            Some(i) => {
                proof {
                    lemma_host_map_present(self.entries(), i as int);
                }
                if self.connectors[i].is_live() {
                    Some(self.connectors[i].connector_id)
                } else {
                    None
                }
            },
            None => {
                proof {
                    lemma_host_map_absent(self.entries(), host_id);
                }
                None
            },
        }
    }

    /// Appends `signal` to the live connector answering for `host_id`.
    /// `false` — the host is offline — when no entry answers or the entry's
    /// connector has stopped; the registry is then unchanged.
    pub fn dispatch(&mut self, host_id: i64, signal: Signal) -> (accepted: bool)
        requires
            old(self).wf(),
        ensures
            final(self).wf(),
            final(self).next_id == old(self).next_id,
            accepted == old(self).has_live(host_id),
            accepted ==> final(self).as_map() == old(self).as_map().insert(
                host_id,
                (ConnectorData {
                    queue: old(self).as_map()[host_id].queue.push(signal@),
                    ..old(self).as_map()[host_id]
                }),
            ),
            !accepted ==> final(self).as_map() == old(self).as_map(),
    {
        match self.find_host(host_id) {
            Some(i) => {
                proof {
                    lemma_host_map_present(old(self).entries(), i as int);
                }
                let mut entry = self.connectors.remove(i);
                let accepted = entry.send(signal);
                let ghost updated = entry@;
                self.connectors.insert(i, entry);
                proof {
                    let s0 = old(self).entries();
                    assert(self.entries() =~= s0.update(i as int, updated));
                    lemma_host_map_update(s0, i as int, updated);
                    if !accepted {
                        assert(s0.update(i as int, updated) =~= s0);
                        assert(self.as_map() =~= old(self).as_map());
                    }
                }
                accepted
            },
            None => {
                proof {
                    lemma_host_map_absent(old(self).entries(), host_id);
                }
                false
            },
        }
    }

    /// Self-deregistration of a stopping connector: removes the entry for
    /// `host_id` only if the registry still points at that exact instance,
    /// so a late-stopping old connector never erases a newer registration.
    pub fn deregister_if_current(&mut self, host_id: i64, connector_id: u64) -> (removed: bool)
        requires
            old(self).wf(),
        ensures
            final(self).wf(),
            final(self).next_id == old(self).next_id,
            removed == (old(self).as_map().contains_key(host_id) && old(self).as_map()[host_id].connector_id == connector_id),
            removed ==> final(self).as_map() == old(self).as_map().remove(host_id),
            !removed ==> final(self).as_map() == old(self).as_map(),
    {
        match self.find_host(host_id) {
            Some(i) => {
                proof {
                    lemma_host_map_present(old(self).entries(), i as int);
                }
                if self.connectors[i].connector_id == connector_id {
                    let _ = self.connectors.remove(i);
                    proof {
                        let s0 = old(self).entries();
                        assert(self.entries() =~= s0.remove(i as int));
                        lemma_host_map_remove(s0, i as int);
                    }
                    true
                } else {
                    proof {
                        assert(self.entries() =~= old(self).entries());
                    }
                    false
                }
            },
            None => {
                proof {
                    lemma_host_map_absent(old(self).entries(), host_id);
                    assert(self.entries() =~= old(self).entries());
                }
                false
            },
        }
    }

    /// Revokes liveness of the entry for `host_id` if the registry still
    /// points at that exact instance: the consumer abandoned its stream.
    /// The dead entry stays for lazy cleanup; lookups already ignore it.
    pub fn mark_stopped(&mut self, host_id: i64, connector_id: u64) -> (found: bool)
        requires
            old(self).wf(),
        ensures
            final(self).wf(),
            final(self).next_id == old(self).next_id,
            found == (old(self).as_map().contains_key(host_id) && old(self).as_map()[host_id].connector_id == connector_id),
            found ==> final(self).as_map() == old(self).as_map().insert(
                host_id,
                (ConnectorData { state: ConnectorState::Stopped, ..old(self).as_map()[host_id] }),
            ),
            !found ==> final(self).as_map() == old(self).as_map(),
    {
        match self.find_host(host_id) {
            Some(i) => {
                proof {
                    lemma_host_map_present(old(self).entries(), i as int);
                }
                if self.connectors[i].connector_id == connector_id {
                    let mut entry = self.connectors.remove(i);
                    entry.stop();
                    let ghost updated = entry@;
                    self.connectors.insert(i, entry);
                    proof {
                        let s0 = old(self).entries();
                        assert(self.entries() =~= s0.update(i as int, updated));
                        lemma_host_map_update(s0, i as int, updated);
                    }
                    true
                } else {
                    proof {
                        assert(self.entries() =~= old(self).entries());
                    }
                    false
                }
            },
            None => {
                proof {
                    lemma_host_map_absent(old(self).entries(), host_id);
                    assert(self.entries() =~= old(self).entries());
                }
                false
            },
        }
    }

    /// What the stream of the connector `connector_id` reads next for
    /// `host_id`: the oldest queued signal, or `None` when the registry
    /// points elsewhere or nothing is queued. Draining is allowed after a
    /// stop: signals queued before the stop still reach the stream.
    pub fn take_next_signal(&mut self, host_id: i64, connector_id: u64) -> (r: Option<Signal>)
        requires
            old(self).wf(),
        ensures
            final(self).wf(),
            final(self).next_id == old(self).next_id,
            ({
                let m = old(self).as_map();
                if m.contains_key(host_id) && m[host_id].connector_id == connector_id
                    && m[host_id].queue.len() > 0 {
                    &&& r matches Some(s) && s@ == m[host_id].queue[0]
                    &&& final(self).as_map() == m.insert(
                        host_id,
                        (ConnectorData { queue: m[host_id].queue.drop_first(), ..m[host_id] }),
                    )
                } else {
                    r is None && final(self).as_map() == m
                }
            }),
    {
        match self.find_host(host_id) {
            Some(i) => {
                proof {
                    lemma_host_map_present(old(self).entries(), i as int);
                }
                if self.connectors[i].connector_id == connector_id {
                    let mut entry = self.connectors.remove(i);
                    let r = entry.take_next();
                    let ghost updated = entry@;
                    self.connectors.insert(i, entry);
                    proof {
                        let s0 = old(self).entries();
                        assert(self.entries() =~= s0.update(i as int, updated));
                        lemma_host_map_update(s0, i as int, updated);
                        if s0[i as int].queue.len() == 0 {
                            assert(s0.update(i as int, updated) =~= s0);
                            assert(self.as_map() =~= old(self).as_map());
                        }
                    }
                    r
                } else {
                    proof {
                        assert(self.entries() =~= old(self).entries());
                    }
                    None
                }
            },
            None => {
                proof {
                    lemma_host_map_absent(old(self).entries(), host_id);
                    assert(self.entries() =~= old(self).entries());
                }
                None
            },
        }
    }
}

/// Law: for any host id, at most one connector is active through the
/// registry at any instant — two active entries for one host coincide.
pub proof fn lemma_at_most_one_active_per_host(r: ConnectorRegistry, i: int, j: int)
    requires
        r.wf(),
        0 <= i < r.entries().len(),
        0 <= j < r.entries().len(),
        r.entries()[i].host_id == r.entries()[j].host_id,
        r.entries()[i].state is Active,
        r.entries()[j].state is Active,
    ensures
        i == j,
{
}

/// An entry present at index `i` is what the host map answers for its host.
proof fn lemma_host_map_present(s: Seq<ConnectorData>, i: int)
    requires
        unique_hosts(s),
        0 <= i < s.len(),
    ensures
        seq_to_host_map(s).contains_key(s[i].host_id),
        seq_to_host_map(s)[s[i].host_id] == s[i],
{
    let h = s[i].host_id;
    assert(0 <= i < s.len() && s[i].host_id == h);
    let j = host_index_of(s, h);
    assert(0 <= j < s.len() && s[j].host_id == h);
    assert(j == i);
}

/// A host no entry answers for is not in the host map.
proof fn lemma_host_map_absent(s: Seq<ConnectorData>, h: i64)
    requires
        forall|i: int| 0 <= i < s.len() ==> (#[trigger] s[i]).host_id != h,
    ensures
        !seq_to_host_map(s).contains_key(h),
{
}

/// Replacing the entry at `i` by one for the same host updates the map at
/// that host alone.
proof fn lemma_host_map_update(s: Seq<ConnectorData>, i: int, c: ConnectorData)
    requires
        unique_hosts(s),
        0 <= i < s.len(),
        s[i].host_id == c.host_id,
    ensures
        unique_hosts(s.update(i, c)),
        seq_to_host_map(s.update(i, c)) == seq_to_host_map(s).insert(c.host_id, c),
{
    let s2 = s.update(i, c);
    assert(unique_hosts(s2)) by {
        assert forall|p: int, q: int| 0 <= p < q < s2.len() implies s2[p].host_id != s2[q].host_id
        by {
            assert(s[p].host_id != s[q].host_id);
        }
    }
    assert(seq_to_host_map(s2) =~= seq_to_host_map(s).insert(c.host_id, c)) by {
        assert forall|h: i64| #[trigger]
            seq_to_host_map(s2).contains_key(h) == seq_to_host_map(s).insert(
                c.host_id,
                c,
            ).contains_key(h) && (seq_to_host_map(s2).contains_key(h)
            ==> seq_to_host_map(s2)[h] == seq_to_host_map(s).insert(c.host_id, c)[h]) by {
            if h == c.host_id {
                lemma_host_map_present(s2, i);
            } else {
                if seq_to_host_map(s).contains_key(h) {
                    let j = host_index_of(s, h);
                    lemma_host_map_present(s, j);
                    assert(s2[j] == s[j]);
                    lemma_host_map_present(s2, j);
                }
                if seq_to_host_map(s2).contains_key(h) {
                    let j = host_index_of(s2, h);
                    lemma_host_map_present(s2, j);
                    assert(s[j] == s2[j]);
                    lemma_host_map_present(s, j);
                }
            }
        }
    }
}

/// Swapping the entry at `i` for a new connector for the same host —
/// remove, then append — updates the map at that host alone.
proof fn lemma_host_map_swap(s: Seq<ConnectorData>, i: int, c: ConnectorData)
    requires
        unique_hosts(s),
        0 <= i < s.len(),
        s[i].host_id == c.host_id,
    ensures
        unique_hosts(s.remove(i).push(c)),
        seq_to_host_map(s.remove(i).push(c)) == seq_to_host_map(s).insert(c.host_id, c),
{
    let s2 = s.remove(i).push(c);
    assert(forall|p: int|
        0 <= p < s2.len() - 1 ==> s2[p] == (if p < i {
            s[p]
        } else {
            s[p + 1]
        }));
    assert(s2[s2.len() - 1] == c);
    assert(unique_hosts(s2)) by {
        assert forall|p: int, q: int| 0 <= p < q < s2.len() implies s2[p].host_id != s2[q].host_id
        by {}
    }
    assert(seq_to_host_map(s2) =~= seq_to_host_map(s).insert(c.host_id, c)) by {
        assert forall|h: i64| #[trigger]
            seq_to_host_map(s2).contains_key(h) == seq_to_host_map(s).insert(
                c.host_id,
                c,
            ).contains_key(h) && (seq_to_host_map(s2).contains_key(h)
            ==> seq_to_host_map(s2)[h] == seq_to_host_map(s).insert(c.host_id, c)[h]) by {
            if h == c.host_id {
                lemma_host_map_present(s2, s2.len() - 1);
            } else {
                if seq_to_host_map(s).contains_key(h) {
                    let j = host_index_of(s, h);
                    lemma_host_map_present(s, j);
                    let j2 = if j < i {
                        j
                    } else {
                        j - 1
                    };
                    assert(s2[j2] == s[j]);
                    lemma_host_map_present(s2, j2);
                }
                if seq_to_host_map(s2).contains_key(h) {
                    let j2 = host_index_of(s2, h);
                    lemma_host_map_present(s2, j2);
                    let j = if j2 < i {
                        j2
                    } else {
                        j2 + 1
                    };
                    assert(s[j] == s2[j2]);
                    lemma_host_map_present(s, j);
                }
            }
        }
    }
}

/// Appending an entry for a host no entry answers for extends the map by
/// that host alone.
proof fn lemma_host_map_push_new(s: Seq<ConnectorData>, c: ConnectorData)
    requires
        unique_hosts(s),
        forall|i: int| 0 <= i < s.len() ==> (#[trigger] s[i]).host_id != c.host_id,
    ensures
        unique_hosts(s.push(c)),
        seq_to_host_map(s.push(c)) == seq_to_host_map(s).insert(c.host_id, c),
{
    let s2 = s.push(c);
    assert(unique_hosts(s2)) by {
        assert forall|p: int, q: int| 0 <= p < q < s2.len() implies s2[p].host_id != s2[q].host_id
        by {}
    }
    assert(seq_to_host_map(s2) =~= seq_to_host_map(s).insert(c.host_id, c)) by {
        assert forall|h: i64| #[trigger]
            seq_to_host_map(s2).contains_key(h) == seq_to_host_map(s).insert(
                c.host_id,
                c,
            ).contains_key(h) && (seq_to_host_map(s2).contains_key(h)
            ==> seq_to_host_map(s2)[h] == seq_to_host_map(s).insert(c.host_id, c)[h]) by {
            if h == c.host_id {
                lemma_host_map_present(s2, s2.len() - 1);
            } else {
                if seq_to_host_map(s).contains_key(h) {
                    let j = host_index_of(s, h);
                    lemma_host_map_present(s, j);
                    assert(s2[j] == s[j]);
                    lemma_host_map_present(s2, j);
                }
                if seq_to_host_map(s2).contains_key(h) {
                    let j = host_index_of(s2, h);
                    lemma_host_map_present(s2, j);
                    assert(j < s.len() && s[j] == s2[j]);
                    lemma_host_map_present(s, j);
                }
            }
        }
    }
}

/// Removing the entry at `i` removes its host from the map, and no other.
proof fn lemma_host_map_remove(s: Seq<ConnectorData>, i: int)
    requires
        unique_hosts(s),
        0 <= i < s.len(),
    ensures
        unique_hosts(s.remove(i)),
        seq_to_host_map(s.remove(i)) == seq_to_host_map(s).remove(s[i].host_id),
{
    let s2 = s.remove(i);
    assert(forall|p: int|
        0 <= p < s2.len() ==> s2[p] == (if p < i {
            s[p]
        } else {
            s[p + 1]
        }));
    assert(unique_hosts(s2)) by {
        assert forall|p: int, q: int| 0 <= p < q < s2.len() implies s2[p].host_id != s2[q].host_id
        by {}
    }
    assert(seq_to_host_map(s2) =~= seq_to_host_map(s).remove(s[i].host_id)) by {
        assert forall|h: i64| #[trigger]
            seq_to_host_map(s2).contains_key(h) == seq_to_host_map(s).remove(
                s[i].host_id,
            ).contains_key(h) && (seq_to_host_map(s2).contains_key(h)
            ==> seq_to_host_map(s2)[h] == seq_to_host_map(s).remove(s[i].host_id)[h]) by {
            if h != s[i].host_id {
                if seq_to_host_map(s).contains_key(h) {
                    let j = host_index_of(s, h);
                    lemma_host_map_present(s, j);
                    let j2 = if j < i {
                        j
                    } else {
                        j - 1
                    };
                    assert(s2[j2] == s[j]);
                    lemma_host_map_present(s2, j2);
                }
                if seq_to_host_map(s2).contains_key(h) {
                    let j2 = host_index_of(s2, h);
                    lemma_host_map_present(s2, j2);
                    let j = if j2 < i {
                        j2
                    } else {
                        j2 + 1
                    };
                    assert(s[j] == s2[j2]);
                    lemma_host_map_present(s, j);
                }
            } else {
                if seq_to_host_map(s2).contains_key(h) {
                    let j2 = host_index_of(s2, h);
                    lemma_host_map_present(s2, j2);
                    let j = if j2 < i {
                        j2
                    } else {
                        j2 + 1
                    };
                    assert(s[j] == s2[j2]);
                    assert(j != i);
                    assert(false);
                }
            }
        }
    }
}

} // verus!
