//! The per-host signaling channel.
//!
//! A connector is owned by exactly one host id at a time. It is created
//! when the host subscribes to receive connection requests, becomes active
//! on registration, and stops when it is replaced, when its stream consumer
//! disconnects, or on an explicit stop. `Stopped` is terminal: no
//! transition leaves it, and a stopped connector accepts no further
//! signals. The queue models the outbound half of the message channel to
//! the host's currently subscribed stream; what was queued before the stop
//! may still be drained by that stream.

use vstd::prelude::*;
use crate::signal::{Signal, SignalData};

verus! {

/// The lifecycle of a connector: `Created` → `Active` → `Stopped`.
#[derive(Clone, Copy, Debug, PartialEq, Eq, Structural)]
pub enum ConnectorState {
    Created,
    Active,
    Stopped,
}

/// The stop command the registry sends a connector it evicts.
#[derive(Clone, Copy, Debug)]
pub struct StopHostConnector;

/// One host's addressable signaling channel.
#[derive(Debug)]
pub struct Connector {
    pub connector_id: u64,
    pub host_id: i64,
    pub state: ConnectorState,
    pub queue: Vec<Signal>,
}

/// What a [`Connector`] holds, mathematically.
#[verifier::ext_equal]
pub struct ConnectorData {
    pub connector_id: u64,
    pub host_id: i64,
    pub state: ConnectorState,
    pub queue: Seq<SignalData>,
}

impl View for Connector {
    type V = ConnectorData;

    open spec fn view(&self) -> ConnectorData {
        ConnectorData {
            connector_id: self.connector_id,
            host_id: self.host_id,
            state: self.state,
            queue: self.queue.deep_view(),
        }
    }
}

impl DeepView for Connector {
    type V = ConnectorData;

    open spec fn deep_view(&self) -> ConnectorData {
        self.view()
    }
}

impl Connector {
    /// A fresh connector for `host_id`, not yet registered.
    pub fn new(connector_id: u64, host_id: i64) -> (c: Connector)
        ensures
            c@ == (ConnectorData {
                connector_id,
                host_id,
                state: ConnectorState::Created,
                queue: Seq::empty(),
            }),
    {
        let c = Connector { connector_id, host_id, state: ConnectorState::Created, queue: Vec::new() };
        assert(c@.queue =~= Seq::<SignalData>::empty());
        c
    }

    /// The transition taken on successful subscription.
    pub fn activate(&mut self)
        requires
            old(self)@.state is Created,
        ensures
            final(self)@ == (ConnectorData { state: ConnectorState::Active, ..old(self)@ }),
    {
        self.state = ConnectorState::Active;
    }

    /// Stops this connector; queued signals stay drainable, new sends fail.
    /// Stopping a stopped connector leaves it stopped.
    pub fn stop(&mut self)
        ensures
            final(self)@ == (ConnectorData { state: ConnectorState::Stopped, ..old(self)@ }),
    {
        self.state = ConnectorState::Stopped;
    }

    /// Handles the registry's stop command during eviction.
    pub fn handle(&mut self, _msg: StopHostConnector)
        ensures
            final(self)@ == (ConnectorData { state: ConnectorState::Stopped, ..old(self)@ }),
    {
        self.stop();
    }

    /// Whether this connector still forwards signals.
    pub fn is_live(&self) -> (r: bool)
        ensures
            r == (self@.state is Active),
    {
        match self.state {
            ConnectorState::Active => true,
            _ => false,
        }
    }

    /// Forwards one signal to the subscribed stream. A closed channel
    /// (any state but `Active`) rejects the signal and changes nothing.
    pub fn send(&mut self, signal: Signal) -> (accepted: bool)
        ensures
            accepted == (old(self)@.state is Active),
            accepted ==> final(self)@ == (ConnectorData {
                queue: old(self)@.queue.push(signal@),
                ..old(self)@
            }),
            !accepted ==> final(self)@ == old(self)@,
    {
        match self.state {
            ConnectorState::Active => {
                let ghost q0 = self@.queue;
                self.queue.push(signal);
                assert(self@.queue =~= q0.push(signal@));
                true
            },
            _ => false,
        }
    }

    /// What the host's subscribed stream reads: the oldest queued signal,
    /// in arrival order, or `None` when the queue is empty.
    pub fn take_next(&mut self) -> (r: Option<Signal>)
        ensures
            old(self)@.queue.len() == 0 ==> r is None && final(self)@ == old(self)@,
            old(self)@.queue.len() > 0 ==> {
                &&& r matches Some(s) && s@ == old(self)@.queue[0]
                &&& final(self)@ == (ConnectorData {
                    queue: old(self)@.queue.drop_first(),
                    ..old(self)@
                })
            },
    {
        if self.queue.len() == 0 {
            assert(self@.queue =~= old(self)@.queue);
            None
        } else {
            let ghost q0 = self@.queue;
            let s = self.queue.remove(0);
            assert(self@.queue =~= q0.drop_first());
            Some(s)
        }
    }
}

} // verus!
