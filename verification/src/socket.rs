//! The PUB socket that an application holds.

use crate::backend::PubSocketBackend;
use crate::fanout::{is_fan_out, lemma_registry_only_shrinks, Attempt};
use crate::subscription::accepts;
use crate::channel::bounded_queue;
use crate::message::{SocketEvent, ZmqMessage, ZmqResult};
use crate::registry::{no_peers, Registry};
use futures::channel::mpsc;
use vstd::prelude::*;

verus! {

/// Number of events that a monitor can fall behind before further events
/// are lost.
pub const MONITOR_CAPACITY: usize = 1024;

/// A socket that publishes messages to the peers subscribed to them.
pub struct PubSocket {
    backend: PubSocketBackend,
}

impl PubSocket {
    /// The state that the socket owns.
    pub closed spec fn state(&self) -> PubSocketBackend {
        self.backend
    }

    /// The subscription list of each connected peer, by peer identity.
    pub open spec fn view(&self) -> Registry {
        self.state()@
    }

    /// Whether a monitor is attached.
    pub open spec fn monitored(&self) -> bool {
        self.state().monitored()
    }

    /// A socket without peers and without a monitor.
    pub fn new() -> (socket: PubSocket)
        ensures
            socket@ == no_peers(),
            !socket.monitored(),
    {
        PubSocket { backend: PubSocketBackend::new() }
    }

    /// The state of the socket, for the transport to register peers with
    /// and for the receive loops to report to.
    pub fn backend(&mut self) -> (backend: &mut PubSocketBackend)
        ensures
            *backend == old(self).state(),
            final(self).state() == *final(backend),
    {
        &mut self.backend
    }

    /// Attaches a new monitor in place of the one before, if there was one,
    /// and hands out the end on which the events arrive.
    pub fn monitor(&mut self) -> (events: mpsc::Receiver<SocketEvent>)
        ensures
            final(self).monitored(),
            final(self)@ == old(self)@,
    {
        let (sender, receiver) = bounded_queue(MONITOR_CAPACITY);
        let slot = self.backend.monitor();
        *slot = Some(sender);
        receiver
    }

    /// Publishes `message` and reports each delivery that was tried.
    pub fn publish(&mut self, message: &ZmqMessage) -> (report: Vec<Attempt>)
        ensures
            is_fan_out(old(self)@, message@, report@, final(self)@),
            final(self)@ == old(self)@ ==> final(self).state().monitor_end() == old(
                self,
            ).state().monitor_end(),
            final(self).monitored() == old(self).monitored(),
    {
        self.backend.publish(message)
    }

    /// Publishes `message`. The call succeeds whatever becomes of the single
    /// deliveries: a peer that cannot be reached is dropped, not reported.
    /// No record is added or changed, and a peer that does not accept the
    /// message stays in the registry.
    pub fn send(&mut self, message: ZmqMessage) -> (sent: ZmqResult<()>)
        ensures
            sent is Ok,
            exists|report: Seq<Attempt>|
                is_fan_out(old(self)@, message@, report, final(self)@),
            forall|peer: Seq<u8>| #[trigger]
                final(self)@.contains_key(peer) ==> old(self)@.contains_key(peer)
                    && final(self)@[peer] == old(self)@[peer],
            forall|peer: Seq<u8>|
                #![trigger old(self)@.contains_key(peer)]
                old(self)@.contains_key(peer) && !accepts(old(self)@[peer], message@)
                    ==> final(self)@.contains_key(peer),
            final(self)@ == old(self)@ ==> final(self).state().monitor_end() == old(
                self,
            ).state().monitor_end(),
            final(self).monitored() == old(self).monitored(),
    {
        let _report = self.backend.publish(&message);
        proof {
            assert(is_fan_out(old(self)@, message@, _report@, self@));
            lemma_registry_only_shrinks(old(self)@, message@, _report@, self@);
        }
        Ok(())
    }

    /// Disconnects every peer. A message published afterwards reaches
    /// nobody.
    pub fn close(&mut self)
        ensures
            final(self)@ == no_peers(),
            final(self).state().monitor_end() == old(self).state().monitor_end(),
    {
        self.backend.shutdown();
    }
}

} // verus!
