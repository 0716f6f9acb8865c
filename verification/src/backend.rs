//! The state of a PUB socket: the registry of its peers and the monitor
//! that is told when a peer comes or goes.

use crate::fanout::{
    among, attempted, disconnected, is_fan_out, lemma_among_next, lemma_attempt_added,
    lemma_dead_added, lemma_name_added, Attempt,
};
use crate::channel::{stop_signal, try_deliver, Delivery};
use crate::message::{
    copy_bytes, Message, PeerIdentity, SocketEvent, SocketType, ZmqError, ZmqMessage, ZmqResult,
};
use crate::receive::{after_inbound, after_message, next_state, Inbound, LoopState};
use crate::registry::{
    no_peers, registry_clear, registry_contains, registry_insert, registry_new, registry_peers,
    registry_remove, registry_subscriptions, registry_view, Registry, Subscriber,
};
use crate::subscription::{accepts, apply_control, first_match, is_control, lemma_topics};
use dashmap::DashMap;
use futures::channel::mpsc;
use futures::channel::oneshot;
use vstd::prelude::*;

verus! {

/// The registry of a PUB socket and its monitor.
pub struct PubSocketBackend {
    subscribers: DashMap<PeerIdentity, Subscriber>,
    socket_monitor: Option<mpsc::Sender<SocketEvent>>,
}

impl PubSocketBackend {
    /// The subscription list of each registered peer, by peer identity.
    pub closed spec fn view(&self) -> Registry {
        registry_view(self.subscribers)
    }

    /// The sending end of the monitor, if one is attached.
    pub closed spec fn monitor_end(&self) -> Option<mpsc::Sender<SocketEvent>> {
        self.socket_monitor
    }

    /// Whether a monitor is attached.
    pub open spec fn monitored(&self) -> bool {
        self.monitor_end() is Some
    }

    /// A backend without peers and without a monitor.
    pub fn new() -> (backend: PubSocketBackend)
        ensures
            backend@ == no_peers(),
            !backend.monitored(),
    {
        PubSocketBackend { subscribers: registry_new(), socket_monitor: None }
    }

    pub fn socket_type(&self) -> (kind: SocketType)
        ensures
            kind == SocketType::PUB,
    {
        SocketType::PUB
    }

    /// Whether a monitor is attached.
    pub fn has_monitor(&self) -> (attached: bool)
        ensures
            attached == self.monitored(),
    {
        self.socket_monitor.is_some()
    }

    /// The identities of the registered peers, each once, in the order in
    /// which the registry walks them.
    pub fn peers(&self) -> (peers: Vec<PeerIdentity>)
        ensures
            peers.deep_view().no_duplicates(),
            peers.deep_view().to_set() == self@.dom(),
    {
        registry_peers(&self.subscribers)
    }

    /// Whether `peer_id` is registered.
    pub fn is_connected(&self, peer_id: &PeerIdentity) -> (connected: bool)
        ensures
            connected == self@.contains_key(peer_id@),
    {
        registry_contains(&self.subscribers, peer_id)
    }

    /// A copy of the subscription list of `peer_id`, in the order in which
    /// the peer subscribed.
    pub fn subscriptions(&self, peer_id: &PeerIdentity) -> (found: Option<Vec<Vec<u8>>>)
        ensures
            found is Some <==> self@.contains_key(peer_id@),
            found matches Some(list) ==> list.deep_view() == self@[peer_id@],
    {
        registry_subscriptions(&self.subscribers, peer_id)
    }

    /// The place of the monitor, to attach one, to replace it or to take
    /// it away. Nothing else of the backend changes through it.
    pub fn monitor(&mut self) -> (slot: &mut Option<mpsc::Sender<SocketEvent>>)
        ensures
            *slot == old(self).monitor_end(),
            final(self).monitor_end() == *final(slot),
            final(self)@ == old(self)@,
    {
        &mut self.socket_monitor
    }

    /// Offers `event` to the monitor and says how the offer ended, or says
    /// that none was made for want of a monitor. The offer never waits.
    fn notify(&mut self, event: SocketEvent) -> (offer: Option<Delivery>)
        ensures
            offer is Some <==> old(self).monitored(),
            offer is None ==> final(self).monitor_end() == old(self).monitor_end(),
            final(self)@ == old(self)@,
            final(self).monitored() == old(self).monitored(),
    {
        match &mut self.socket_monitor {
            Some(sender) => Some(try_deliver(sender, event)),
            None => None,
        }
    }

    /// Carries out a frame that `peer_id` sent. A frame that is not a single
    /// payload is passed over, and so is any frame from a peer that has left
    /// the registry in the meantime.
    pub fn message_received(&mut self, peer_id: &PeerIdentity, message: Message)
        ensures
            final(self)@ == after_message(old(self)@, peer_id@, message),
            final(self).monitor_end() == old(self).monitor_end(),
    {
        let frame = match message {
            Message::Message(m) => m,
            _ => {
                return ;
            },
        };
        if !is_control(&frame.data) {
            proof {
                if self@.contains_key(peer_id@) {
                    assert(self@.insert(peer_id@, self@[peer_id@]) =~= self@);
                }
            }
            return ;
        }
        match registry_remove(&mut self.subscribers, peer_id) {
            Some(mut subscriber) => {
                apply_control(&mut subscriber.subscriptions, &frame.data);
                let _ = registry_insert(&mut self.subscribers, copy_bytes(peer_id), subscriber);
                assert(self@ =~= after_message(old(self)@, peer_id@, message));
            },
            None => {
                assert(self@ =~= old(self)@);
            },
        }
    }

    /// Takes every peer out of the registry. Their records are dropped, which
    /// closes their queues and stops their receive loops.
    pub fn shutdown(&mut self)
        ensures
            final(self)@ == no_peers(),
            final(self).monitor_end() == old(self).monitor_end(),
    {
        registry_clear(&mut self.subscribers);
    }

    /// Registers a peer with an empty subscription list and tells the
    /// monitor. The receiver that comes back is the stop signal for the
    /// peer's receive loop: it completes when the record leaves the registry.
    /// An identity that is registered already is refused, and its record
    /// stays as it is.
    pub fn peer_connected(
        &mut self,
        peer_id: &PeerIdentity,
        send_queue: mpsc::Sender<Message>,
    ) -> (stop: ZmqResult<oneshot::Receiver<()>>)
        ensures
            stop is Ok <==> !old(self)@.contains_key(peer_id@),
            stop is Ok ==> final(self)@ == old(self)@.insert(peer_id@, Seq::empty()),
            stop matches Err(e) ==> e == ZmqError::PeerAlreadyConnected && final(self)@ == old(
                self,
            )@,
            stop is Err ==> final(self).monitor_end() == old(self).monitor_end(),
            final(self).monitored() == old(self).monitored(),
    {
        if registry_contains(&self.subscribers, peer_id) {
            return Err(ZmqError::PeerAlreadyConnected);
        }
        let (sender, stop_receiver) = stop_signal();
        let subscriber = Subscriber {
            subscriptions: Vec::new(),
            send_queue,
            _subscription_coro_stop: sender,
        };
        assert(subscriber.subscriptions.deep_view() =~= Seq::empty());
        let _ = registry_insert(&mut self.subscribers, copy_bytes(peer_id), subscriber);
        let _ = self.notify(SocketEvent::Connected(copy_bytes(peer_id)));
        Ok(stop_receiver)
    }

    /// Takes a peer out of the registry and, if it was there, tells the
    /// monitor. Dropping the record closes the peer's queue and stops its
    /// receive loop.
    pub fn peer_disconnected(&mut self, peer_id: &PeerIdentity)
        ensures
            final(self)@ == old(self)@.remove(peer_id@),
            !old(self)@.contains_key(peer_id@) ==> final(self).monitor_end() == old(
                self,
            ).monitor_end(),
            final(self).monitored() == old(self).monitored(),
    {
        match registry_remove(&mut self.subscribers, peer_id) {
            Some(_) => {
                let _ = self.notify(SocketEvent::Disconnected(copy_bytes(peer_id)));
            },
            None => {},
        }
    }

    /// Offers `message` to `peer_id` if the peer is registered and holds a
    /// subscription which is a prefix of it. The registry stays as it is,
    /// however the offer ends.
    fn offer(&mut self, peer_id: &PeerIdentity, message: &ZmqMessage) -> (outcome: Option<Delivery>)
        ensures
            outcome is Some <==> old(self)@.contains_key(peer_id@) && accepts(
                old(self)@[peer_id@],
                message@,
            ),
            final(self)@ == old(self)@,
            final(self).monitor_end() == old(self).monitor_end(),
    {
        match registry_remove(&mut self.subscribers, peer_id) {
            Some(mut subscriber) => {
                let outcome = if first_match(&subscriber.subscriptions, &message.data).is_some() {
                    Some(try_deliver(&mut subscriber.send_queue, Message::publication(message)))
                } else {
                    None
                };
                let _ = registry_insert(&mut self.subscribers, copy_bytes(peer_id), subscriber);
                assert(self@ =~= old(self)@);
                outcome
            },
            None => {
                assert(self@ =~= old(self)@);
                None
            },
        }
    }

    /// Offers `message` to every peer that holds a subscription which is a
    /// prefix of it, once per peer however many of its subscriptions match,
    /// and then takes the peers whose queue proved disconnected out of the
    /// registry. No offer waits: a peer whose queue is full misses the
    /// message and stays. The report lists the attempts in the order in which
    /// they were made.
    pub fn publish(&mut self, message: &ZmqMessage) -> (report: Vec<Attempt>)
        ensures
            is_fan_out(old(self)@, message@, report@, final(self)@),
            final(self)@ == old(self)@ ==> final(self).monitor_end() == old(self).monitor_end(),
            final(self).monitored() == old(self).monitored(),
    {
        let peers = registry_peers(&self.subscribers);
        let mut report: Vec<Attempt> = Vec::new();
        let mut dead_peers: Vec<PeerIdentity> = Vec::new();
        let ghost before = self@;
        let ghost names = peers.deep_view();
        proof {
            lemma_topics(peers);
        }
        let mut i: usize = 0;
        while i < peers.len()
            invariant
                i <= peers.len(),
                self@ == before,
                self.monitor_end() == old(self).monitor_end(),
                names == peers.deep_view(),
                names.len() == peers.len(),
                forall|j: int| 0 <= j < names.len() ==> #[trigger] names[j] == peers@[j]@,
                names.no_duplicates(),
                names.to_set() == before.dom(),
                attempted(report@).no_duplicates(),
                forall|p: Seq<u8>| #[trigger]
                    attempted(report@).contains(p) <==> among(names, i as int, p) && accepts(
                        before[p],
                        message@,
                    ),
                forall|p: Seq<u8>| #[trigger]
                    dead_peers.deep_view().contains(p) <==> disconnected(report@).contains(p),
            decreases peers.len() - i,
        {
            let peer = &peers[i];
            let ghost name = names[i as int];
            let ghost tried = report@;
            let ghost dead = dead_peers.deep_view();
            assert(names.to_set().contains(name));
            assert(!among(names, i as int, name));
            match self.offer(peer, message) {
                Some(outcome) => {
                    if outcome.is_fatal() {
                        dead_peers.push(copy_bytes(peer));
                        proof {
                            lemma_topics(dead_peers);
                            assert(dead_peers.deep_view() =~= dead.push(name));
                            lemma_name_added(dead, name);
                        }
                    }
                    report.push(Attempt { peer: copy_bytes(peer), outcome });
                    proof {
                        lemma_attempt_added(tried, report@.last());
                        lemma_dead_added(tried, report@.last());
                    }
                },
                None => {},
            }
            proof {
                lemma_among_next(names, i as int);
            }
            i += 1;
        }
        proof {
            assert forall|p: Seq<u8>| #[trigger]
                attempted(report@).contains(p) <==> before.contains_key(p) && accepts(
                    before[p],
                    message@,
                ) by {
                if before.contains_key(p) {
                    assert(names.to_set().contains(p));
                    assert(among(names, names.len() as int, p));
                }
            }
            lemma_topics(dead_peers);
            if dead_peers.len() > 0 {
                let lost = dead_peers.deep_view()[0];
                assert(dead_peers.deep_view().contains(lost));
                assert(disconnected(report@).contains(lost));
                let at = choose|i: int|
                    0 <= i < report@.len() && (#[trigger] report@[i]).peer@ == lost
                        && report@[i].outcome == Delivery::Disconnected;
                assert(attempted(report@)[at] == lost);
                assert(attempted(report@).contains(lost));
                assert(before.contains_key(lost));
                assert(!before.remove_keys(disconnected(report@)).contains_key(lost));
            }
        }
        let ghost doomed = dead_peers.deep_view();
        let mut k: usize = 0;
        while k < dead_peers.len()
            invariant
                k <= dead_peers.len(),
                doomed == dead_peers.deep_view(),
                doomed.len() == dead_peers.len(),
                forall|j: int| 0 <= j < doomed.len() ==> #[trigger] doomed[j] == dead_peers@[j]@,
                self.monitored() == old(self).monitored(),
                k == 0 ==> self.monitor_end() == old(self).monitor_end(),
                self@ == before.remove_keys(Set::new(|p: Seq<u8>| among(doomed, k as int, p))),
            decreases dead_peers.len() - k,
        {
            self.peer_disconnected(&dead_peers[k]);
            proof {
                lemma_among_next(doomed, k as int);
                assert(self@ =~= before.remove_keys(
                    Set::new(|p: Seq<u8>| among(doomed, k as int + 1, p)),
                ));
            }
            k += 1;
        }
        proof {
            assert forall|p: Seq<u8>| among(doomed, doomed.len() as int, p) <==> disconnected(
                report@,
            ).contains(p) by {
                if among(doomed, doomed.len() as int, p) {
                    assert(doomed.contains(p));
                }
                if doomed.contains(p) {
                    assert(among(doomed, doomed.len() as int, p));
                }
            }
            assert(Set::new(|p: Seq<u8>| among(doomed, doomed.len() as int, p)) =~= disconnected(
                report@,
            ));
        }
        report
    }

    /// One step of the receive loop of `peer_id`: what becomes of the
    /// registry and of the loop when the loop, in `state`, sees `event`.
    pub fn receive_step(&mut self, peer_id: &PeerIdentity, state: LoopState, event: Inbound) -> (next:
        LoopState)
        ensures
            next == next_state(state, event),
            final(self)@ == after_inbound(old(self)@, peer_id@, state, event),
            event is Frame || final(self)@ == old(self)@ ==> final(self).monitor_end() == old(
                self,
            ).monitor_end(),
            final(self).monitored() == old(self).monitored(),
    {
        match state {
            LoopState::Terminated => LoopState::Terminated,
            LoopState::Running => match event {
                Inbound::Frame(message) => {
                    self.message_received(peer_id, message);
                    LoopState::Running
                },
                Inbound::Failed => {
                    self.peer_disconnected(peer_id);
                    LoopState::Terminated
                },
                Inbound::Closed => {
                    self.peer_disconnected(peer_id);
                    LoopState::Terminated
                },
                Inbound::Stopped => LoopState::Terminated,
            },
        }
    }
}

} // verus!
