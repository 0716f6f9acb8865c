//! The receive loop of a peer, as a state machine.
//!
//! The loop itself waits on the peer's inbound stream and on the stop signal
//! of its record, which this library cannot do. Each time it wakes up it
//! hands what it saw to `PubSocketBackend::receive_step`, which does what
//! this module describes.

use crate::message::{payload_of, Message};
use crate::registry::Registry;
use crate::subscription::{after_control, after_controls};
use vstd::prelude::*;

verus! {

/// Where the receive loop of a peer stands.
#[derive(Clone, Copy, Debug, PartialEq, Eq, Structural)]
pub enum LoopState {
    Running,
    Terminated,
}

/// What the receive loop of a peer saw when it woke up.
#[derive(Clone, Debug, PartialEq, Eq)]
pub enum Inbound {
    /// The inbound stream gave a frame.
    Frame(Message),
    /// The inbound stream gave an error.
    Failed,
    /// The inbound stream ended.
    Closed,
    /// The stop signal of the peer's record fired.
    Stopped,
}

/// The registry after `peer` has sent `message`. Only a single-payload frame
/// from a registered peer changes anything: it is carried out as a control
/// frame on that peer's subscription list.
pub open spec fn after_message(
    registry: Registry,
    peer: Seq<u8>,
    message: Message,
) -> Registry {
    match payload_of(message) {
        Some(frame) => if registry.contains_key(peer) {
            registry.insert(peer, after_control(registry[peer], frame))
        } else {
            registry
        },
        None => registry,
    }
}

/// The state of a peer's receive loop after it saw `event` in `state`.
pub open spec fn next_state(state: LoopState, event: Inbound) -> LoopState {
    match (state, event) {
        (LoopState::Running, Inbound::Frame(_)) => LoopState::Running,
        _ => LoopState::Terminated,
    }
}

/// The registry after the receive loop of `peer` saw `event` in `state`. A
/// loop that has terminated touches nothing, and neither does one whose stop
/// signal fired. A stream that ended or failed takes the peer out.
pub open spec fn after_inbound(
    registry: Registry,
    peer: Seq<u8>,
    state: LoopState,
    event: Inbound,
) -> Registry {
    match (state, event) {
        (LoopState::Running, Inbound::Frame(message)) => after_message(registry, peer, message),
        (LoopState::Running, Inbound::Failed) => registry.remove(peer),
        (LoopState::Running, Inbound::Closed) => registry.remove(peer),
        _ => registry,
    }
}

/// The registry after `peer` has sent `messages`, first to last.
pub open spec fn after_messages(
    registry: Registry,
    peer: Seq<u8>,
    messages: Seq<Message>,
) -> Registry
    decreases messages.len(),
{
    if messages.len() == 0 {
        registry
    } else {
        after_message(after_messages(registry, peer, messages.drop_last()), peer, messages.last())
    }
}

/// The control frames among `messages`: the payloads of the single-payload
/// frames, in order.
pub open spec fn control_frames(messages: Seq<Message>) -> Seq<Seq<u8>>
    decreases messages.len(),
{
    if messages.len() == 0 {
        Seq::empty()
    } else {
        match payload_of(messages.last()) {
            Some(frame) => control_frames(messages.drop_last()).push(frame),
            None => control_frames(messages.drop_last()),
        }
    }
}

/// Whatever a registered peer sends, its subscription list ends up as the
/// one that carrying out its control frames in order gives, and no other
/// record changes. What an unregistered peer sends changes nothing.
pub proof fn lemma_messages_are_controls(
    registry: Registry,
    peer: Seq<u8>,
    messages: Seq<Message>,
)
    ensures
        registry.contains_key(peer) ==> after_messages(registry, peer, messages) == registry.insert(
            peer,
            after_controls(registry[peer], control_frames(messages)),
        ),
        !registry.contains_key(peer) ==> after_messages(registry, peer, messages) == registry,
    decreases messages.len(),
{
    if messages.len() == 0 {
        if registry.contains_key(peer) {
            assert(registry.insert(peer, registry[peer]) =~= registry);
        }
    } else {
        let earlier = messages.drop_last();
        lemma_messages_are_controls(registry, peer, earlier);
        if registry.contains_key(peer) {
            let frames = control_frames(earlier);
            let subs = after_controls(registry[peer], frames);
            let between = registry.insert(peer, subs);
            match payload_of(messages.last()) {
                Some(frame) => {
                    assert(frames.push(frame).drop_last() =~= frames);
                    assert(between.insert(peer, after_control(subs, frame)) =~= registry.insert(
                        peer,
                        after_control(subs, frame),
                    ));
                },
                None => {},
            }
        }
    }
}

/// What one peer sends changes no other peer's record.
pub proof fn lemma_message_touches_one_peer(
    registry: Registry,
    peer: Seq<u8>,
    message: Message,
    other: Seq<u8>,
)
    requires
        other != peer,
    ensures
        after_message(registry, peer, message).contains_key(other) == registry.contains_key(other),
        registry.contains_key(other) ==> after_message(registry, peer, message)[other]
            == registry[other],
        after_message(registry, peer, message).contains_key(peer) == registry.contains_key(peer),
{
}

/// A loop whose stop signal fired terminates at once and leaves the
/// registry alone, and a loop that has terminated stays so and leaves the
/// registry alone whatever it is shown.
pub proof fn lemma_stopped_loop_rests(
    registry: Registry,
    peer: Seq<u8>,
    state: LoopState,
    event: Inbound,
)
    requires
        state == LoopState::Terminated || event is Stopped,
    ensures
        next_state(state, event) == LoopState::Terminated,
        after_inbound(registry, peer, state, event) == registry,
{
}

/// A loop whose stream ended or failed takes its peer out of the registry
/// and terminates.
pub proof fn lemma_ended_stream_removes_peer(
    registry: Registry,
    peer: Seq<u8>,
    event: Inbound,
)
    requires
        event is Closed || event is Failed,
    ensures
        next_state(LoopState::Running, event) == LoopState::Terminated,
        !after_inbound(registry, peer, LoopState::Running, event).contains_key(peer),
{
}

} // verus!
