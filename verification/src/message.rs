//! Values that travel between the engine and its peers.

use vstd::prelude::*;

verus! {

/// Identity that the transport assigned to a peer when it accepted the
/// connection. It is the key of the peer registry.
pub type PeerIdentity = Vec<u8>;

/// One payload: the bytes that the application published, or the bytes of a
/// control frame that a peer sent.
#[derive(Clone, Debug, PartialEq, Eq)]
pub struct ZmqMessage {
    pub data: Vec<u8>,
}

/// One decoded unit of the wire protocol.
///
/// Only `Message` carries anything the engine reads. The other kinds arrive
/// from the codec and are passed over.
#[derive(Clone, Debug, PartialEq, Eq)]
pub enum Message {
    Greeting,
    Command,
    Message(ZmqMessage),
    MultipartMessage(Vec<ZmqMessage>),
}

/// The pattern a socket implements.
#[derive(Clone, Copy, Debug, PartialEq, Eq, Structural)]
pub enum SocketType {
    REQ,
    REP,
    DEALER,
    ROUTER,
    PUB,
    SUB,
    XPUB,
    XSUB,
    PUSH,
    PULL,
    PAIR,
    STREAM,
}

/// What a monitor is told about the peers of a socket.
#[derive(Clone, Debug, PartialEq, Eq)]
pub enum SocketEvent {
    Connected(PeerIdentity),
    Disconnected(PeerIdentity),
}

/// Failures that the engine reports to its caller.
#[derive(Clone, Copy, Debug, PartialEq, Eq, Structural)]
pub enum ZmqError {
    /// A peer with this identity is registered already.
    PeerAlreadyConnected,
}

pub type ZmqResult<T> = Result<T, ZmqError>;

impl ZmqMessage {
    /// The bytes of the payload.
    pub open spec fn view(&self) -> Seq<u8> {
        self.data@
    }

    pub fn new(data: Vec<u8>) -> (message: ZmqMessage)
        ensures
            message@ == data@,
    {
        ZmqMessage { data }
    }

    /// A second message with the same bytes.
    pub fn duplicate(&self) -> (copy: ZmqMessage)
        ensures
            copy@ == self@,
    {
        ZmqMessage { data: copy_bytes(&self.data) }
    }
}

impl Message {
    /// The frame that carries a published message to a peer: a single
    /// payload with the bytes of the message.
    pub fn publication(message: &ZmqMessage) -> (frame: Message)
        ensures
            payload_of(frame) == Some(message@),
    {
        Message::Message(message.duplicate())
    }
}

/// A second vector with the same bytes.
pub fn copy_bytes(bytes: &Vec<u8>) -> (copy: Vec<u8>)
    ensures
        copy@ == bytes@,
{
    bytes.clone()
}

/// The bytes that a frame carries where it is a single payload, and nothing
/// for a frame of any other kind.
pub open spec fn payload_of(message: Message) -> Option<Seq<u8>> {
    match message {
        Message::Message(m) => Some(m@),
        _ => None,
    }
}

} // verus!
