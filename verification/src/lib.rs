//! Fan-out engine of a PUB socket.
//!
//! The engine keeps one record per connected peer, follows each peer's
//! subscribe and unsubscribe control frames, and offers every published
//! message to the peers that hold a subscription which is a prefix of it.
//! A peer whose outbound queue turns out to be disconnected is dropped from
//! the registry; a peer whose queue is merely full keeps its place and misses
//! the message.

pub mod backend;
pub mod channel;
pub mod fanout;
pub mod message;
pub mod receive;
pub mod registry;
pub mod socket;
pub mod subscription;

pub use backend::PubSocketBackend;
pub use socket::PubSocket;
