//! How sending fails.

use vstd::prelude::*;

verus! {

/// Why a message was not delivered or not answered.
#[derive(Clone, Copy, Debug, PartialEq, Eq)]
pub enum SendError {
    /// The actor cannot be reached.
    ActorStopped,
    /// The reference has no connection to send over.
    MissingConnection,
    /// The message was not sent, or no reply came, in time.
    Timeout(Option<()>),
}

/// Why the connection to a peer failed a request.
#[derive(Clone, Copy, Debug, PartialEq, Eq, Structural)]
pub enum GossipError {
    /// The network failed.
    Network,
    /// The peer is not known.
    PeerNotFound,
    /// The connection is shut down.
    Shutdown,
    /// The peer did not answer in time.
    Timeout,
    /// Anything else.
    Other,
}

impl GossipError {
    /// The connection is of no more use: a new one may do.
    pub open spec fn is_connection_loss(self) -> bool {
        self is Network || self is PeerNotFound || self is Shutdown
    }
}

impl SendError {
    /// The error may come of a connection that is of no more use.
    pub open spec fn is_connection_loss(self) -> bool {
        self is ActorStopped || self is MissingConnection
    }
}

} // verus!
