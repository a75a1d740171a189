//! Messages to actors of other peers, and links that tell a local actor when such a peer is gone.
//!
//! The library decides; it neither waits nor talks to the network. Where the next step is up to
//! the network, it says what to do and is told how that went.

pub mod assoc_map;
pub mod connection_slot;
pub mod delivery;
pub mod delivery_laws;
pub mod dynamic_distributed_actor_ref;
pub mod error;
pub mod ids;
pub mod link_laws;
pub mod peer_links;
pub mod remote_link;
pub mod wire;
