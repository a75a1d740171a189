//! Who takes part: actors, the peers that host them, and where those peers listen.

use crate::assoc_map::MapKey;
use vstd::prelude::*;

verus! {

/// The id of an actor.
#[derive(Clone, Copy, Debug, PartialEq, Eq, Hash, Structural)]
pub struct ActorId {
    pub id: u64,
}

impl ActorId {
    pub fn from_u64(id: u64) -> (actor_id: Self)
        ensures
            actor_id.id == id,
    {
        ActorId { id }
    }

    pub fn into_u64(self) -> (id: u64)
        ensures
            id == self.id,
    {
        self.id
    }
}

/// The socket address of a peer.
#[derive(Clone, Copy, Debug, PartialEq, Eq, Hash, Structural)]
pub enum PeerAddr {
    V4 { ip: u32, port: u16 },
    V6 { ip6: u128, port: u16, flowinfo: u32, scope_id: u32 },
}

impl View for PeerAddr {
    type V = PeerAddr;

    open spec fn view(&self) -> PeerAddr {
        *self
    }
}

impl MapKey for PeerAddr {
    fn same_key(&self, other: &Self) -> (same: bool) {
        *self == *other
    }
}

/// The identity of a peer: its public key.
#[derive(Clone, Copy, Debug)]
pub struct PeerId {
    pub bytes: [u8; 32],
}

impl View for PeerId {
    type V = Seq<u8>;

    open spec fn view(&self) -> Seq<u8> {
        self.bytes@
    }
}

/// A peer is known by all 32 bytes of its identity: two identities are taken for the same exactly
/// when every byte is.
pub proof fn peers_are_told_apart_by_every_byte(a: PeerId, b: PeerId)
    ensures
        a@.len() == 32,
        forall|i: int| 0 <= i < 32 ==> #[trigger] a@[i] == a.bytes[i],
        a@ == b@ <==> (forall|i: int| 0 <= i < 32 ==> #[trigger] a.bytes[i] == b.bytes[i]),
{
    if forall|i: int| 0 <= i < 32 ==> #[trigger] a.bytes[i] == b.bytes[i] {
        assert(a@ =~= b@);
    }
}

/// Addresses are told apart by everything that they hold.
pub proof fn addresses_are_told_apart_by_every_field(a: PeerAddr, b: PeerAddr)
    ensures
        a@ == b@ <==> match (a, b) {
            (PeerAddr::V4 { ip: a_ip, port: a_port }, PeerAddr::V4 { ip: b_ip, port: b_port }) => {
                a_ip == b_ip && a_port == b_port
            },
            (
                PeerAddr::V6 { ip6: a_ip, port: a_port, flowinfo: a_flow, scope_id: a_scope },
                PeerAddr::V6 { ip6: b_ip, port: b_port, flowinfo: b_flow, scope_id: b_scope },
            ) => {
                a_ip == b_ip && a_port == b_port && a_flow == b_flow && a_scope == b_scope
            },
            _ => false,
        },
{
}

impl MapKey for PeerId {
    fn same_key(&self, other: &Self) -> (same: bool) {
        let mut i: usize = 0;
        while i < 32
            invariant
                i <= 32,
                self.bytes@.len() == 32,
                other.bytes@.len() == 32,
                forall|j: int| 0 <= j < i ==> self.bytes@[j] == other.bytes@[j],
            decreases 32 - i,
        {
            if self.bytes[i] != other.bytes[i] {
                return false;
            }
            i += 1;
        }
        assert(self@ =~= other@);
        true
    }
}

impl MapKey for String {
    fn same_key(&self, other: &Self) -> (same: bool) {
        *self == *other
    }
}

} // verus!
