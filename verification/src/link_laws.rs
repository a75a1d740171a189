//! What holds of links across several operations.

use crate::ids::{ActorId, PeerAddr};
use crate::peer_links::{ActorStopReason, LinkDied, LinkEnds};
use crate::remote_link::{Link, LinkEstablished, LocalLinkIntent, RegistryView};
use std::sync::Arc;
use vstd::prelude::*;

verus! {

/// A link that is there stays as it is: linking again changes nothing, whatever the mailbox.
pub proof fn link_is_idempotent<B>(
    state: RegistryView<B>,
    link: Link,
    mailbox: Arc<B>,
    other: Arc<B>,
)
    ensures
        state.linked(link, mailbox).linked(link, other) == state.linked(link, mailbox),
        state.linked(link, mailbox).links.contains_key(link),
        !state.links.contains_key(link) ==> state.linked(link, mailbox).links[link] == mailbox,
{
}

/// Unlinking takes back a link, and leaves everything else as it was before the link.
pub proof fn unlink_undoes_link<B>(state: RegistryView<B>, link: Link, mailbox: Arc<B>)
    requires
        !state.links.contains_key(link),
    ensures
        state.linked(link, mailbox).unlinked(link) == state,
{
    assert(state.linked(link, mailbox).unlinked(link) =~= state);
}

/// Unlinking what is not linked changes nothing.
pub proof fn unlink_of_nothing_changes_nothing<B>(state: RegistryView<B>, link: Link)
    requires
        !state.links.contains_key(link),
    ensures
        state.unlinked(link) == state,
{
    assert(state.unlinked(link) =~= state);
}

/// Linking and unlinking one pair of actors leaves every other link and every address alone.
pub proof fn links_are_independent<B>(
    state: RegistryView<B>,
    link: Link,
    mailbox: Arc<B>,
    other: Link,
)
    requires
        link != other,
    ensures
        state.linked(link, mailbox).links.contains_key(other) == state.links.contains_key(other),
        state.unlinked(link).links.contains_key(other) == state.links.contains_key(other),
        state.links.contains_key(other) ==> {
            &&& state.linked(link, mailbox).links[other] == state.links[other]
            &&& state.unlinked(link).links[other] == state.links[other]
        },
        state.linked(link, mailbox).addrs == state.addrs,
        state.unlinked(link).addrs == state.addrs,
{
}

/// Something that happens to a registry.
#[verifier::reject_recursive_types(B)]
pub enum LinkEvent<B> {
    /// Two actors are linked, by address alone.
    Link { link: Link, mailbox: Arc<B> },
    /// Two actors are linked, and the peer makes itself known.
    LinkWithPeerId { peer_id: Seq<u8>, link: Link, mailbox: Arc<B> },
    /// Two actors are unlinked.
    Unlink { link: Link },
    /// A peer connects.
    Connect { peer_id: Seq<u8>, peer: PeerAddr, intents: Seq<LocalLinkIntent<B>> },
    /// A peer disconnects, as told by its identity.
    DisconnectById { peer_id: Seq<u8> },
    /// A peer disconnects, as told by its address.
    DisconnectByAddr { peer: PeerAddr },
}

impl<B> LinkEvent<B> {
    /// The registry after the event.
    pub open spec fn after(self, state: RegistryView<B>) -> RegistryView<B> {
        match self {
            LinkEvent::Link { link, mailbox } => state.linked(link, mailbox),
            LinkEvent::LinkWithPeerId { peer_id, link, mailbox } => state.seen_at(
                peer_id,
                link.peer,
            ).linked(link, mailbox),
            LinkEvent::Unlink { link } => state.unlinked(link),
            LinkEvent::Connect { peer_id, peer, intents } => state.auto_linked(
                peer_id,
                peer,
                intents,
            ),
            LinkEvent::DisconnectById { peer_id } => state.disconnected(peer_id),
            LinkEvent::DisconnectByAddr { peer } => state.without_links_to(peer),
        }
    }

    /// The event neither moves the peer `id` away from `addr` nor disconnects it by its identity.
    pub open spec fn leaves_at(self, id: Seq<u8>, addr: PeerAddr) -> bool {
        match self {
            LinkEvent::LinkWithPeerId { peer_id, link, .. } => peer_id == id ==> link.peer == addr,
            LinkEvent::Connect { peer_id, peer, .. } => peer_id == id ==> peer == addr,
            LinkEvent::DisconnectById { peer_id } => peer_id != id,
            _ => true,
        }
    }
}

/// The registry after `events`.
pub open spec fn after_events<B>(
    state: RegistryView<B>,
    events: Seq<LinkEvent<B>>,
) -> RegistryView<B>
    decreases events.len(),
{
    if events.len() == 0 {
        state
    } else {
        events.last().after(after_events(state, events.drop_last()))
    }
}

proof fn lemma_events_leave_at<B>(
    state: RegistryView<B>,
    events: Seq<LinkEvent<B>>,
    peer_id: Seq<u8>,
    peer: PeerAddr,
)
    requires
        state.addrs.contains_key(peer_id),
        state.addrs[peer_id] == peer,
        forall|i: int| 0 <= i < events.len() ==> (#[trigger] events[i]).leaves_at(peer_id, peer),
    ensures
        after_events(state, events).addrs.contains_key(peer_id),
        after_events(state, events).addrs[peer_id] == peer,
    decreases events.len(),
{
    if events.len() > 0 {
        let earlier = events.drop_last();
        assert forall|i: int| 0 <= i < earlier.len() implies (#[trigger] earlier[i]).leaves_at(
            peer_id,
            peer,
        ) by {
            assert(events[i].leaves_at(peer_id, peer));
        }
        lemma_events_leave_at(state, earlier, peer_id, peer);
        assert(events[events.len() - 1].leaves_at(peer_id, peer));
    }
}

/// Once a peer has connected, a disconnect by its identity reaches every link to its address,
/// also the links that were added by address alone after it connected, and whatever happened to
/// other peers meanwhile.
pub proof fn disconnect_by_id_reaches_links_by_addr<B>(
    state: RegistryView<B>,
    peer_id: Seq<u8>,
    peer: PeerAddr,
    intents: Seq<LocalLinkIntent<B>>,
    events: Seq<LinkEvent<B>>,
)
    requires
        forall|i: int| 0 <= i < events.len() ==> (#[trigger] events[i]).leaves_at(peer_id, peer),
    ensures
        ({
            let connected = state.auto_linked(peer_id, peer, intents);
            let now = after_events(connected, events);
            &&& now.links_to_id(peer_id) == now.links_to(peer)
            &&& now.disconnected(peer_id).links == now.without_links_to(peer).links
        }),
{
    lemma_events_leave_at(state.auto_linked(peer_id, peer, intents), events, peer_id, peer);
}

/// A peer that disconnected is linked to no more: a second disconnect finds no link, and changes
/// nothing. So no link is reported dead twice.
pub proof fn disconnect_is_final<B>(state: RegistryView<B>, peer_id: Seq<u8>, peer: PeerAddr)
    ensures
        state.disconnected(peer_id).links_to_id(peer_id) == Map::<LinkEnds, Arc<B>>::empty(),
        state.disconnected(peer_id).disconnected(peer_id) == state.disconnected(peer_id),
        state.addrs.contains_key(peer_id) ==> state.disconnected(peer_id).links_to(
            state.addrs[peer_id],
        ) == Map::<LinkEnds, Arc<B>>::empty(),
        state.without_links_to(peer).links_to(peer) == Map::<LinkEnds, Arc<B>>::empty(),
        state.without_links_to(peer).without_links_to(peer) == state.without_links_to(peer),
{
    assert(state.without_links_to(peer).links_to(peer) =~= Map::empty());
    assert(state.without_links_to(peer).without_links_to(peer) =~= state.without_links_to(peer));
    if state.addrs.contains_key(peer_id) {
        assert(state.disconnected(peer_id).links_to(state.addrs[peer_id]) =~= Map::empty());
    }
}

/// A disconnect leaves the links to other peers and the addresses of other peers alone.
pub proof fn disconnect_spares_other_peers<B>(
    state: RegistryView<B>,
    peer_id: Seq<u8>,
    peer: PeerAddr,
    other: PeerAddr,
    other_id: Seq<u8>,
)
    requires
        other != peer,
        other_id != peer_id,
        state.addrs.contains_key(peer_id) ==> state.addrs[peer_id] == peer,
    ensures
        state.without_links_to(peer).links_to(other) == state.links_to(other),
        state.without_links_to(peer).addrs == state.addrs,
        state.disconnected(peer_id).links_to(other) == state.links_to(other),
        state.disconnected(peer_id).addrs.contains_key(other_id) == state.addrs.contains_key(
            other_id,
        ),
        state.addrs.contains_key(other_id) ==> state.disconnected(peer_id).addrs[other_id]
            == state.addrs[other_id],
{
    assert(state.without_links_to(peer).links_to(other) =~= state.links_to(other));
    assert(state.disconnected(peer_id).links_to(other) =~= state.links_to(other));
}

/// An intent of an actor gives that actor a mailbox.
proof fn lemma_first_mailbox<B>(intents: Seq<LocalLinkIntent<B>>, local: ActorId)
    ensures
        crate::remote_link::first_mailbox(intents, local) is Some <==> exists|i: int|
            0 <= i < intents.len() && (#[trigger] intents[i]).local_actor_id == local,
    decreases intents.len(),
{
    if intents.len() > 0 {
        let earlier = intents.drop_last();
        lemma_first_mailbox(earlier, local);
        if crate::remote_link::first_mailbox(earlier, local) is Some {
            let i = choose|i: int|
                0 <= i < earlier.len() && (#[trigger] earlier[i]).local_actor_id == local;
            assert(intents[i].local_actor_id == local);
        } else if intents.last().local_actor_id == local {
            assert(intents[intents.len() - 1].local_actor_id == local);
        } else if exists|i: int|
            0 <= i < intents.len() && (#[trigger] intents[i]).local_actor_id == local {
            let i = choose|i: int|
                0 <= i < intents.len() && (#[trigger] intents[i]).local_actor_id == local;
            assert(earlier[i].local_actor_id == local);
        }
    }
}

/// A peer that connects is linked to exactly the local actors that want it: each of them has a
/// link to the actor that stands for the peer, every earlier link stays as it was, and no other
/// link appears.
pub proof fn connect_links_every_intent<B>(
    state: RegistryView<B>,
    peer_id: Seq<u8>,
    peer: PeerAddr,
    intents: Seq<LocalLinkIntent<B>>,
    link: Link,
)
    ensures
        ({
            let connected = state.auto_linked(peer_id, peer, intents);
            let wanted = link.peer == peer && link.remote == crate::wire::peer_actor(peer_id)
                && exists|i: int|
                0 <= i < intents.len() && (#[trigger] intents[i]).local_actor_id == link.local;
            &&& connected.links.contains_key(link) <==> state.links.contains_key(link) || wanted
            &&& state.links.contains_key(link) ==> connected.links[link] == state.links[link]
            &&& connected.addrs == state.addrs.insert(peer_id, peer)
        }),
{
    lemma_first_mailbox(intents, link.local);
}

/// A peer that connects again finds the links that it has: nothing changes, and no actor is told.
pub proof fn connect_again_changes_nothing<B>(
    state: RegistryView<B>,
    peer_id: Seq<u8>,
    peer: PeerAddr,
    intents: Seq<LocalLinkIntent<B>>,
)
    ensures
        ({
            let connected = state.auto_linked(peer_id, peer, intents);
            &&& connected.auto_linked(peer_id, peer, intents) == connected
            &&& connected.auto_established(peer_id, peer, intents).len() == 0
        }),
{
    let connected = state.auto_linked(peer_id, peer, intents);
    assert(connected.auto_linked(peer_id, peer, intents) =~= connected);
    lemma_no_signal(connected, peer_id, peer, intents, intents.len() as int);
    assert(intents.take(intents.len() as int) =~= intents);
}

proof fn lemma_no_signal<B>(
    connected: RegistryView<B>,
    peer_id: Seq<u8>,
    peer: PeerAddr,
    intents: Seq<LocalLinkIntent<B>>,
    n: int,
)
    requires
        0 <= n <= intents.len(),
        connected.auto_linked(peer_id, peer, intents) == connected,
    ensures
        connected.auto_established(peer_id, peer, intents.take(n)).len() == 0,
    decreases n,
{
    if n > 0 {
        lemma_no_signal(connected, peer_id, peer, intents, n - 1);
        assert(intents.take(n).drop_last() =~= intents.take(n - 1));
        let link = Link {
            peer,
            remote: crate::wire::peer_actor(peer_id),
            local: intents[n - 1].local_actor_id,
        };
        lemma_first_mailbox(intents, link.local);
        assert(connected.auto_linked(peer_id, peer, intents).links.contains_key(link));
    }
}

/// When a peer connects, each new link is told once to its mailbox, and nothing else is told.
/// `new_links` are the new links in the order in which they are told.
pub proof fn connect_tells_of_each_new_link<B>(
    state: RegistryView<B>,
    peer_id: Seq<u8>,
    peer: PeerAddr,
    intents: Seq<LocalLinkIntent<B>>,
) -> (new_links: Seq<Link>)
    ensures
        ({
            let connected = state.auto_linked(peer_id, peer, intents);
            let signals = state.auto_established(peer_id, peer, intents);
            &&& new_links.no_duplicates()
            &&& forall|link: Link|
                #![trigger connected.links.contains_key(link)]
                #![trigger new_links.contains(link)]
                new_links.contains(link) <==> connected.links.contains_key(link)
                    && !state.links.contains_key(link)
            &&& signals.len() == new_links.len()
            &&& forall|i: int|
                0 <= i < signals.len() ==> #[trigger] signals[i] == (LinkEstablished {
                    mailbox: connected.links[new_links[i]],
                    remote_actor_id: new_links[i].remote,
                })
        }),
    decreases intents.len(),
{
    let connected = state.auto_linked(peer_id, peer, intents);
    if intents.len() == 0 {
        assert(connected.links =~= state.links);
        Seq::empty()
    } else {
        let earlier = intents.drop_last();
        let intent = intents.last();
        let told = connect_tells_of_each_new_link(state, peer_id, peer, earlier);
        crate::remote_link::lemma_auto_linked_step(state, peer_id, peer, earlier, intent);
        assert(earlier.push(intent) =~= intents);
        let before = state.auto_linked(peer_id, peer, earlier);
        let link = Link {
            peer,
            remote: crate::wire::peer_actor(peer_id),
            local: intent.local_actor_id,
        };
        if before.links.contains_key(link) {
            told
        } else {
            assert(!told.contains(link));
            let new_links = told.push(link);
            assert forall|l: Link| #[trigger] new_links.contains(l) == (told.contains(l) || l
                == link) by {
                if told.contains(l) {
                    assert(new_links[told.index_of(l)] == l);
                }
                assert(new_links[told.len() as int] == link);
            }
            assert forall|i: int| 0 <= i < told.len() implies before.links.contains_key(
                #[trigger] told[i],
            ) by {
                assert(told.contains(told[i]));
            }
            new_links
        }
    }
}

/// The intents of a table with one more are those that it had and that one.
proof fn lemma_all_intents_with<B>(
    table: Seq<(Seq<char>, Seq<LocalLinkIntent<B>>)>,
    i: int,
    intent: LocalLinkIntent<B>,
    wanted: LocalLinkIntent<B>,
)
    requires
        0 <= i < table.len(),
        wanted == intent || crate::remote_link::all_intents(table).contains(wanted),
    ensures
        crate::remote_link::all_intents(
            table.update(i, (table[i].0, table[i].1.push(intent))),
        ).contains(wanted),
    decreases table.len(),
{
    let after = table.update(i, (table[i].0, table[i].1.push(intent)));
    let earlier = table.drop_last();
    let last = table.last().1;
    let all = crate::remote_link::all_intents(after);
    let head = crate::remote_link::all_intents(after.drop_last());
    let tail = after.last().1;
    assert(all == head + tail);
    let in_tail = last.contains(wanted) || (wanted == intent && i == table.len() - 1);
    if in_tail {
        if last.contains(wanted) {
            let k = choose|k: int| 0 <= k < last.len() && last[k] == wanted;
            assert(tail[k] == wanted);
            assert(all[head.len() + k] == wanted);
        } else {
            assert(tail[last.len() as int] == wanted);
            assert(all[(head.len() + last.len()) as int] == wanted);
        }
    } else {
        if wanted != intent {
            let before = crate::remote_link::all_intents(table);
            let k = choose|k: int| 0 <= k < before.len() && before[k] == wanted;
            let first = crate::remote_link::all_intents(earlier);
            assert(before == first + last);
            if k >= first.len() {
                assert(last[k - first.len()] == wanted);
            }
            assert(first[k] == wanted);
        }
        if i < table.len() - 1 {
            lemma_all_intents_with(earlier, i, intent, wanted);
            assert(after.drop_last() =~= earlier.update(
                i,
                (earlier[i].0, earlier[i].1.push(intent)),
            ));
        } else {
            assert(after.drop_last() =~= earlier);
        }
        let k = choose|k: int| 0 <= k < head.len() && head[k] == wanted;
        assert(all[k] == wanted);
    }
}

/// A local actor that was registered is linked to every peer that connects afterwards, and so is
/// every actor that was registered before.
pub proof fn registered_actor_is_linked<B>(
    table: Seq<(Seq<char>, Seq<LocalLinkIntent<B>>)>,
    name: Seq<char>,
    intent: LocalLinkIntent<B>,
    wanted: LocalLinkIntent<B>,
    state: RegistryView<B>,
    peer_id: Seq<u8>,
    peer: PeerAddr,
)
    requires
        wanted == intent || crate::remote_link::all_intents(table).contains(wanted),
    ensures
        state.auto_linked(
            peer_id,
            peer,
            crate::remote_link::all_intents(crate::remote_link::table_with(table, name, intent)),
        ).links.contains_key(
            Link {
                peer,
                remote: crate::wire::peer_actor(peer_id),
                local: wanted.local_actor_id,
            },
        ),
{
    let after = crate::remote_link::table_with(table, name, intent);
    let all = crate::remote_link::all_intents(after);
    if crate::assoc_map::has_key(table, name) {
        let i = crate::assoc_map::index_of_key(table, name);
        lemma_all_intents_with(table, i, intent, wanted);
    } else {
        let before = crate::remote_link::all_intents(table);
        assert(after.drop_last() =~= table);
        assert(all == before + seq![intent]);
        if wanted == intent {
            assert(all[before.len() as int] == wanted);
        } else {
            let k = choose|k: int| 0 <= k < before.len() && before[k] == wanted;
            assert(all[k] == wanted);
        }
    }
    let k = choose|k: int| 0 <= k < all.len() && all[k] == wanted;
    assert(all[k].local_actor_id == wanted.local_actor_id);
    lemma_first_mailbox(all, wanted.local_actor_id);
}

/// A new registry has no link and knows no peer.
pub proof fn registry_starts_empty<B>(link: Link, peer_id: Seq<u8>)
    ensures
        !RegistryView::<B>::empty().links.contains_key(link),
        !RegistryView::<B>::empty().addrs.contains_key(peer_id),
{
}

/// Linking adds the link, and no other. A link that was there keeps its mailbox; the new one gets
/// the mailbox that it came with.
pub proof fn link_adds_exactly_one_link<B>(
    state: RegistryView<B>,
    link: Link,
    mailbox: Arc<B>,
    other: Link,
)
    ensures
        ({
            let after = state.linked(link, mailbox);
            &&& after.links.contains_key(other) <==> state.links.contains_key(other) || other
                == link
            &&& state.links.contains_key(other) ==> after.links[other] == state.links[other]
            &&& !state.links.contains_key(link) ==> after.links[link] == mailbox
            &&& after.addrs == state.addrs
        }),
{
}

/// Unlinking removes the link, and no other.
pub proof fn unlink_removes_exactly_one_link<B>(state: RegistryView<B>, link: Link, other: Link)
    ensures
        ({
            let after = state.unlinked(link);
            &&& after.links.contains_key(other) <==> state.links.contains_key(other) && other
                != link
            &&& after.links.contains_key(other) ==> after.links[other] == state.links[other]
            &&& after.addrs == state.addrs
        }),
{
}

/// The address of a peer is the one that it was last seen at, until it is forgotten; no link and
/// no other peer is touched by that.
pub proof fn peer_is_where_it_was_last_seen<B>(
    state: RegistryView<B>,
    peer_id: Seq<u8>,
    peer: PeerAddr,
    other_id: Seq<u8>,
)
    ensures
        ({
            let seen = state.seen_at(peer_id, peer);
            &&& seen.addrs.contains_key(peer_id)
            &&& seen.addrs[peer_id] == peer
            &&& seen.links == state.links
            &&& other_id != peer_id ==> {
                &&& seen.addrs.contains_key(other_id) <==> state.addrs.contains_key(other_id)
                &&& state.addrs.contains_key(other_id) ==> seen.addrs[other_id]
                    == state.addrs[other_id]
            }
        }),
        ({
            let forgotten = state.forgotten(peer_id);
            &&& !forgotten.addrs.contains_key(peer_id)
            &&& forgotten.links == state.links
            &&& other_id != peer_id ==> {
                &&& forgotten.addrs.contains_key(other_id) <==> state.addrs.contains_key(other_id)
                &&& state.addrs.contains_key(other_id) ==> forgotten.addrs[other_id]
                    == state.addrs[other_id]
            }
        }),
{
}

/// A disconnect by address removes the links to that address, and no other; the addresses stay.
pub proof fn disconnect_by_addr_removes_the_links_there<B>(
    state: RegistryView<B>,
    peer: PeerAddr,
    link: Link,
)
    ensures
        ({
            let after = state.without_links_to(peer);
            &&& after.links.contains_key(link) <==> state.links.contains_key(link) && link.peer
                != peer
            &&& after.links.contains_key(link) ==> after.links[link] == state.links[link]
            &&& after.addrs == state.addrs
        }),
{
}

/// A disconnect by identity removes the links to the address where the peer was last seen, and no
/// other, and forgets that address, and no other. Of a peer that is not known it removes nothing.
pub proof fn disconnect_by_id_removes_the_links_there<B>(
    state: RegistryView<B>,
    peer_id: Seq<u8>,
    link: Link,
    other_id: Seq<u8>,
)
    ensures
        ({
            let after = state.disconnected(peer_id);
            let known = state.addrs.contains_key(peer_id);
            &&& after.links.contains_key(link) <==> state.links.contains_key(link) && !(known
                && link.peer == state.addrs[peer_id])
            &&& after.links.contains_key(link) ==> after.links[link] == state.links[link]
            &&& after.addrs.contains_key(other_id) <==> state.addrs.contains_key(other_id)
                && other_id != peer_id
            &&& after.addrs.contains_key(other_id) ==> after.addrs[other_id]
                == state.addrs[other_id]
        }),
{
}

/// The links to a peer are the links of the registry that lead to its address, each with its
/// mailbox. By identity they are those that lead to where the peer was last seen.
pub proof fn links_to_a_peer_are_those_of_the_registry<B>(
    state: RegistryView<B>,
    peer: PeerAddr,
    peer_id: Seq<u8>,
    remote: ActorId,
    local: ActorId,
)
    ensures
        ({
            let ends = LinkEnds { remote, local };
            let link = Link { peer, remote, local };
            &&& state.links_to(peer).contains_key(ends) <==> state.links.contains_key(link)
            &&& state.links.contains_key(link) ==> state.links_to(peer)[ends] == state.links[link]
        }),
        ({
            let ends = LinkEnds { remote, local };
            let known = state.addrs.contains_key(peer_id);
            let link = Link { peer: state.addrs[peer_id], remote, local };
            &&& state.links_to_id(peer_id).contains_key(ends) <==> known
                && state.links.contains_key(link)
            &&& known && state.links.contains_key(link) ==> state.links_to_id(peer_id)[ends]
                == state.links[link]
        }),
{
}

/// Of the links to a peer at `peer` each has exactly one notice, which names its two actors and
/// goes to its mailbox, and there is no other notice.
proof fn lemma_notices<B>(state: RegistryView<B>, peer: PeerAddr, notices: Seq<LinkDied<B>>)
    requires
        crate::peer_links::notifies_each(notices, state.links_to(peer)),
    ensures
        forall|link: Link| #[trigger]
            state.links.contains_key(link) && link.peer == peer ==> exists|i: int|
                0 <= i < notices.len() && (#[trigger] notices[i]).remote_actor_id == link.remote
                    && notices[i].local_actor_id == link.local,
        forall|i: int|
            0 <= i < notices.len() ==> {
                let link = Link {
                    peer,
                    remote: (#[trigger] notices[i]).remote_actor_id,
                    local: notices[i].local_actor_id,
                };
                &&& state.links.contains_key(link)
                &&& notices[i].mailbox == state.links[link]
                &&& notices[i].reason == ActorStopReason::PeerDisconnected
            },
        forall|i: int, j: int|
            0 <= i < j < notices.len() ==> (#[trigger] notices[i]).remote_actor_id != (
            #[trigger] notices[j]).remote_actor_id || notices[i].local_actor_id
                != notices[j].local_actor_id,
{
    let links = state.links_to(peer);
    assert forall|link: Link| #[trigger]
        state.links.contains_key(link) && link.peer == peer implies exists|i: int|
        0 <= i < notices.len() && (#[trigger] notices[i]).remote_actor_id == link.remote
            && notices[i].local_actor_id == link.local by {
        let ends = LinkEnds { remote: link.remote, local: link.local };
        assert(link == Link { peer, remote: ends.remote, local: ends.local });
        assert(links.contains_key(ends));
        let i = choose|i: int| 0 <= i < notices.len() && (#[trigger] notices[i]).ends() == ends;
        assert(notices[i].remote_actor_id == link.remote);
    }
    assert forall|i: int| 0 <= i < notices.len() implies {
        let link = Link {
            peer,
            remote: (#[trigger] notices[i]).remote_actor_id,
            local: notices[i].local_actor_id,
        };
        &&& state.links.contains_key(link)
        &&& notices[i].mailbox == state.links[link]
        &&& notices[i].reason == ActorStopReason::PeerDisconnected
    } by {
        assert(links.contains_key(notices[i].ends()));
    }
    assert forall|i: int, j: int| 0 <= i < j < notices.len() implies (
    #[trigger] notices[i]).remote_actor_id != (#[trigger] notices[j]).remote_actor_id
        || notices[i].local_actor_id != notices[j].local_actor_id by {
        assert(notices[i].ends() != notices[j].ends());
    }
}

/// When a peer disconnects, as told by its address, every link that is removed is reported, once,
/// to its mailbox, and nothing else is reported.
pub proof fn disconnect_by_addr_reports_what_it_removes<B>(
    state: RegistryView<B>,
    peer: PeerAddr,
    notices: Seq<LinkDied<B>>,
)
    requires
        crate::peer_links::notifies_each(notices, state.links_to(peer)),
    ensures
        forall|link: Link| #[trigger]
            state.links.contains_key(link) && !state.without_links_to(peer).links.contains_key(link)
                <==> link.peer == peer && exists|i: int|
                0 <= i < notices.len() && (#[trigger] notices[i]).remote_actor_id == link.remote
                    && notices[i].local_actor_id == link.local,
        forall|i: int|
            0 <= i < notices.len() ==> {
                let link = Link {
                    peer,
                    remote: (#[trigger] notices[i]).remote_actor_id,
                    local: notices[i].local_actor_id,
                };
                &&& state.links.contains_key(link)
                &&& notices[i].mailbox == state.links[link]
                &&& notices[i].reason == ActorStopReason::PeerDisconnected
            },
        forall|i: int, j: int|
            0 <= i < j < notices.len() ==> (#[trigger] notices[i]).remote_actor_id != (
            #[trigger] notices[j]).remote_actor_id || notices[i].local_actor_id
                != notices[j].local_actor_id,
{
    lemma_notices(state, peer, notices);
    assert forall|link: Link| #[trigger]
        state.links.contains_key(link) && !state.without_links_to(peer).links.contains_key(link)
            <==> link.peer == peer && exists|i: int|
            0 <= i < notices.len() && (#[trigger] notices[i]).remote_actor_id == link.remote
                && notices[i].local_actor_id == link.local by {
        if link.peer == peer && exists|i: int|
            0 <= i < notices.len() && (#[trigger] notices[i]).remote_actor_id == link.remote
                && notices[i].local_actor_id == link.local {
            let i = choose|i: int|
                0 <= i < notices.len() && (#[trigger] notices[i]).remote_actor_id == link.remote
                    && notices[i].local_actor_id == link.local;
            assert(link == Link {
                peer,
                remote: notices[i].remote_actor_id,
                local: notices[i].local_actor_id,
            });
        }
    }
}

/// When a peer disconnects, as told by its identity, every link that is removed is reported, once,
/// to its mailbox, and nothing else is reported. Of a peer that is not known nothing is reported.
pub proof fn disconnect_by_id_reports_what_it_removes<B>(
    state: RegistryView<B>,
    peer_id: Seq<u8>,
    notices: Seq<LinkDied<B>>,
)
    requires
        crate::peer_links::notifies_each(notices, state.links_to_id(peer_id)),
    ensures
        !state.addrs.contains_key(peer_id) ==> notices.len() == 0,
        forall|link: Link| #[trigger]
            state.links.contains_key(link) && !state.disconnected(peer_id).links.contains_key(link)
                <==> state.addrs.contains_key(peer_id) && link.peer == state.addrs[peer_id]
                && exists|i: int|
                0 <= i < notices.len() && (#[trigger] notices[i]).remote_actor_id == link.remote
                    && notices[i].local_actor_id == link.local,
        forall|i: int|
            0 <= i < notices.len() ==> {
                let link = Link {
                    peer: state.addrs[peer_id],
                    remote: (#[trigger] notices[i]).remote_actor_id,
                    local: notices[i].local_actor_id,
                };
                &&& state.links.contains_key(link)
                &&& notices[i].mailbox == state.links[link]
                &&& notices[i].reason == ActorStopReason::PeerDisconnected
            },
        forall|i: int, j: int|
            0 <= i < j < notices.len() ==> (#[trigger] notices[i]).remote_actor_id != (
            #[trigger] notices[j]).remote_actor_id || notices[i].local_actor_id
                != notices[j].local_actor_id,
{
    if state.addrs.contains_key(peer_id) {
        disconnect_by_addr_reports_what_it_removes(state, state.addrs[peer_id], notices);
    } else if notices.len() > 0 {
        assert(state.links_to_id(peer_id).contains_key(notices[0].ends()));
    }
}

/// The first intent of an actor gives its mailbox.
proof fn lemma_first_mailbox_is_of_the_first<B>(intents: Seq<LocalLinkIntent<B>>, i: int)
    requires
        0 <= i < intents.len(),
        forall|j: int|
            0 <= j < i ==> (#[trigger] intents[j]).local_actor_id != intents[i].local_actor_id,
    ensures
        crate::remote_link::first_mailbox(intents, intents[i].local_actor_id) == Some(
            intents[i].mailbox,
        ),
    decreases intents.len(),
{
    let local = intents[i].local_actor_id;
    let earlier = intents.drop_last();
    if i < earlier.len() {
        assert forall|j: int| 0 <= j < i implies (#[trigger] earlier[j]).local_actor_id
            != earlier[i].local_actor_id by {
            assert(intents[j].local_actor_id != local);
        }
        lemma_first_mailbox_is_of_the_first(earlier, i);
    } else {
        lemma_first_mailbox(earlier, local);
        if crate::remote_link::first_mailbox(earlier, local) is Some {
            let j = choose|j: int|
                0 <= j < earlier.len() && (#[trigger] earlier[j]).local_actor_id == local;
            assert(intents[j].local_actor_id == local);
        }
    }
}

/// A local actor that wants a link to a peer that connects has one, with the mailbox that it first
/// gave, unless it was linked already, and then with the mailbox that it had.
pub proof fn connect_gives_each_actor_its_first_mailbox<B>(
    state: RegistryView<B>,
    peer_id: Seq<u8>,
    peer: PeerAddr,
    intents: Seq<LocalLinkIntent<B>>,
    i: int,
)
    requires
        0 <= i < intents.len(),
        forall|j: int|
            0 <= j < i ==> (#[trigger] intents[j]).local_actor_id != intents[i].local_actor_id,
    ensures
        ({
            let link = Link {
                peer,
                remote: crate::wire::peer_actor(peer_id),
                local: intents[i].local_actor_id,
            };
            let connected = state.auto_linked(peer_id, peer, intents);
            &&& connected.links.contains_key(link)
            &&& !state.links.contains_key(link) ==> connected.links[link] == intents[i].mailbox
            &&& state.links.contains_key(link) ==> connected.links[link] == state.links[link]
        }),
{
    lemma_first_mailbox_is_of_the_first(intents, i);
}

/// When a peer connects, the signals follow the intents: one for the first intent of each actor
/// that is not linked yet, to the mailbox of that intent, about the actor that stands for the
/// peer. `at` are the places of those intents.
pub proof fn connect_signals_follow_the_intents<B>(
    state: RegistryView<B>,
    peer_id: Seq<u8>,
    peer: PeerAddr,
    intents: Seq<LocalLinkIntent<B>>,
) -> (at: Seq<int>)
    ensures
        ({
            let signals = state.auto_established(peer_id, peer, intents);
            let remote = crate::wire::peer_actor(peer_id);
            &&& signals.len() == at.len()
            &&& forall|k: int|
                0 <= k < at.len() ==> {
                    &&& 0 <= #[trigger] at[k] < intents.len()
                    &&& signals[k].mailbox == intents[at[k]].mailbox
                    &&& signals[k].remote_actor_id == remote
                }
            &&& forall|k: int, m: int| 0 <= k < m < at.len() ==> #[trigger] at[k] < #[trigger] at[m]
            &&& forall|i: int|
                0 <= i < intents.len() ==> (#[trigger] at.contains(i) <==> {
                    &&& !state.links.contains_key(
                        Link { peer, remote, local: intents[i].local_actor_id },
                    )
                    &&& forall|j: int|
                        0 <= j < i ==> (#[trigger] intents[j]).local_actor_id
                            != intents[i].local_actor_id
                })
        }),
    decreases intents.len(),
{
    if intents.len() == 0 {
        Seq::empty()
    } else {
        let earlier = intents.drop_last();
        let intent = intents.last();
        let last = intents.len() - 1;
        let remote = crate::wire::peer_actor(peer_id);
        let before = connect_signals_follow_the_intents(state, peer_id, peer, earlier);
        let link = Link { peer, remote, local: intent.local_actor_id };
        lemma_first_mailbox(earlier, link.local);
        let told = !state.links.contains_key(link) && crate::remote_link::first_mailbox(
            earlier,
            link.local,
        ) is None;
        let at = if told {
            before.push(last)
        } else {
            before
        };
        assert forall|k: int| 0 <= k < before.len() implies 0 <= #[trigger] before[k] < last by {}
        assert forall|i: int| 0 <= i < last implies at.contains(i) == #[trigger] before.contains(
            i,
        ) by {
            if before.contains(i) {
                let k = choose|k: int| 0 <= k < before.len() && before[k] == i;
                assert(at[k] == i);
            }
            if at.contains(i) {
                let k = choose|k: int| 0 <= k < at.len() && at[k] == i;
                assert(before[k] == i);
            }
        }
        assert(at.contains(last) == told) by {
            if told {
                assert(at[before.len() as int] == last);
            } else if at.contains(last) {
                let k = choose|k: int| 0 <= k < before.len() && before[k] == last;
                assert(0 <= before[k] < last);
            }
        }
        assert forall|i: int| 0 <= i < intents.len() implies (#[trigger] at.contains(i) <==> {
            &&& !state.links.contains_key(Link { peer, remote, local: intents[i].local_actor_id })
            &&& forall|j: int|
                0 <= j < i ==> (#[trigger] intents[j]).local_actor_id != intents[i].local_actor_id
        }) by {
            if i < last {
                assert(at.contains(i) == before.contains(i));
                assert(earlier[i] == intents[i]);
                assert forall|j: int| 0 <= j < i implies earlier[j] == #[trigger] intents[j] by {}
                if forall|j: int|
                    0 <= j < i ==> (#[trigger] earlier[j]).local_actor_id
                        != earlier[i].local_actor_id {
                    assert forall|j: int| 0 <= j < i implies (#[trigger] intents[j]).local_actor_id
                        != intents[i].local_actor_id by {
                        assert(earlier[j].local_actor_id != earlier[i].local_actor_id);
                    }
                } else {
                    let j = choose|j: int|
                        0 <= j < i && (#[trigger] earlier[j]).local_actor_id
                            == earlier[i].local_actor_id;
                    assert(intents[j].local_actor_id == intents[i].local_actor_id);
                }
            } else {
                if crate::remote_link::first_mailbox(earlier, link.local) is Some {
                    let j = choose|j: int|
                        0 <= j < earlier.len() && (#[trigger] earlier[j]).local_actor_id
                            == link.local;
                    assert(intents[j].local_actor_id == link.local);
                } else {
                    assert forall|j: int| 0 <= j < i implies (#[trigger] intents[j]).local_actor_id
                        != intents[i].local_actor_id by {
                        assert(earlier[j] == intents[j]);
                    }
                }
            }
        }
        at
    }
}

/// The intents of a table are those of its names, name after name.
pub proof fn all_intents_are_those_of_the_names<B>(
    table: Seq<(Seq<char>, Seq<LocalLinkIntent<B>>)>,
)
    ensures
        crate::remote_link::all_intents(table) == table.map_values(
            |entry: (Seq<char>, Seq<LocalLinkIntent<B>>)| entry.1,
        ).flatten(),
    decreases table.len(),
{
    let intents_of = |entry: (Seq<char>, Seq<LocalLinkIntent<B>>)| entry.1;
    if table.len() == 0 {
        assert(table.map_values(intents_of).flatten() =~= Seq::empty());
    } else {
        let earlier = table.drop_last();
        all_intents_are_those_of_the_names(earlier);
        earlier.map_values(intents_of).lemma_flatten_push(table.last().1);
        assert(table.map_values(intents_of) =~= earlier.map_values(intents_of).push(
            table.last().1,
        ));
    }
}

/// Registering under a name that is there puts the intent behind those of the name; under a new
/// name the name comes last, with that one intent. The other names stay as they are.
pub proof fn registration_goes_under_its_name<B>(
    table: Seq<(Seq<char>, Seq<LocalLinkIntent<B>>)>,
    name: Seq<char>,
    intent: LocalLinkIntent<B>,
)
    ensures
        ({
            let after = crate::remote_link::table_with(table, name, intent);
            if exists|i: int| 0 <= i < table.len() && (#[trigger] table[i]).0 == name {
                exists|i: int|
                    0 <= i < table.len() && (#[trigger] table[i]).0 == name && after
                        == table.update(i, (name, table[i].1.push(intent)))
            } else {
                after == table.push((name, seq![intent]))
            }
        }),
{
    if crate::assoc_map::has_key(table, name) {
        let i = crate::assoc_map::index_of_key(table, name);
        assert(table[i].0 == name);
    }
}

proof fn lemma_update_adds_one<B>(
    table: Seq<(Seq<char>, Seq<LocalLinkIntent<B>>)>,
    i: int,
    name: Seq<char>,
    intent: LocalLinkIntent<B>,
)
    requires
        0 <= i < table.len(),
    ensures
        crate::remote_link::all_intents(
            table.update(i, (name, table[i].1.push(intent))),
        ).to_multiset() == crate::remote_link::all_intents(table).to_multiset().insert(intent),
    decreases table.len(),
{
    broadcast use vstd::seq_lib::group_to_multiset_ensures;

    let after = table.update(i, (name, table[i].1.push(intent)));
    let earlier = table.drop_last();
    let head = crate::remote_link::all_intents(earlier);
    let last = table.last().1;
    vstd::seq_lib::lemma_multiset_commutative(head, last);
    if i == table.len() - 1 {
        assert(after.drop_last() =~= earlier);
        assert(head + last.push(intent) =~= (head + last).push(intent));
    } else {
        lemma_update_adds_one(earlier, i, name, intent);
        let more = earlier.update(i, (name, earlier[i].1.push(intent)));
        assert(after.drop_last() =~= more);
        vstd::seq_lib::lemma_multiset_commutative(crate::remote_link::all_intents(more), last);
        assert(head.to_multiset().insert(intent).add(last.to_multiset())
            =~= head.to_multiset().add(last.to_multiset()).insert(intent));
    }
}

/// Registering a local actor adds its intent, with its own mailbox, to those that there were:
/// none is lost, changed or added besides.
pub proof fn registration_adds_exactly_one_intent<B>(
    table: Seq<(Seq<char>, Seq<LocalLinkIntent<B>>)>,
    name: Seq<char>,
    intent: LocalLinkIntent<B>,
)
    ensures
        crate::remote_link::all_intents(
            crate::remote_link::table_with(table, name, intent),
        ).to_multiset() == crate::remote_link::all_intents(table).to_multiset().insert(intent),
{
    broadcast use vstd::seq_lib::group_to_multiset_ensures;

    if crate::assoc_map::has_key(table, name) {
        let i = crate::assoc_map::index_of_key(table, name);
        lemma_update_adds_one(table, i, name, intent);
    } else {
        let before = crate::remote_link::all_intents(table);
        let after = crate::remote_link::table_with(table, name, intent);
        assert(after.drop_last() =~= table);
        assert(crate::remote_link::all_intents(after) =~= before.push(intent));
    }
}

/// A local actor that is registered for the first time is linked, with the mailbox that it
/// registered with, to every peer that connects afterwards and that it was not linked to.
pub proof fn registered_actor_is_told_in_its_mailbox<B>(
    table: Seq<(Seq<char>, Seq<LocalLinkIntent<B>>)>,
    name: Seq<char>,
    intent: LocalLinkIntent<B>,
    state: RegistryView<B>,
    peer_id: Seq<u8>,
    peer: PeerAddr,
)
    requires
        forall|i: int|
            0 <= i < crate::remote_link::all_intents(table).len() ==> (
            #[trigger] crate::remote_link::all_intents(table)[i]).local_actor_id
                != intent.local_actor_id,
        !state.links.contains_key(
            Link {
                peer,
                remote: crate::wire::peer_actor(peer_id),
                local: intent.local_actor_id,
            },
        ),
    ensures
        ({
            let link = Link {
                peer,
                remote: crate::wire::peer_actor(peer_id),
                local: intent.local_actor_id,
            };
            let connected = state.auto_linked(
                peer_id,
                peer,
                crate::remote_link::all_intents(
                    crate::remote_link::table_with(table, name, intent),
                ),
            );
            &&& connected.links.contains_key(link)
            &&& connected.links[link] == intent.mailbox
        }),
{
    broadcast use vstd::seq_lib::group_to_multiset_ensures;

    let before = crate::remote_link::all_intents(table);
    let all = crate::remote_link::all_intents(crate::remote_link::table_with(table, name, intent));
    registration_adds_exactly_one_intent(table, name, intent);
    assert(all.to_multiset().count(intent) > 0);
    let i = choose|i: int| 0 <= i < all.len() && all[i] == intent;
    let first = lemma_first_of(all, i);
    assert(all.contains(all[first]));
    assert(all.to_multiset().count(all[first]) > 0);
    if all[first] != intent {
        assert(before.to_multiset().count(all[first]) > 0);
        let k = choose|k: int| 0 <= k < before.len() && before[k] == all[first];
        assert(before[k].local_actor_id != intent.local_actor_id);
    }
    connect_gives_each_actor_its_first_mailbox(state, peer_id, peer, all, first);
}

/// The first intent of the actor of the intent at `i`.
proof fn lemma_first_of<B>(intents: Seq<LocalLinkIntent<B>>, i: int) -> (first: int)
    requires
        0 <= i < intents.len(),
    ensures
        0 <= first <= i,
        intents[first].local_actor_id == intents[i].local_actor_id,
        forall|j: int|
            0 <= j < first ==> (#[trigger] intents[j]).local_actor_id
                != intents[first].local_actor_id,
    decreases i,
{
    if exists|j: int| 0 <= j < i && (#[trigger] intents[j]).local_actor_id
        == intents[i].local_actor_id {
        let j = choose|j: int|
            0 <= j < i && (#[trigger] intents[j]).local_actor_id == intents[i].local_actor_id;
        lemma_first_of(intents, j)
    } else {
        i
    }
}

} // verus!
