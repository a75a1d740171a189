//! The links to the actors of all peers, and the local actors that want one to every peer.

use crate::assoc_map::AssocMap;
use crate::ids::{ActorId, PeerAddr, PeerId};
use crate::peer_links::{LinkDied, LinkEnds, RemoteActorLinks};
use crate::wire::peer_actor_id;
use std::sync::Arc;
use vstd::prelude::*;

verus! {

/// A link: a local actor learns when a remote actor of some peer is gone.
pub struct Link {
    pub peer: PeerAddr,
    pub remote: ActorId,
    pub local: ActorId,
}

/// What a registry holds: the mailbox of the local actor of each link, and the address that
/// each known peer was last seen at.
#[verifier::ext_equal]
#[verifier::reject_recursive_types(B)]
pub struct RegistryView<B> {
    pub links: Map<Link, Arc<B>>,
    pub addrs: Map<Seq<u8>, PeerAddr>,
}

impl<B> RegistryView<B> {
    pub open spec fn empty() -> Self {
        RegistryView { links: Map::empty(), addrs: Map::empty() }
    }

    /// With the link `link` to `mailbox`, unless the link is there already.
    pub open spec fn linked(self, link: Link, mailbox: Arc<B>) -> Self {
        if self.links.contains_key(link) {
            self
        } else {
            RegistryView { links: self.links.insert(link, mailbox), ..self }
        }
    }

    /// Without the link `link`.
    pub open spec fn unlinked(self, link: Link) -> Self {
        RegistryView { links: self.links.remove(link), ..self }
    }

    /// With the address that `peer_id` was seen at.
    pub open spec fn seen_at(self, peer_id: Seq<u8>, peer: PeerAddr) -> Self {
        RegistryView { addrs: self.addrs.insert(peer_id, peer), ..self }
    }

    /// Without the address of `peer_id`.
    pub open spec fn forgotten(self, peer_id: Seq<u8>) -> Self {
        RegistryView { addrs: self.addrs.remove(peer_id), ..self }
    }

    /// Without the links to the actors at `peer`.
    pub open spec fn without_links_to(self, peer: PeerAddr) -> Self {
        RegistryView {
            links: self.links.restrict(Set::new(|link: Link| link.peer != peer)),
            ..self
        }
    }

    /// The links to the actors at `peer`.
    pub open spec fn links_to(self, peer: PeerAddr) -> Map<LinkEnds, Arc<B>> {
        Map::new(
            |ends: LinkEnds|
                self.links.contains_key(Link { peer, remote: ends.remote, local: ends.local }),
            |ends: LinkEnds| self.links[Link { peer, remote: ends.remote, local: ends.local }],
        )
    }

    /// With the address that `peer_id` was seen at, and with a link from each local actor of
    /// `intents` to the actor that stands for the peer. A link that is there stays as it is; of
    /// several intents of one actor, the first gives the mailbox.
    pub open spec fn auto_linked(
        self,
        peer_id: Seq<u8>,
        peer: PeerAddr,
        intents: Seq<LocalLinkIntent<B>>,
    ) -> Self {
        let remote = crate::wire::peer_actor(peer_id);
        RegistryView {
            links: Map::new(
                |link: Link|
                    self.links.contains_key(link) || (link.peer == peer && link.remote == remote
                        && first_mailbox(intents, link.local) is Some),
                |link: Link|
                    if self.links.contains_key(link) {
                        self.links[link]
                    } else {
                        first_mailbox(intents, link.local)->0
                    },
            ),
            addrs: self.addrs.insert(peer_id, peer),
        }
    }

    /// The signals for the links that `auto_linked` adds: one for each local actor that had none,
    /// in the order of `intents`.
    pub open spec fn auto_established(
        self,
        peer_id: Seq<u8>,
        peer: PeerAddr,
        intents: Seq<LocalLinkIntent<B>>,
    ) -> Seq<LinkEstablished<B>>
        decreases intents.len(),
    {
        if intents.len() == 0 {
            Seq::empty()
        } else {
            let remote = crate::wire::peer_actor(peer_id);
            let earlier = intents.drop_last();
            let intent = intents.last();
            let link = Link { peer, remote, local: intent.local_actor_id };
            let signals = self.auto_established(peer_id, peer, earlier);
            if self.links.contains_key(link) || first_mailbox(earlier, link.local) is Some {
                signals
            } else {
                signals.push(LinkEstablished { mailbox: intent.mailbox, remote_actor_id: remote })
            }
        }
    }

    /// The links to the actors of the peer `peer_id`, as far as its address is known.
    pub open spec fn links_to_id(self, peer_id: Seq<u8>) -> Map<LinkEnds, Arc<B>> {
        if self.addrs.contains_key(peer_id) {
            self.links_to(self.addrs[peer_id])
        } else {
            Map::empty()
        }
    }

    /// Without the address of `peer_id` and without the links to the actors there.
    pub open spec fn disconnected(self, peer_id: Seq<u8>) -> Self {
        if self.addrs.contains_key(peer_id) {
            self.forgotten(peer_id).without_links_to(self.addrs[peer_id])
        } else {
            self
        }
    }
}

/// The mailbox of the first intent of the actor `local`.
pub open spec fn first_mailbox<B>(intents: Seq<LocalLinkIntent<B>>, local: ActorId) -> Option<
    Arc<B>,
>
    decreases intents.len(),
{
    if intents.len() == 0 {
        None
    } else {
        match first_mailbox(intents.drop_last(), local) {
            Some(mailbox) => Some(mailbox),
            None => if intents.last().local_actor_id == local {
                Some(intents.last().mailbox)
            } else {
                None
            },
        }
    }
}

/// What to tell a local actor: it is now linked to a remote actor.
pub struct LinkEstablished<B> {
    pub mailbox: Arc<B>,
    pub remote_actor_id: ActorId,
}

/// The links between local actors and the actors of remote peers.
pub struct RemoteLinkRegistry<B> {
    links_by_peer: AssocMap<PeerAddr, RemoteActorLinks<B>>,
    peer_id_to_addr: AssocMap<PeerId, PeerAddr>,
}

impl<B> View for RemoteLinkRegistry<B> {
    type V = RegistryView<B>;

    closed spec fn view(&self) -> RegistryView<B> {
        RegistryView {
            links: Map::new(
                |link: Link|
                    self.links_by_peer@.contains_key(link.peer)
                        && self.links_by_peer@[link.peer].links().contains_key(
                        LinkEnds { remote: link.remote, local: link.local },
                    ),
                |link: Link|
                    self.links_by_peer@[link.peer].links()[LinkEnds {
                        remote: link.remote,
                        local: link.local,
                    }],
            ),
            addrs: self.peer_id_to_addr@,
        }
    }
}

impl<B> RemoteLinkRegistry<B> {
    /// Each peer and each remote actor that the registry keeps has a link, and none is kept twice.
    pub closed spec fn wf(self) -> bool {
        &&& self.links_by_peer.wf()
        &&& self.peer_id_to_addr.wf()
        &&& forall|peer: PeerAddr| #[trigger]
            self.links_by_peer@.contains_key(peer) ==> {
                &&& self.links_by_peer@[peer].wf()
                &&& self.links_by_peer@[peer].links() != Map::<LinkEnds, Arc<B>>::empty()
            }
    }

    pub fn new() -> (registry: Self)
        ensures
            registry.wf(),
            registry@ == RegistryView::<B>::empty(),
    {
        let registry = RemoteLinkRegistry {
            links_by_peer: AssocMap::new(),
            peer_id_to_addr: AssocMap::new(),
        };
        assert(registry@ =~= RegistryView::<B>::empty());
        registry
    }

    /// Adds a link, unless it is there already; says whether it was added.
    pub fn link(
        &mut self,
        peer_addr: PeerAddr,
        remote_actor_id: ActorId,
        local_actor_id: ActorId,
        local_mailbox: Arc<B>,
    ) -> (inserted: bool)
        requires
            old(self).wf(),
        ensures
            final(self).wf(),
            ({
                let link = Link { peer: peer_addr, remote: remote_actor_id, local: local_actor_id };
                &&& inserted == !old(self)@.links.contains_key(link)
                &&& final(self)@ == old(self)@.linked(link, local_mailbox)
            }),
    {
        let ghost link = Link { peer: peer_addr, remote: remote_actor_id, local: local_actor_id };
        let ghost before = *self;
        let ghost after = *final(self);
        let by_actor = self.links_by_peer.entry_or_insert(peer_addr, RemoteActorLinks::new());
        let inserted = by_actor.link(remote_actor_id, local_actor_id, local_mailbox);
        proof {
            assert(after@ =~= before@.linked(link, local_mailbox));
            assert(after.links_by_peer@[peer_addr].links().contains_key(
                LinkEnds { remote: remote_actor_id, local: local_actor_id },
            ));
        }
        inserted
    }

    /// Remembers the address of a peer and adds a link to one of its actors.
    pub fn link_with_peer_id(
        &mut self,
        peer_id: &PeerId,
        peer_addr: PeerAddr,
        remote_actor_id: ActorId,
        local_actor_id: ActorId,
        local_mailbox: Arc<B>,
    ) -> (inserted: bool)
        requires
            old(self).wf(),
        ensures
            final(self).wf(),
            ({
                let link = Link { peer: peer_addr, remote: remote_actor_id, local: local_actor_id };
                &&& inserted == !old(self)@.links.contains_key(link)
                &&& final(self)@ == old(self)@.seen_at(peer_id@, peer_addr).linked(
                    link,
                    local_mailbox,
                )
            }),
    {
        self.remember(peer_id, peer_addr);
        self.link(peer_addr, remote_actor_id, local_actor_id, local_mailbox)
    }

    fn remember(&mut self, peer_id: &PeerId, peer_addr: PeerAddr)
        requires
            old(self).wf(),
        ensures
            final(self).wf(),
            final(self)@ == old(self)@.seen_at(peer_id@, peer_addr),
    {
        self.peer_id_to_addr.insert(*peer_id, peer_addr);
        assert(self@ =~= old(self)@.seen_at(peer_id@, peer_addr));
    }

    /// Removes a link, if it is there.
    pub fn unlink(
        &mut self,
        peer_addr: PeerAddr,
        remote_actor_id: ActorId,
        local_actor_id: ActorId,
    )
        requires
            old(self).wf(),
        ensures
            final(self).wf(),
            final(self)@ == old(self)@.unlinked(
                Link { peer: peer_addr, remote: remote_actor_id, local: local_actor_id },
            ),
    {
        let ghost link = Link { peer: peer_addr, remote: remote_actor_id, local: local_actor_id };
        let emptied = match self.links_by_peer.get_mut(&peer_addr) {
            Some(by_actor) => {
                by_actor.unlink(remote_actor_id, local_actor_id);
                by_actor.is_empty()
            },
            None => false,
        };
        assert(self@ =~= old(self)@.unlinked(link));
        if emptied {
            let ghost unlinked = *self;
            assert(forall|ends: LinkEnds|
                !unlinked.links_by_peer@[peer_addr].links().contains_key(ends));
            self.links_by_peer.remove(&peer_addr);
            assert(self@ =~= unlinked@);
        }
    }

    /// Takes out the links to the actors at `peer_addr`; `None` where there is none.
    pub fn take_peer_links_by_addr(&mut self, peer_addr: PeerAddr) -> (taken: Option<
        RemoteActorLinks<B>,
    >)
        requires
            old(self).wf(),
        ensures
            final(self).wf(),
            final(self)@ == old(self)@.without_links_to(peer_addr),
            match taken {
                Some(taken) => {
                    &&& taken.wf()
                    &&& taken.links() == old(self)@.links_to(peer_addr)
                    &&& taken.links() != Map::<LinkEnds, Arc<B>>::empty()
                },
                None => old(self)@.links_to(peer_addr) == Map::<LinkEnds, Arc<B>>::empty(),
            },
    {
        let taken = self.links_by_peer.remove(&peer_addr);
        proof {
            assert(self@ =~= old(self)@.without_links_to(peer_addr));
            if taken is Some {
                assert(taken->0.links() =~= old(self)@.links_to(peer_addr));
            } else {
                assert(old(self)@.links_to(peer_addr) =~= Map::empty());
            }
        }
        taken
    }

    /// Forgets the address of `peer_id` and takes out the links to the actors there; `None` where
    /// the address is not known or no link leads there.
    pub fn take_peer_links_by_id(&mut self, peer_id: &PeerId) -> (taken: Option<
        RemoteActorLinks<B>,
    >)
        requires
            old(self).wf(),
        ensures
            final(self).wf(),
            final(self)@ == old(self)@.disconnected(peer_id@),
            match taken {
                Some(taken) => {
                    &&& taken.wf()
                    &&& taken.links() == old(self)@.links_to_id(peer_id@)
                    &&& taken.links() != Map::<LinkEnds, Arc<B>>::empty()
                },
                None => old(self)@.links_to_id(peer_id@) == Map::<LinkEnds, Arc<B>>::empty(),
            },
    {
        match self.peer_id_to_addr.remove(peer_id) {
            Some(peer_addr) => {
                assert(self@ =~= old(self)@.forgotten(peer_id@));
                self.take_peer_links_by_addr(peer_addr)
            },
            None => {
                assert(self@ =~= old(self)@);
                None
            },
        }
    }
}

/// A local actor that wants a link to every peer that connects.
pub struct LocalLinkIntent<B> {
    pub local_actor_id: ActorId,
    pub mailbox: Arc<B>,
}

/// The local actors that want a link to every peer that connects, by the name that each was
/// registered under.
pub struct LocalLinkIntents<B> {
    by_name: AssocMap<String, Vec<LocalLinkIntent<B>>>,
}

/// The intents of a table of names, one name after the other.
pub open spec fn all_intents<B>(table: Seq<(Seq<char>, Seq<LocalLinkIntent<B>>)>) -> Seq<
    LocalLinkIntent<B>,
>
    decreases table.len(),
{
    if table.len() == 0 {
        Seq::empty()
    } else {
        all_intents(table.drop_last()) + table.last().1
    }
}

/// The table with `intent` added under `name`: behind those of the name, or as a new name.
pub open spec fn table_with<B>(
    table: Seq<(Seq<char>, Seq<LocalLinkIntent<B>>)>,
    name: Seq<char>,
    intent: LocalLinkIntent<B>,
) -> Seq<(Seq<char>, Seq<LocalLinkIntent<B>>)> {
    if crate::assoc_map::has_key(table, name) {
        let i = crate::assoc_map::index_of_key(table, name);
        table.update(i, (name, table[i].1.push(intent)))
    } else {
        table.push((name, seq![intent]))
    }
}

impl<B> View for LocalLinkIntents<B> {
    type V = Seq<(Seq<char>, Seq<LocalLinkIntent<B>>)>;

    /// The names in the order in which they came, each with its intents.
    closed spec fn view(&self) -> Seq<(Seq<char>, Seq<LocalLinkIntent<B>>)> {
        self.by_name.pairs().map_values(
            |pair: (Seq<char>, Vec<LocalLinkIntent<B>>)| (pair.0, pair.1@),
        )
    }
}

impl<B> LocalLinkIntents<B> {
    /// No name is kept twice.
    pub closed spec fn wf(self) -> bool {
        self.by_name.wf()
    }

    pub fn new() -> (intents: Self)
        ensures
            intents.wf(),
            intents@ == Seq::<(Seq<char>, Seq<LocalLinkIntent<B>>)>::empty(),
    {
        let intents = LocalLinkIntents { by_name: AssocMap::new() };
        assert(intents@ =~= Seq::empty());
        intents
    }

    /// All intents of a name stand together: no name occurs twice.
    pub proof fn names_are_distinct(self)
        requires
            self.wf(),
        ensures
            crate::assoc_map::distinct_keys(self@),
            forall|i: int, j: int|
                0 <= i < j < self@.len() ==> (#[trigger] self@[i]).0 != (#[trigger] self@[j]).0,
    {
        let pairs = self.by_name.pairs();
        assert forall|i: int, j: int| 0 <= i < j < self@.len() implies (#[trigger] self@[i]).0 != (
        #[trigger] self@[j]).0 by {
            assert(pairs[i].0 != pairs[j].0);
        }
    }
}

/// Registers a local actor, so that it is linked to every peer that connects from now on.
pub fn register_local_actor<B>(
    intents: &mut LocalLinkIntents<B>,
    name: String,
    local_actor_id: ActorId,
    mailbox: Arc<B>,
)
    requires
        old(intents).wf(),
    ensures
        final(intents).wf(),
        final(intents)@ == table_with(
            old(intents)@,
            name@,
            LocalLinkIntent { local_actor_id, mailbox },
        ),
{
    let ghost before = intents.by_name.pairs();
    let ghost intent = LocalLinkIntent { local_actor_id, mailbox };
    let ghost key = name@;
    let entry = intents.by_name.entry_or_insert(name, Vec::new());
    entry.push(LocalLinkIntent { local_actor_id, mailbox });
    proof {
        let table = old(intents)@;
        if crate::assoc_map::has_key(before, key) {
            let i = crate::assoc_map::index_of_key(before, key);
            assert(table[i].0 == key);
            let j = crate::assoc_map::index_of_key(table, key);
            assert(before[j].0 == key);
            assert(i == j);
        } else if crate::assoc_map::has_key(table, key) {
            assert(before[crate::assoc_map::index_of_key(table, key)].0 == key);
        }
        assert(Seq::<LocalLinkIntent<B>>::empty().push(intent) =~= seq![intent]);
        assert(intents@ =~= table_with(table, key, intent));
    }
}

/// Links two actors; where the link is new, the signal for the local actor is returned.
pub fn link<B>(
    registry: &mut RemoteLinkRegistry<B>,
    peer_addr: PeerAddr,
    remote_actor_id: ActorId,
    local_actor_id: ActorId,
    local_mailbox: Arc<B>,
) -> (signal: Option<LinkEstablished<B>>)
    requires
        old(registry).wf(),
    ensures
        final(registry).wf(),
        ({
            let link = Link { peer: peer_addr, remote: remote_actor_id, local: local_actor_id };
            &&& final(registry)@ == old(registry)@.linked(link, local_mailbox)
            &&& signal == if old(registry)@.links.contains_key(link) {
                None
            } else {
                Some(LinkEstablished { mailbox: local_mailbox, remote_actor_id })
            }
        }),
{
    let inserted = registry.link(
        peer_addr,
        remote_actor_id,
        local_actor_id,
        local_mailbox.clone(),
    );
    if inserted {
        Some(LinkEstablished { mailbox: local_mailbox, remote_actor_id })
    } else {
        None
    }
}

/// Links two actors and remembers the address of the peer; where the link is new, the signal for
/// the local actor is returned.
pub fn link_with_peer_id<B>(
    registry: &mut RemoteLinkRegistry<B>,
    peer_id: &PeerId,
    peer_addr: PeerAddr,
    remote_actor_id: ActorId,
    local_actor_id: ActorId,
    local_mailbox: Arc<B>,
) -> (signal: Option<LinkEstablished<B>>)
    requires
        old(registry).wf(),
    ensures
        final(registry).wf(),
        ({
            let link = Link { peer: peer_addr, remote: remote_actor_id, local: local_actor_id };
            &&& final(registry)@ == old(registry)@.seen_at(peer_id@, peer_addr).linked(
                link,
                local_mailbox,
            )
            &&& signal == if old(registry)@.links.contains_key(link) {
                None
            } else {
                Some(LinkEstablished { mailbox: local_mailbox, remote_actor_id })
            }
        }),
{
    let inserted = registry.link_with_peer_id(
        peer_id,
        peer_addr,
        remote_actor_id,
        local_actor_id,
        local_mailbox.clone(),
    );
    if inserted {
        Some(LinkEstablished { mailbox: local_mailbox, remote_actor_id })
    } else {
        None
    }
}

/// Linking one more intent.
pub(crate) proof fn lemma_auto_linked_step<B>(
    start: RegistryView<B>,
    peer_id: Seq<u8>,
    peer: PeerAddr,
    done: Seq<LocalLinkIntent<B>>,
    intent: LocalLinkIntent<B>,
)
    ensures
        ({
            let link = Link {
                peer,
                remote: crate::wire::peer_actor(peer_id),
                local: intent.local_actor_id,
            };
            let before = start.auto_linked(peer_id, peer, done);
            let signals = start.auto_established(peer_id, peer, done);
            &&& start.auto_linked(peer_id, peer, done.push(intent)) == before.seen_at(
                peer_id,
                peer,
            ).linked(link, intent.mailbox)
            &&& start.auto_established(peer_id, peer, done.push(intent))
                == if before.links.contains_key(link) {
                signals
            } else {
                signals.push(
                    LinkEstablished { mailbox: intent.mailbox, remote_actor_id: link.remote },
                )
            }
        }),
{
    let link = Link {
        peer,
        remote: crate::wire::peer_actor(peer_id),
        local: intent.local_actor_id,
    };
    assert(done.push(intent).drop_last() =~= done);
    assert(start.auto_linked(peer_id, peer, done.push(intent)) =~= start.auto_linked(
        peer_id,
        peer,
        done,
    ).seen_at(peer_id, peer).linked(link, intent.mailbox));
}

/// Remembers the address of a peer that connected, and links every registered local actor to the
/// actor that stands for the peer. Returns the signals for the links that are new.
pub fn auto_link_peer<B>(
    registry: &mut RemoteLinkRegistry<B>,
    intents: &LocalLinkIntents<B>,
    peer_addr: PeerAddr,
    peer_id: &PeerId,
) -> (signals: Vec<LinkEstablished<B>>)
    requires
        old(registry).wf(),
        intents.wf(),
    ensures
        final(registry).wf(),
        final(registry)@ == old(registry)@.auto_linked(peer_id@, peer_addr, all_intents(intents@)),
        signals@ == old(registry)@.auto_established(peer_id@, peer_addr, all_intents(intents@)),
{
    let mut signals: Vec<LinkEstablished<B>> = Vec::new();
    registry.remember(peer_id, peer_addr);
    let remote_actor_id = peer_actor_id(peer_id);
    let ghost start = old(registry)@;
    let ghost mut done: Seq<LocalLinkIntent<B>> = Seq::empty();
    assert(registry@ =~= start.auto_linked(peer_id@, peer_addr, done));
    let mut n: usize = 0;
    while n < intents.by_name.len()
        invariant
            n <= intents@.len(),
            intents@.len() == intents.by_name.pairs().len(),
            registry.wf(),
            remote_actor_id == crate::wire::peer_actor(peer_id@),
            registry@ == start.auto_linked(peer_id@, peer_addr, done),
            signals@ == start.auto_established(peer_id@, peer_addr, done),
            done == all_intents(intents@.take(n as int)),
        decreases intents@.len() - n,
    {
        let locals = intents.by_name.value_at(n);
        let ghost earlier = done;
        let mut i: usize = 0;
        assert(locals@.take(0) =~= Seq::empty());
        assert(earlier + Seq::<LocalLinkIntent<B>>::empty() =~= earlier);
        while i < locals.len()
            invariant
                i <= locals@.len(),
                registry.wf(),
                remote_actor_id == crate::wire::peer_actor(peer_id@),
                registry@ == start.auto_linked(peer_id@, peer_addr, done),
                signals@ == start.auto_established(peer_id@, peer_addr, done),
                done == earlier + locals@.take(i as int),
            decreases locals@.len() - i,
        {
            let local = &locals[i];
            proof {
                lemma_auto_linked_step(start, peer_id@, peer_addr, done, *local);
            }
            let inserted = registry.link_with_peer_id(
                peer_id,
                peer_addr,
                remote_actor_id,
                local.local_actor_id,
                local.mailbox.clone(),
            );
            if inserted {
                signals.push(LinkEstablished { mailbox: local.mailbox.clone(), remote_actor_id });
            }
            i += 1;
            proof {
                done = done.push(*local);
                assert(earlier + locals@.take(i as int) =~= done);
            }
        }
        n += 1;
        proof {
            assert(locals@.take(i as int) =~= locals@);
            assert(intents@.take(n as int).drop_last() =~= intents@.take(n - 1));
        }
    }
    assert(intents@.take(n as int) =~= intents@);
    signals
}

/// Removes a link, if it is there.
pub fn unlink<B>(
    registry: &mut RemoteLinkRegistry<B>,
    peer_addr: PeerAddr,
    remote_actor_id: ActorId,
    local_actor_id: ActorId,
)
    requires
        old(registry).wf(),
    ensures
        final(registry).wf(),
        final(registry)@ == old(registry)@.unlinked(
            Link { peer: peer_addr, remote: remote_actor_id, local: local_actor_id },
        ),
{
    registry.unlink(peer_addr, remote_actor_id, local_actor_id);
}

/// Takes note that the peer `peer_id` disconnected: its address is forgotten, the links to its
/// actors are removed, and a notice for each of them is returned.
pub fn notify_peer_disconnected_by_id<B>(
    registry: &mut RemoteLinkRegistry<B>,
    peer_id: &PeerId,
) -> (notices: Vec<LinkDied<B>>)
    requires
        old(registry).wf(),
    ensures
        final(registry).wf(),
        final(registry)@ == old(registry)@.disconnected(peer_id@),
        crate::peer_links::notifies_each(notices@, old(registry)@.links_to_id(peer_id@)),
{
    match registry.take_peer_links_by_id(peer_id) {
        Some(by_actor) => by_actor.died(),
        None => Vec::new(),
    }
}

/// Takes note that the peer at `peer_addr` disconnected: the links to its actors are removed, and
/// a notice for each of them is returned.
pub fn notify_peer_disconnected_by_addr<B>(
    registry: &mut RemoteLinkRegistry<B>,
    peer_addr: PeerAddr,
) -> (notices: Vec<LinkDied<B>>)
    requires
        old(registry).wf(),
    ensures
        final(registry).wf(),
        final(registry)@ == old(registry)@.without_links_to(peer_addr),
        crate::peer_links::notifies_each(notices@, old(registry)@.links_to(peer_addr)),
{
    match registry.take_peer_links_by_addr(peer_addr) {
        Some(by_actor) => by_actor.died(),
        None => Vec::new(),
    }
}

} // verus!
