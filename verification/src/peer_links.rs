//! The links to the actors of one peer.

use crate::ids::ActorId;
use std::collections::hash_map::Entry;
use std::collections::HashMap;
use std::sync::Arc;
use vstd::prelude::*;

verus! {

broadcast use vstd::std_specs::hash::group_hash_axioms;

/// Why an actor stopped.
#[derive(Clone, Copy, Debug, PartialEq, Eq, Structural)]
pub enum ActorStopReason {
    PeerDisconnected,
}

/// A link between a local actor and a remote actor of some peer: the two actors.
pub struct LinkEnds {
    pub remote: ActorId,
    pub local: ActorId,
}

/// What to tell a local actor: the remote actor that it is linked to is gone, and why.
pub struct LinkDied<B> {
    pub mailbox: Arc<B>,
    pub local_actor_id: ActorId,
    pub remote_actor_id: ActorId,
    pub reason: ActorStopReason,
}

impl<B> LinkDied<B> {
    /// The link that the notice is about.
    pub open spec fn ends(self) -> LinkEnds {
        LinkEnds { remote: self.remote_actor_id, local: self.local_actor_id }
    }
}

/// `notices` hold one notice for each link of `links` and no other: it goes to the mailbox of
/// the link, and the reason is that the peer disconnected.
pub open spec fn notifies_each<B>(notices: Seq<LinkDied<B>>, links: Map<LinkEnds, Arc<B>>) -> bool {
    &&& forall|i: int| #![trigger notices[i]]
        0 <= i < notices.len() ==> {
            &&& links.contains_key(notices[i].ends())
            &&& notices[i].mailbox == links[notices[i].ends()]
            &&& notices[i].reason == ActorStopReason::PeerDisconnected
        }
    &&& forall|i: int, j: int|
        0 <= i < j < notices.len() ==> (#[trigger] notices[i]).ends() != (
        #[trigger] notices[j]).ends()
    &&& forall|ends: LinkEnds| #[trigger]
        links.contains_key(ends) ==> exists|i: int|
            0 <= i < notices.len() && (#[trigger] notices[i]).ends() == ends
}

/// The links to the actors of one peer, by remote actor and then by local actor.
pub struct RemoteActorLinks<B> {
    by_actor: HashMap<u64, HashMap<u64, Arc<B>>>,
}

impl<B> RemoteActorLinks<B> {
    /// The mailbox of the local actor of each link.
    pub closed spec fn links(self) -> Map<LinkEnds, Arc<B>> {
        Map::new(
            |ends: LinkEnds|
                self.by_actor@.contains_key(ends.remote.id)
                    && self.by_actor@[ends.remote.id]@.contains_key(ends.local.id),
            |ends: LinkEnds| self.by_actor@[ends.remote.id]@[ends.local.id],
        )
    }

    /// No remote actor is kept without a link to it.
    pub closed spec fn wf(self) -> bool {
        forall|remote: u64| #[trigger]
            self.by_actor@.contains_key(remote) ==> !self.by_actor@[remote]@.is_empty()
    }

    pub fn new() -> (links: Self)
        ensures
            links.wf(),
            links.links() == Map::<LinkEnds, Arc<B>>::empty(),
    {
        let links = RemoteActorLinks { by_actor: HashMap::new() };
        assert(links.links() =~= Map::empty());
        links
    }

    pub fn link(&mut self, remote: ActorId, local: ActorId, mailbox: Arc<B>) -> (inserted: bool)
        requires
            old(self).wf(),
        ensures
            final(self).wf(),
            ({
                let ends = LinkEnds { remote, local };
                &&& inserted == !old(self).links().contains_key(ends)
                &&& final(self).links() == if inserted {
                    old(self).links().insert(ends, mailbox)
                } else {
                    old(self).links()
                }
            }),
    {
        let ghost before = self.by_actor@;
        let ghost after = *final(self);
        let locals = self.by_actor.entry(remote.id).or_insert(HashMap::new());
        if locals.contains_key(&local.id) {
            proof {
                assert(after.by_actor@ == before.insert(remote.id, before[remote.id]));
                assert(after.by_actor@ =~= before);
            }
            return false;
        }
        locals.insert(local.id, mailbox);
        true
    }

    pub fn unlink(&mut self, remote: ActorId, local: ActorId)
        requires
            old(self).wf(),
        ensures
            final(self).wf(),
            final(self).links() == old(self).links().remove(LinkEnds { remote, local }),
    {
        let ghost before = self.by_actor@;
        let ghost after = *final(self);
        match self.by_actor.entry(remote.id) {
            Entry::Vacant(_) => {
                assert(after.by_actor@ =~= before);
                assert(after.links() =~= old(self).links().remove(LinkEnds { remote, local }));
            },
            Entry::Occupied(mut occupied) => {
                occupied.get_mut().remove(&local.id);
                if occupied.get().is_empty() {
                    occupied.remove();
                }
                assert(after.links() =~= old(self).links().remove(LinkEnds { remote, local }));
            },
        }
    }

    pub fn is_empty(&self) -> (empty: bool)
        requires
            self.wf(),
        ensures
            empty == (self.links() == Map::<LinkEnds, Arc<B>>::empty()),
    {
        let empty = self.by_actor.is_empty();
        proof {
            if empty {
                assert(self.links() =~= Map::empty());
            } else {
                let remote = choose|remote: u64| self.by_actor@.contains_key(remote);
                assert(self.by_actor@.contains_key(remote));
                let local = choose|local: u64| self.by_actor@[remote]@.contains_key(local);
                let ends = LinkEnds {
                    remote: ActorId { id: remote },
                    local: ActorId { id: local },
                };
                assert(self.links().contains_key(ends));
            }
        }
        empty
    }

    /// The links to the first `n` remote actors of `pairs`.
    closed spec fn links_of_first(pairs: Seq<(&u64, &HashMap<u64, Arc<B>>)>, n: int) -> Map<
        LinkEnds,
        Arc<B>,
    >
        decreases n,
    {
        if n <= 0 {
            Map::empty()
        } else {
            Self::links_of_first(pairs, n - 1).union_prefer_right(
                one_remote(ActorId { id: *pairs[n - 1].0 }, pairs[n - 1].1@),
            )
        }
    }

    proof fn lemma_links_of_first(pairs: Seq<(&u64, &HashMap<u64, Arc<B>>)>, n: int, ends: LinkEnds)
        requires
            0 <= n <= pairs.len(),
        ensures
            Self::links_of_first(pairs, n).contains_key(ends) <==> exists|i: int|
                0 <= i < n && *(#[trigger] pairs[i]).0 == ends.remote.id
                    && pairs[i].1@.contains_key(ends.local.id),
            Self::links_of_first(pairs, n).contains_key(ends) ==> exists|i: int|
                0 <= i < n && *(#[trigger] pairs[i]).0 == ends.remote.id
                    && Self::links_of_first(pairs, n)[ends] == pairs[i].1@[ends.local.id],
        decreases n,
    {
        if n > 0 {
            Self::lemma_links_of_first(pairs, n - 1, ends);
            let last = pairs[n - 1];
            if *last.0 == ends.remote.id && last.1@.contains_key(ends.local.id) {
                assert(*pairs[n - 1].0 == ends.remote.id);
            }
        }
    }

    /// The notices that go out when the peer disconnects.
    pub fn died(&self) -> (notices: Vec<LinkDied<B>>)
        ensures
            notifies_each(notices@, self.links()),
    {
        let mut notices: Vec<LinkDied<B>> = Vec::new();
        let walk = self.by_actor.iter();
        let ghost pairs = vstd::std_specs::iter::IteratorSpec::remaining(&walk);
        for (remote, locals) in them: walk
            invariant
                them.seq() == pairs,
                pairs.no_duplicates(),
                forall|i: int|
                    0 <= i < pairs.len() ==> self.by_actor@[*(#[trigger] pairs[i]).0]
                        == *pairs[i].1,
                notifies_each(notices@, Self::links_of_first(pairs, them.index() as int)),
        {
            let ghost before = notices@;
            let ghost i = them.index() as int;
            let id = ActorId { id: *remote };
            Self::push_died(&mut notices, id, locals);
            proof {
                let added = notices@.subrange(before.len() as int, notices@.len() as int);
                assert(notices@ =~= before + added);
                let walked = Self::links_of_first(pairs, i);
                let here = one_remote(id, locals@);
                assert forall|ends: LinkEnds|
                    !(walked.contains_key(ends) && here.contains_key(ends)) by {
                    Self::lemma_links_of_first(pairs, i, ends);
                    if walked.contains_key(ends) && ends.remote == id {
                        let j = choose|j: int|
                            0 <= j < i && *(#[trigger] pairs[j]).0 == ends.remote.id
                                && pairs[j].1@.contains_key(ends.local.id);
                        assert(self.by_actor@[*pairs[j].0] == *pairs[j].1);
                        assert(self.by_actor@[*pairs[i].0] == *pairs[i].1);
                        assert(pairs[i] == pairs[j]);
                    }
                }
                lemma_notifies_both(before, walked, added, here);
            }
        }
        proof {
            let n = pairs.len() as int;
            let walked = Self::links_of_first(pairs, n);
            assert forall|ends: LinkEnds| #[trigger]
                walked.contains_key(ends) == self.links().contains_key(ends) by {
                Self::lemma_links_of_first(pairs, n, ends);
            }
            assert forall|ends: LinkEnds| walked.contains_key(ends) implies #[trigger] walked[ends]
                == self.links()[ends] by {
                Self::lemma_links_of_first(pairs, n, ends);
            }
            assert(walked =~= self.links());
        }
        notices
    }

    /// Appends the notices about the links of `remote`, which are `locals`.
    fn push_died(notices: &mut Vec<LinkDied<B>>, remote: ActorId, locals: &HashMap<u64, Arc<B>>)
        ensures
            ({
                let n = old(notices)@.len() as int;
                let all = final(notices)@;
                &&& n <= all.len()
                &&& all.subrange(0, n) == old(notices)@
                &&& notifies_each(
                    all.subrange(n, all.len() as int),
                    one_remote(remote, locals@),
                )
            }),
    {
        let walk = locals.iter();
        let ghost pairs = vstd::std_specs::iter::IteratorSpec::remaining(&walk);
        let ghost n = notices@.len() as int;
        for (local, mailbox) in them: walk
            invariant
                them.seq() == pairs,
                n == old(notices)@.len(),
                notices@.len() == n + them.index(),
                notices@.subrange(0, n) == old(notices)@,
                forall|i: int|
                    0 <= i < them.index() ==> (#[trigger] them.seq()[i]) == (
                        &notices@[n + i].local_actor_id.id,
                        &notices@[n + i].mailbox,
                    ),
                forall|i: int|
                    n <= i < notices@.len() ==> (#[trigger] notices@[i]).remote_actor_id == remote
                        && notices@[i].reason == ActorStopReason::PeerDisconnected,
        {
            let ghost before = notices@;
            notices.push(
                LinkDied {
                    mailbox: mailbox.clone(),
                    local_actor_id: ActorId { id: *local },
                    remote_actor_id: remote,
                    reason: ActorStopReason::PeerDisconnected,
                },
            );
            assert(notices@.subrange(0, n) =~= before.subrange(0, n));
        }
        proof {
            let added = notices@.subrange(n, notices@.len() as int);
            assert forall|i: int, j: int| 0 <= i < j < added.len() implies (
            #[trigger] added[i]).ends() != (#[trigger] added[j]).ends() by {
                assert(pairs[i] == (&added[i].local_actor_id.id, &added[i].mailbox));
                assert(pairs[j] == (&added[j].local_actor_id.id, &added[j].mailbox));
                assert(locals@[*pairs[i].0] == *pairs[i].1);
                assert(locals@[*pairs[j].0] == *pairs[j].1);
            }
            let links = one_remote(remote, locals@);
            assert forall|i: int| 0 <= i < added.len() implies links.contains_key(
                (#[trigger] added[i]).ends(),
            ) && added[i].mailbox == links[added[i].ends()] by {
                assert(pairs[i] == (&added[i].local_actor_id.id, &added[i].mailbox));
                assert(locals@.contains_key(*pairs[i].0));
            }
            assert forall|ends: LinkEnds| #[trigger]
                links.contains_key(ends) implies exists|i: int|
                0 <= i < added.len() && (#[trigger] added[i]).ends() == ends by {
                let k = ends.local.id;
                assert(locals@.contains_key(k));
                assert(pairs.contains((&k, &locals@[k])));
                let i = choose|i: int| 0 <= i < pairs.len() && pairs[i] == (&k, &locals@[k]);
                assert(added[i].ends() == ends);
            }
        }
    }
}

/// Notices about two sets of links that share no link are, together, notices about both.
proof fn lemma_notifies_both<B>(
    a: Seq<LinkDied<B>>,
    a_links: Map<LinkEnds, Arc<B>>,
    b: Seq<LinkDied<B>>,
    b_links: Map<LinkEnds, Arc<B>>,
)
    requires
        notifies_each(a, a_links),
        notifies_each(b, b_links),
        forall|ends: LinkEnds| !(a_links.contains_key(ends) && b_links.contains_key(ends)),
    ensures
        notifies_each(a + b, a_links.union_prefer_right(b_links)),
{
    let both = a + b;
    let links = a_links.union_prefer_right(b_links);
    assert forall|i: int| #![trigger both[i]] 0 <= i < both.len() implies {
        &&& links.contains_key(both[i].ends())
        &&& both[i].mailbox == links[both[i].ends()]
        &&& both[i].reason == ActorStopReason::PeerDisconnected
    } by {
        if i < a.len() {
            assert(both[i] == a[i]);
            assert(a_links.contains_key(a[i].ends()));
        } else {
            assert(both[i] == b[i - a.len()]);
        }
    }
    assert forall|i: int, j: int| 0 <= i < j < both.len() implies (#[trigger] both[i]).ends() != (
    #[trigger] both[j]).ends() by {
        if j < a.len() {
            assert(both[i] == a[i] && both[j] == a[j]);
        } else if i < a.len() {
            assert(both[i] == a[i] && both[j] == b[j - a.len()]);
            assert(a_links.contains_key(a[i].ends()));
            assert(b_links.contains_key(b[j - a.len()].ends()));
        } else {
            assert(both[i] == b[i - a.len()] && both[j] == b[j - a.len()]);
        }
    }
    assert forall|ends: LinkEnds| #[trigger] links.contains_key(ends) implies exists|i: int|
        0 <= i < both.len() && (#[trigger] both[i]).ends() == ends by {
        if b_links.contains_key(ends) {
            let i = choose|i: int| 0 <= i < b.len() && (#[trigger] b[i]).ends() == ends;
            assert(both[a.len() + i].ends() == ends);
        } else {
            assert(a_links.contains_key(ends));
            let i = choose|i: int| 0 <= i < a.len() && (#[trigger] a[i]).ends() == ends;
            assert(both[i].ends() == ends);
        }
    }
}

/// The links of one remote actor, given by local actor.
pub open spec fn one_remote<B>(remote: ActorId, locals: Map<u64, Arc<B>>) -> Map<LinkEnds, Arc<B>> {
    Map::new(
        |ends: LinkEnds| ends.remote == remote && locals.contains_key(ends.local.id),
        |ends: LinkEnds| locals[ends.local.id],
    )
}

} // verus!
