use kameo::ids::{ActorId, PeerAddr, PeerId};
use kameo::peer_links::{ActorStopReason, LinkDied};
use kameo::remote_link::{
    auto_link_peer, link, link_with_peer_id, notify_peer_disconnected_by_addr,
    notify_peer_disconnected_by_id, register_local_actor, unlink, LocalLinkIntents,
    RemoteLinkRegistry,
};
use std::sync::Arc;

type Registry = RemoteLinkRegistry<String>;
type Intents = LocalLinkIntents<String>;

fn localhost(port: u16) -> PeerAddr {
    PeerAddr::V4 { ip: 0x7f00_0001, port }
}

fn peer(seed: u8) -> PeerId {
    let mut bytes = [seed; 32];
    bytes[0] = 1;
    bytes[7] = 2;
    PeerId { bytes }
}

fn actor(id: u64) -> ActorId {
    ActorId::from_u64(id)
}

fn mailbox(name: &str) -> Arc<String> {
    Arc::new(name.to_string())
}

fn ends(notices: &[LinkDied<String>]) -> Vec<(u64, u64, String)> {
    let mut all: Vec<(u64, u64, String)> = notices
        .iter()
        .map(|n| {
            assert_eq!(n.reason, ActorStopReason::PeerDisconnected);
            (n.remote_actor_id.id, n.local_actor_id.id, n.mailbox.to_string())
        })
        .collect();
    all.sort();
    all
}

#[test]
fn disconnect_by_id_finds_addr_only_links_after_auto_link_peer() {
    let mut registry = Registry::new();
    let intents = Intents::new();
    let peer_addr = localhost(32000);
    let peer_id = peer(7);

    auto_link_peer(&mut registry, &intents, peer_addr, &peer_id);

    let remote_actor_id = ActorId::from_u64(1);
    let local_actor_id = ActorId::from_u64(2);
    link(&mut registry, peer_addr, remote_actor_id, local_actor_id, mailbox("died"));

    let events = notify_peer_disconnected_by_id(&mut registry, &peer_id);
    assert!(
        events.iter().any(|event| event.remote_actor_id == remote_actor_id
            && matches!(event.reason, ActorStopReason::PeerDisconnected)),
        "expected on_link_died for addr-only link when disconnecting by peer_id"
    );
    assert_eq!(ends(&events), vec![(1, 2, "died".to_string())]);
}

#[test]
fn a_new_link_signals_its_mailbox_once() {
    let mut registry = Registry::new();
    let first = link(&mut registry, localhost(1), actor(10), actor(20), mailbox("a"));
    let signal = first.expect("the link is new");
    assert_eq!(signal.remote_actor_id, actor(10));
    assert_eq!(signal.mailbox.as_str(), "a");
    assert!(link(&mut registry, localhost(1), actor(10), actor(20), mailbox("b")).is_none());

    let notices = notify_peer_disconnected_by_addr(&mut registry, localhost(1));
    assert_eq!(ends(&notices), vec![(10, 20, "a".to_string())]);
}

#[test]
fn unlink_undoes_link() {
    let mut registry = Registry::new();
    link(&mut registry, localhost(1), actor(10), actor(20), mailbox("a"));
    link(&mut registry, localhost(1), actor(10), actor(21), mailbox("b"));
    link(&mut registry, localhost(1), actor(11), actor(20), mailbox("c"));
    unlink(&mut registry, localhost(1), actor(10), actor(20));
    unlink(&mut registry, localhost(1), actor(99), actor(20));
    unlink(&mut registry, localhost(2), actor(10), actor(20));
    let notices = notify_peer_disconnected_by_addr(&mut registry, localhost(1));
    assert_eq!(
        ends(&notices),
        vec![(10, 21, "b".to_string()), (11, 20, "c".to_string())]
    );
}

#[test]
fn unlinking_the_last_link_leaves_nothing_to_take() {
    let mut registry = Registry::new();
    link(&mut registry, localhost(1), actor(10), actor(20), mailbox("a"));
    unlink(&mut registry, localhost(1), actor(10), actor(20));
    assert!(registry.take_peer_links_by_addr(localhost(1)).is_none());
}

#[test]
fn every_link_of_a_peer_dies_once() {
    let mut registry = Registry::new();
    let peer_id = peer(3);
    for remote in 0..4u64 {
        for local in 0..5u64 {
            link_with_peer_id(
                &mut registry,
                &peer_id,
                localhost(1),
                actor(remote),
                actor(local),
                mailbox(&format!("{}-{}", remote, local)),
            );
        }
    }
    let notices = notify_peer_disconnected_by_id(&mut registry, &peer_id);
    let mut expected: Vec<(u64, u64, String)> = vec![];
    for remote in 0..4u64 {
        for local in 0..5u64 {
            expected.push((remote, local, format!("{}-{}", remote, local)));
        }
    }
    assert_eq!(ends(&notices), expected);
    assert!(notify_peer_disconnected_by_id(&mut registry, &peer_id).is_empty());
    assert!(notify_peer_disconnected_by_addr(&mut registry, localhost(1)).is_empty());
}

#[test]
fn a_disconnect_by_address_keeps_the_address_of_the_peer() {
    let mut registry = Registry::new();
    let peer_id = peer(3);
    link_with_peer_id(&mut registry, &peer_id, localhost(1), actor(1), actor(2), mailbox("a"));
    assert_eq!(notify_peer_disconnected_by_addr(&mut registry, localhost(1)).len(), 1);
    link(&mut registry, localhost(1), actor(1), actor(2), mailbox("b"));
    let notices = notify_peer_disconnected_by_id(&mut registry, &peer_id);
    assert_eq!(ends(&notices), vec![(1, 2, "b".to_string())]);
}

#[test]
fn a_disconnect_of_an_unknown_peer_changes_nothing() {
    let mut registry = Registry::new();
    link(&mut registry, localhost(1), actor(1), actor(2), mailbox("a"));
    assert!(notify_peer_disconnected_by_id(&mut registry, &peer(9)).is_empty());
    assert!(registry.take_peer_links_by_id(&peer(9)).is_none());
    assert_eq!(notify_peer_disconnected_by_addr(&mut registry, localhost(1)).len(), 1);
}

#[test]
fn a_disconnect_spares_other_peers() {
    let mut registry = Registry::new();
    let v6 = PeerAddr::V6 { ip6: 1, port: 1, flowinfo: 0, scope_id: 0 };
    let v6_scoped = PeerAddr::V6 { ip6: 1, port: 1, flowinfo: 0, scope_id: 2 };
    link_with_peer_id(&mut registry, &peer(1), v6, actor(1), actor(2), mailbox("a"));
    link_with_peer_id(&mut registry, &peer(2), v6_scoped, actor(1), actor(2), mailbox("b"));
    assert_eq!(
        ends(&notify_peer_disconnected_by_id(&mut registry, &peer(1))),
        vec![(1, 2, "a".to_string())]
    );
    assert_eq!(
        ends(&notify_peer_disconnected_by_id(&mut registry, &peer(2))),
        vec![(1, 2, "b".to_string())]
    );
}

#[test]
fn a_peer_that_moved_is_found_at_its_new_address() {
    let mut registry = Registry::new();
    let intents = Intents::new();
    auto_link_peer(&mut registry, &intents, localhost(1), &peer(1));
    auto_link_peer(&mut registry, &intents, localhost(2), &peer(1));
    link(&mut registry, localhost(1), actor(1), actor(2), mailbox("old"));
    link(&mut registry, localhost(2), actor(1), actor(2), mailbox("new"));
    assert_eq!(
        ends(&notify_peer_disconnected_by_id(&mut registry, &peer(1))),
        vec![(1, 2, "new".to_string())]
    );
}

#[test]
fn registered_actors_are_linked_to_every_peer_that_connects() {
    let mut registry = Registry::new();
    let mut intents = Intents::new();
    register_local_actor(&mut intents, "one".to_string(), actor(1), mailbox("1"));
    register_local_actor(&mut intents, "two".to_string(), actor(2), mailbox("2"));
    register_local_actor(&mut intents, "one".to_string(), actor(3), mailbox("3"));
    // The same actor under another name keeps the mailbox that it came with first.
    register_local_actor(&mut intents, "three".to_string(), actor(1), mailbox("again"));

    // The id of the actor that stands for the peer: bytes 01 05 05 05 05 05 05 02, low byte first.
    let stands_for_peer: u64 = 0x0205_0505_0505_0501;
    let signals = auto_link_peer(&mut registry, &intents, localhost(1), &peer(5));
    let told: Vec<&str> = signals.iter().map(|s| s.mailbox.as_str()).collect();
    assert_eq!(told, vec!["1", "3", "2"]);
    assert!(signals.iter().all(|s| s.remote_actor_id == actor(stands_for_peer)));

    assert!(auto_link_peer(&mut registry, &intents, localhost(1), &peer(5)).is_empty());
    assert_eq!(auto_link_peer(&mut registry, &intents, localhost(2), &peer(6)).len(), 3);

    let notices = notify_peer_disconnected_by_id(&mut registry, &peer(5));
    assert_eq!(
        ends(&notices),
        vec![
            (stands_for_peer, 1, "1".to_string()),
            (stands_for_peer, 2, "2".to_string()),
            (stands_for_peer, 3, "3".to_string()),
        ]
    );
}

#[test]
fn a_link_that_is_there_is_kept_when_the_peer_connects() {
    let mut registry = Registry::new();
    let mut intents = Intents::new();
    register_local_actor(&mut intents, "one".to_string(), actor(1), mailbox("intent"));
    let stands_for_peer = actor(0x0205_0505_0505_0501);
    link(&mut registry, localhost(1), stands_for_peer, actor(1), mailbox("earlier"));
    assert!(auto_link_peer(&mut registry, &intents, localhost(1), &peer(5)).is_empty());
    let notices = notify_peer_disconnected_by_id(&mut registry, &peer(5));
    assert_eq!(notices.len(), 1);
    assert_eq!(notices[0].mailbox.as_str(), "earlier");
}

#[test]
fn a_disconnect_by_id_reaches_every_link_whatever_other_peers_do() {
    let mut registry = Registry::new();
    let mut intents = Intents::new();
    register_local_actor(&mut intents, "one".to_string(), actor(1), mailbox("intent"));
    auto_link_peer(&mut registry, &intents, localhost(1), &peer(5));
    link(&mut registry, localhost(1), actor(8), actor(9), mailbox("by address"));
    auto_link_peer(&mut registry, &intents, localhost(2), &peer(6));
    link_with_peer_id(&mut registry, &peer(7), localhost(3), actor(8), actor(9), mailbox("other"));
    notify_peer_disconnected_by_addr(&mut registry, localhost(2));
    notify_peer_disconnected_by_id(&mut registry, &peer(7));
    assert_eq!(
        ends(&notify_peer_disconnected_by_id(&mut registry, &peer(5))),
        vec![
            (8, 9, "by address".to_string()),
            (0x0205_0505_0505_0501, 1, "intent".to_string()),
        ]
    );
}
