use bytes::Bytes;
use kameo::delivery::{
    is_connection_error, AskOutcome, AskPlan, AskStep, AskTransmit, Attempt, RefreshReason,
    TellOutcome, TellStep, TellTransmit,
};
use kameo::dynamic_distributed_actor_ref::{
    DynamicAskRequest, DynamicDistributedActorRef, LookupStep, RemoteActorLocation,
};
use kameo::error::{GossipError, SendError};
use kameo::ids::{ActorId, PeerAddr};
use std::time::Duration;

/// A reference whose connections are named by numbers.
type Ref = DynamicDistributedActorRef<String, u32>;

fn location() -> RemoteActorLocation {
    RemoteActorLocation {
        actor_id: ActorId::from_u64(77),
        peer_addr: PeerAddr::V4 { ip: 0x7f00_0001, port: 29200 },
    }
}

fn unconnected() -> Ref {
    Ref::new(ActorId::from_u64(77), location(), "transport".to_string())
}

fn connected(conn: u32) -> Ref {
    match Ref::lookup::<()>(Ok(Some(location())), "transport".to_string()) {
        Ok(LookupStep::Connect(connect)) => {
            connect.connected::<u32, ()>(Ok(conn)).expect("there is a connection")
        }
        _ => panic!("the actor was found"),
    }
}

fn encoded(payload: &[u8]) -> Result<Vec<u8>, ()> {
    Ok(payload.to_vec())
}

fn held_by(actor_ref: &Ref) -> Option<u32> {
    actor_ref.load_connection().map(|held| **held.connection())
}

fn tell_transmit<'a>(step: TellStep<'a, String, u32>) -> TellTransmit<'a, String, u32> {
    match step {
        TellStep::Transmit(transmit) => transmit,
        _ => panic!("a transmission comes next"),
    }
}

fn ask_transmit<'a>(step: AskStep<'a, String, u32>) -> AskTransmit<'a, String, u32> {
    match step {
        AskStep::Transmit(transmit) => transmit,
        _ => panic!("a transmission comes next"),
    }
}

fn tell_result(step: TellStep<'_, String, u32>) -> Result<(), SendError> {
    match step {
        TellStep::Done(result) => result,
        _ => panic!("the tell is done"),
    }
}

fn ask_result(step: AskStep<'_, String, u32>) -> Result<Bytes, SendError> {
    match step {
        AskStep::Done(result) => result,
        _ => panic!("the ask is done"),
    }
}

#[test]
fn a_reference_knows_its_actor() {
    let actor_ref = unconnected();
    assert_eq!(actor_ref.id(), ActorId::from_u64(77));
    assert_eq!(*actor_ref.location(), location());
    assert_eq!(actor_ref.transport, "transport");
    assert_eq!(held_by(&actor_ref), None);
}

#[test]
fn lookup_gives_a_reference_with_a_connection() {
    let actor_ref = connected(4);
    assert_eq!(actor_ref.id(), ActorId::from_u64(77));
    assert_eq!(*actor_ref.location(), location());
    assert_eq!(held_by(&actor_ref), Some(4));
}

#[test]
fn lookup_finds_nothing_without_a_location_or_a_connection() {
    let missing = Ref::lookup::<()>(Ok(None), "transport".to_string());
    assert!(matches!(missing, Ok(LookupStep::NotFound)));
    let failed = Ref::lookup(Err("registry down"), "transport".to_string());
    assert!(matches!(failed, Err("registry down")));
    match Ref::lookup::<()>(Ok(Some(location())), "transport".to_string()) {
        Ok(LookupStep::Connect(connect)) => {
            assert_eq!(connect.location, location());
            assert!(connect.connected::<u32, ()>(Err(())).is_none());
        }
        _ => panic!("the actor was found"),
    }
}

#[test]
fn clones_share_the_connection() {
    let actor_ref = connected(1);
    let clone = actor_ref.clone();
    assert_eq!(clone.id(), actor_ref.id());
    assert_eq!(clone.transport, "transport");
    assert_eq!(held_by(&clone), Some(1));
    assert!(actor_ref.refresh_connection(Ok(2)).is_ok());
    assert_eq!(held_by(&clone), Some(2));
    assert!(clone.refresh_connection(Ok(3)).is_ok());
    assert_eq!(held_by(&actor_ref), Some(3));
    assert_eq!(held_by(&connected(9)), Some(9));
    assert_eq!(held_by(&actor_ref), Some(3));
}

#[test]
fn a_failed_refresh_keeps_the_connection() {
    let actor_ref = connected(1);
    let refreshed = actor_ref.refresh_connection(Err(GossipError::PeerNotFound));
    assert!(matches!(refreshed, Err(SendError::ActorStopped)));
    assert_eq!(held_by(&actor_ref), Some(1));
}

#[test]
fn a_tell_goes_out_once_over_the_connection() {
    let actor_ref = connected(5);
    let transmit = tell_transmit(actor_ref.tell("m").send(0xabcd, encoded(&[1, 2])));
    assert_eq!(**transmit.conn.connection(), 5);
    assert_eq!(transmit.attempt, Attempt::Last);
    let frame = transmit.frame();
    assert_eq!(&frame[0..5], &[0, 0, 0, 30, 3]);
    assert_eq!(&frame[16..], &[0, 0, 0, 0, 0, 0, 0, 77, 0, 0, 0xab, 0xcd, 0, 0, 0, 2, 1, 2]);
    assert_eq!(tell_result(transmit.completed(TellOutcome::Sent(Ok(())))), Ok(()));

    let transmit = tell_transmit(actor_ref.tell("m").send(0xabcd, encoded(&[1, 2])));
    let failed = tell_result(transmit.completed(TellOutcome::Sent(Err(GossipError::Network))));
    assert_eq!(failed, Err(SendError::ActorStopped));
}

#[test]
fn a_tell_without_a_connection_fails() {
    let actor_ref = unconnected();
    let step = actor_ref.tell("m").send(1, encoded(&[]));
    assert_eq!(tell_result(step), Err(SendError::MissingConnection));
    // What cannot be encoded fails first.
    let step = actor_ref.tell("m").send(1, Err(()));
    assert_eq!(tell_result(step), Err(SendError::ActorStopped));
    let step = actor_ref.tell("m").send_with_retry(1, Err(()));
    assert_eq!(tell_result(step), Err(SendError::ActorStopped));
}

#[test]
fn a_tell_with_retry_recovers_over_a_new_connection() {
    for loss in [GossipError::Network, GossipError::PeerNotFound, GossipError::Shutdown] {
        let actor_ref = connected(5);
        let clone = actor_ref.clone();
        let first = tell_transmit(actor_ref.tell("m").send_with_retry(1, encoded(&[1, 2])));
        assert_eq!(first.attempt, Attempt::First);
        assert_eq!(**first.conn.connection(), 5);
        let frame = first.frame();
        let refresh = match first.completed(TellOutcome::Sent(Err(loss))) {
            TellStep::Refresh(refresh) => refresh,
            _ => panic!("a new connection is wanted"),
        };
        assert_eq!(refresh.reason, RefreshReason::Lost);
        let second = tell_transmit(refresh.completed(Ok(6)));
        assert_eq!(**second.conn.connection(), 6);
        assert_eq!(second.attempt, Attempt::Last);
        assert_eq!(second.frame(), frame);
        assert_eq!(held_by(&clone), Some(6));
        assert_eq!(tell_result(second.completed(TellOutcome::Sent(Ok(())))), Ok(()));
    }
}

#[test]
fn a_tell_with_retry_is_sent_at_most_twice() {
    let actor_ref = connected(5);
    let first = tell_transmit(actor_ref.tell("m").send_with_retry(1, encoded(&[1])));
    let refresh = match first.completed(TellOutcome::Sent(Err(GossipError::Network))) {
        TellStep::Refresh(refresh) => refresh,
        _ => panic!("a new connection is wanted"),
    };
    let second = tell_transmit(refresh.completed(Ok(6)));
    let result = tell_result(second.completed(TellOutcome::Sent(Err(GossipError::Network))));
    assert_eq!(result, Err(SendError::ActorStopped));
}

#[test]
fn a_tell_with_retry_asks_for_a_connection_twice_after_a_loss() {
    let actor_ref = connected(5);
    let first = tell_transmit(actor_ref.tell("m").send_with_retry(1, encoded(&[1])));
    let refresh = match first.completed(TellOutcome::Sent(Err(GossipError::Shutdown))) {
        TellStep::Refresh(refresh) => refresh,
        _ => panic!("a new connection is wanted"),
    };
    let again = match refresh.completed(Err(GossipError::Network)) {
        TellStep::Refresh(refresh) => refresh,
        _ => panic!("a new connection is wanted"),
    };
    assert_eq!(again.reason, RefreshReason::Missing);
    assert_eq!(held_by(&actor_ref), Some(5));
    let result = tell_result(again.completed(Err(GossipError::Network)));
    assert_eq!(result, Err(SendError::ActorStopped));
}

#[test]
fn a_tell_that_is_refused_is_not_sent_again() {
    for refusal in [GossipError::Timeout, GossipError::Other] {
        let actor_ref = connected(5);
        let first = tell_transmit(actor_ref.tell("m").send_with_retry(1, encoded(&[1])));
        let result = tell_result(first.completed(TellOutcome::Sent(Err(refusal))));
        assert_eq!(result, Err(SendError::ActorStopped));
    }
}

#[test]
fn a_tell_with_retry_connects_first_where_there_is_no_connection() {
    let actor_ref = unconnected();
    let refresh = match actor_ref.tell("m").send_with_retry(1, encoded(&[1])) {
        TellStep::Refresh(refresh) => refresh,
        _ => panic!("a connection is wanted"),
    };
    assert_eq!(refresh.reason, RefreshReason::Missing);
    let transmit = tell_transmit(refresh.completed(Ok(8)));
    assert_eq!(held_by(&actor_ref), Some(8));
    let result = tell_result(transmit.completed(TellOutcome::Sent(Err(GossipError::Network))));
    assert_eq!(result, Err(SendError::ActorStopped));
}

#[test]
fn a_short_ask_is_a_single_message() {
    let actor_ref = connected(5);
    let request: DynamicAskRequest<'_, &str, u64, String, u32> = actor_ref.ask("m");
    let transmit = ask_transmit(request.send_raw(9, encoded(&[1, 2, 3])));
    match transmit.plan(3) {
        AskPlan::Regular { message, timeout } => {
            assert_eq!(message.actor_id, "77");
            assert_eq!(message.type_hash, 9);
            assert_eq!(message.payload, vec![1, 2, 3]);
            assert_eq!(message.correlation_id, None);
            assert_eq!(timeout, Duration::from_secs(2));
        }
        _ => panic!("three bytes are not more than three"),
    }
}

#[test]
fn an_ask_waits_as_long_as_it_was_told() {
    let actor_ref = connected(5);
    let request: DynamicAskRequest<'_, &str, u64, String, u32> =
        actor_ref.ask("m").timeout(Duration::from_millis(1500));
    let transmit = ask_transmit(request.send(9, encoded(&[1])));
    match transmit.plan(1024) {
        AskPlan::Regular { timeout, .. } => assert_eq!(timeout, Duration::from_millis(1500)),
        _ => panic!("a single message with the given timeout"),
    }
    let request = actor_ref.tell("m").timeout(Duration::from_secs(4));
    assert_eq!(request.timeout, Some(Duration::from_secs(4)));
    assert_eq!(request.message, "m");
}

#[test]
fn a_long_ask_is_streamed() {
    let actor_ref = connected(5);
    let payload = vec![7u8; 3 * 1024 * 1024 + 5];
    let request: DynamicAskRequest<'_, &str, u64, String, u32> =
        actor_ref.ask("m").timeout(Duration::from_secs(1));
    let transmit = ask_transmit(request.send_raw(9, encoded(&payload)));
    match transmit.plan(1024) {
        AskPlan::Streaming { payload: streamed, type_hash, actor_id, timeout } => {
            assert_eq!(&streamed[..], &payload[..]);
            assert_eq!(type_hash, 9);
            assert_eq!(actor_id, 77);
            assert_eq!(timeout, Duration::from_secs(33));
        }
        _ => panic!("the payload is longer than the threshold"),
    }
}

#[test]
fn the_outcome_of_an_ask_is_its_result() {
    let reply = Bytes::from_static(b"pong");
    let cases: Vec<(AskOutcome, Result<Bytes, SendError>)> = vec![
        (AskOutcome::Answered(Ok(reply.clone())), Ok(reply.clone())),
        (AskOutcome::Streamed(Ok(reply.clone())), Ok(reply.clone())),
        (AskOutcome::Streamed(Err(GossipError::Timeout)), Err(SendError::Timeout(None))),
        (AskOutcome::Streamed(Err(GossipError::Network)), Err(SendError::ActorStopped)),
        (AskOutcome::Answered(Err(GossipError::Timeout)), Err(SendError::ActorStopped)),
        (AskOutcome::Answered(Err(GossipError::Other)), Err(SendError::ActorStopped)),
        (AskOutcome::NotEncoded, Err(SendError::ActorStopped)),
        (AskOutcome::Elapsed, Err(SendError::Timeout(None))),
    ];
    for (outcome, expected) in cases {
        let actor_ref = connected(5);
        let request: DynamicAskRequest<'_, &str, u64, String, u32> = actor_ref.ask("m");
        let transmit = ask_transmit(request.send_raw(9, encoded(&[1])));
        assert_eq!(ask_result(transmit.completed(outcome)), expected);
    }
}

#[test]
fn an_ask_without_a_connection_fails() {
    let actor_ref = unconnected();
    let request: DynamicAskRequest<'_, &str, u64, String, u32> = actor_ref.ask("m");
    assert_eq!(
        ask_result(request.send_raw(9, encoded(&[1]))),
        Err(SendError::MissingConnection)
    );
    let request: DynamicAskRequest<'_, &str, u64, String, u32> = actor_ref.ask("m");
    assert_eq!(ask_result(request.send(9, Err(()))), Err(SendError::ActorStopped));
    let request: DynamicAskRequest<'_, &str, u64, String, u32> = actor_ref.ask("m");
    assert_eq!(ask_result(request.send_with_retry(9, Err(()))), Err(SendError::ActorStopped));
}

#[test]
fn an_ask_with_retry_recovers_over_a_new_connection() {
    for loss in [GossipError::Network, GossipError::PeerNotFound, GossipError::Shutdown] {
        for outcome in [AskOutcome::Answered(Err(loss)), AskOutcome::Streamed(Err(loss))] {
            let actor_ref = connected(5);
            let request: DynamicAskRequest<'_, &str, u64, String, u32> =
                actor_ref.ask("m").timeout(Duration::from_secs(7));
            let first = ask_transmit(request.send_with_retry(9, encoded(&[1])));
            let refresh = match first.completed(outcome) {
                AskStep::Refresh(refresh) => refresh,
                _ => panic!("a new connection is wanted"),
            };
            assert_eq!(refresh.reason, RefreshReason::Lost);
            let second = ask_transmit(refresh.completed(Ok(6)));
            assert_eq!(**second.conn.connection(), 6);
            assert_eq!(second.timeout, Duration::from_secs(7));
            assert_eq!(held_by(&actor_ref), Some(6));
            let reply = Bytes::from_static(b"pong");
            let result = ask_result(second.completed(AskOutcome::Answered(Ok(reply.clone()))));
            assert_eq!(result, Ok(reply));
        }
    }
}

#[test]
fn an_ask_with_retry_ends_with_what_the_second_transmission_gives() {
    let actor_ref = unconnected();
    let request: DynamicAskRequest<'_, &str, u64, String, u32> = actor_ref.ask("m");
    let refresh = match request.send_raw_with_retry(9, encoded(&[1])) {
        AskStep::Refresh(refresh) => refresh,
        _ => panic!("a connection is wanted"),
    };
    assert_eq!(refresh.timeout, Duration::from_secs(2));
    let transmit = ask_transmit(refresh.completed(Ok(6)));
    let lost = AskOutcome::Answered(Err(GossipError::Network));
    assert_eq!(ask_result(transmit.completed(lost)), Err(SendError::ActorStopped));

    let request: DynamicAskRequest<'_, &str, u64, String, u32> = actor_ref.ask("m");
    let first = ask_transmit(request.send_raw_with_retry(9, encoded(&[1])));
    let refresh = match first.completed(AskOutcome::Streamed(Err(GossipError::Shutdown))) {
        AskStep::Refresh(refresh) => refresh,
        _ => panic!("a new connection is wanted"),
    };
    let again = match refresh.completed(Err(GossipError::Network)) {
        AskStep::Refresh(refresh) => refresh,
        _ => panic!("a new connection is wanted"),
    };
    assert_eq!(again.reason, RefreshReason::Missing);
    let result = ask_result(again.completed(Err(GossipError::Network)));
    assert_eq!(result, Err(SendError::ActorStopped));
}

#[test]
fn an_ask_is_sent_again_only_after_a_lost_connection() {
    let finals: Vec<(AskOutcome, SendError)> = vec![
        (AskOutcome::Answered(Err(GossipError::Timeout)), SendError::ActorStopped),
        (AskOutcome::Answered(Err(GossipError::Other)), SendError::ActorStopped),
        (AskOutcome::Streamed(Err(GossipError::Timeout)), SendError::Timeout(None)),
        (AskOutcome::Streamed(Err(GossipError::Other)), SendError::ActorStopped),
        (AskOutcome::NotEncoded, SendError::ActorStopped),
        (AskOutcome::Elapsed, SendError::Timeout(None)),
    ];
    for (outcome, error) in finals {
        let actor_ref = connected(5);
        let request: DynamicAskRequest<'_, &str, u64, String, u32> = actor_ref.ask("m");
        let first = ask_transmit(request.send_raw_with_retry(9, encoded(&[1])));
        assert_eq!(first.attempt, Attempt::First);
        assert_eq!(ask_result(first.completed(outcome)), Err(error));
    }
}

#[test]
fn an_ask_without_a_timeout_is_an_ask_with_two_seconds() {
    let actor_ref = connected(5);
    let request: DynamicAskRequest<'_, &str, u64, String, u32> = actor_ref.ask("m");
    let unset = ask_transmit(request.send_raw(9, encoded(&[1])));
    let request: DynamicAskRequest<'_, &str, u64, String, u32> =
        actor_ref.ask("m").timeout(Duration::from_secs(2));
    let set = ask_transmit(request.send_raw(9, encoded(&[1])));
    assert_eq!(unset.timeout, set.timeout);
    assert_eq!(unset.timeout, Duration::from_millis(2000));
}

#[test]
fn a_tell_that_is_not_sent_in_time_times_out() {
    let limit = Duration::from_millis(250);
    let actor_ref = connected(5);
    let transmit = tell_transmit(actor_ref.tell("m").timeout(limit).send(1, encoded(&[1])));
    assert_eq!(transmit.timeout, Some(limit));
    let result = tell_result(transmit.completed(TellOutcome::Elapsed));
    assert_eq!(result, Err(SendError::Timeout(None)));

    let request = actor_ref.tell("m").timeout(limit);
    let first = tell_transmit(request.send_with_retry(1, encoded(&[1])));
    assert_eq!(first.timeout, Some(limit));
    let result = tell_result(first.completed(TellOutcome::Elapsed));
    assert_eq!(result, Err(SendError::Timeout(None)));

    let request = actor_ref.tell("m").timeout(limit);
    let first = tell_transmit(request.send_with_retry(1, encoded(&[1])));
    let refresh = match first.completed(TellOutcome::Sent(Err(GossipError::Network))) {
        TellStep::Refresh(refresh) => refresh,
        _ => panic!("a new connection is wanted"),
    };
    let second = tell_transmit(refresh.completed(Ok(6)));
    assert_eq!(second.timeout, Some(limit));
    let result = tell_result(second.completed(TellOutcome::Elapsed));
    assert_eq!(result, Err(SendError::Timeout(None)));

    let unlimited = tell_transmit(actor_ref.tell("m").send(1, encoded(&[1])));
    assert_eq!(unlimited.timeout, None);
}

#[test]
fn a_reply_that_cannot_be_decoded_is_no_reply() {
    assert_eq!(DynamicAskRequest::<'_, &str, u64, String, u32>::reply::<()>(Ok(3)), Ok(3));
    assert_eq!(
        DynamicAskRequest::<'_, &str, u64, String, u32>::reply(Err("truncated")),
        Err(SendError::ActorStopped)
    );
}

#[test]
fn connection_errors_are_told_apart() {
    assert!(Ref::is_connection_error(&GossipError::Network));
    assert!(Ref::is_connection_error(&GossipError::PeerNotFound));
    assert!(Ref::is_connection_error(&GossipError::Shutdown));
    assert!(!Ref::is_connection_error(&GossipError::Timeout));
    assert!(!Ref::is_connection_error(&GossipError::Other));
    assert!(is_connection_error(&SendError::ActorStopped));
    assert!(is_connection_error(&SendError::MissingConnection));
    assert!(!is_connection_error(&SendError::Timeout(None)));
}
