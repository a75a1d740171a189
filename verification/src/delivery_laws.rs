//! What holds of a delivery from its first step to its result.

use crate::connection_slot::Held;
use crate::delivery::{
    AskOutcome, AskRefresh, AskStep, AskTransmit, Attempt, Delivery, RefreshReason, TellOutcome,
    TellRefresh, TellStep, TellTransmit,
};
use crate::error::{GossipError, SendError};
use std::time::Duration;
use vstd::prelude::*;

verus! {

/// What is reported to a tell.
#[verifier::reject_recursive_types(C)]
pub enum TellReport<C> {
    Sent(TellOutcome),
    Connected(Result<C, GossipError>),
}

/// The step that follows `step` once `report` is in. A report that `step` does not ask for
/// changes nothing.
pub open spec fn tell_next<'a, T, C>(step: TellStep<'a, T, C>, report: TellReport<C>) -> TellStep<
    'a,
    T,
    C,
> {
    match (step, report) {
        (TellStep::Transmit(sent), TellReport::Sent(outcome)) => {
            crate::delivery::after_tell(sent, outcome)
        },
        (TellStep::Refresh(refresh), TellReport::Connected(fresh)) => {
            crate::delivery::after_tell_refresh(refresh, fresh)
        },
        _ => step,
    }
}

/// The step that a tell has come to after `reports`.
pub open spec fn tell_run<'a, T, C>(
    step: TellStep<'a, T, C>,
    reports: Seq<TellReport<C>>,
) -> TellStep<'a, T, C>
    decreases reports.len(),
{
    if reports.len() == 0 {
        step
    } else {
        tell_next(tell_run(step, reports.drop_last()), reports.last())
    }
}

/// How often the message was sent in the course of `reports`.
pub open spec fn tell_transmissions<'a, T, C>(
    step: TellStep<'a, T, C>,
    reports: Seq<TellReport<C>>,
) -> nat
    decreases reports.len(),
{
    if reports.len() == 0 {
        0
    } else {
        let earlier = reports.drop_last();
        let sent = tell_run(step, earlier) is Transmit && reports.last() is Sent;
        tell_transmissions(step, earlier) + if sent {
            1nat
        } else {
            0
        }
    }
}

/// How often a connection was asked for in the course of `reports`.
pub open spec fn tell_refreshes<'a, T, C>(
    step: TellStep<'a, T, C>,
    reports: Seq<TellReport<C>>,
) -> nat
    decreases reports.len(),
{
    if reports.len() == 0 {
        0
    } else {
        let earlier = reports.drop_last();
        let asked = tell_run(step, earlier) is Refresh && reports.last() is Connected;
        tell_refreshes(step, earlier) + if asked {
            1nat
        } else {
            0
        }
    }
}

/// How often the message of a tell at `step` can still be sent.
spec fn tell_sends_left<'a, T, C>(step: TellStep<'a, T, C>) -> nat {
    match step {
        TellStep::Transmit(sent) => if sent.attempt is First {
            2
        } else {
            1
        },
        TellStep::Refresh(_) => 1,
        TellStep::Done(_) => 0,
    }
}

/// How often a tell at `step` can still ask for a connection.
spec fn tell_refreshes_left<'a, T, C>(step: TellStep<'a, T, C>) -> nat {
    match step {
        TellStep::Transmit(sent) => if sent.attempt is First {
            2
        } else {
            0
        },
        TellStep::Refresh(refresh) => if refresh.reason is Lost {
            2
        } else {
            1
        },
        TellStep::Done(_) => 0,
    }
}

/// Whatever a tell at `step` sends is `delivery`, within `timeout`.
spec fn tells<'a, T, C>(
    step: TellStep<'a, T, C>,
    delivery: Delivery<'a, T, C>,
    timeout: Option<Duration>,
) -> bool {
    match step {
        TellStep::Transmit(sent) => sent.delivery == delivery && sent.timeout == timeout,
        TellStep::Refresh(refresh) => refresh.delivery == delivery && refresh.timeout == timeout,
        TellStep::Done(_) => true,
    }
}

proof fn lemma_tell_run<'a, T, C>(
    delivery: Delivery<'a, T, C>,
    timeout: Option<Duration>,
    step: TellStep<'a, T, C>,
    reports: Seq<TellReport<C>>,
)
    requires
        tells(step, delivery, timeout),
    ensures
        tells(tell_run(step, reports), delivery, timeout),
        tell_transmissions(step, reports) + tell_sends_left(tell_run(step, reports))
            <= tell_sends_left(step),
        tell_refreshes(step, reports) + tell_refreshes_left(tell_run(step, reports))
            <= tell_refreshes_left(step),
    decreases reports.len(),
{
    if reports.len() > 0 {
        lemma_tell_run(delivery, timeout, step, reports.drop_last());
    }
}

/// A tell with retry is sent at most twice and asks for a connection at most twice, whatever is
/// reported to it; what it sends is the same message, to the same actor, with the same timeout
/// each time.
pub proof fn tell_with_retry_sends_at_most_twice<'a, T, C>(
    delivery: Delivery<'a, T, C>,
    timeout: Option<Duration>,
    held: Option<Held<C>>,
    reports: Seq<TellReport<C>>,
)
    ensures
        ({
            let start = crate::delivery::first_tell_with_retry(delivery, timeout, held);
            let now = tell_run(start, reports);
            &&& tell_transmissions(start, reports) <= 2
            &&& tell_refreshes(start, reports) <= 2
            &&& now matches TellStep::Transmit(sent) ==> sent.delivery == delivery && sent.timeout
                == timeout
            &&& now matches TellStep::Refresh(refresh) ==> refresh.delivery == delivery
                && refresh.timeout == timeout
        }),
{
    let start = crate::delivery::first_tell_with_retry(delivery, timeout, held);
    lemma_tell_run(delivery, timeout, start, reports);
}

/// A tell without retry is sent at most once and asks for no connection.
pub proof fn tell_sends_at_most_once<'a, T, C>(
    delivery: Delivery<'a, T, C>,
    timeout: Option<Duration>,
    held: Option<Held<C>>,
    reports: Seq<TellReport<C>>,
)
    ensures
        ({
            let start = crate::delivery::first_tell(delivery, timeout, held);
            let now = tell_run(start, reports);
            &&& tell_transmissions(start, reports) <= 1
            &&& tell_refreshes(start, reports) == 0
            &&& now matches TellStep::Transmit(sent) ==> sent.delivery == delivery && sent.timeout
                == timeout
        }),
{
    let start = crate::delivery::first_tell(delivery, timeout, held);
    lemma_tell_run(delivery, timeout, start, reports);
}

/// A tell that loses its connection succeeds where a new connection can be had and takes the
/// message: the same frame goes out over the new connection, which was stored in the slot that
/// the reference shares with its clones.
pub proof fn tell_recovers_over_a_new_connection<'a, T, C>(
    delivery: Delivery<'a, T, C>,
    timeout: Option<Duration>,
    held: Held<C>,
    loss: GossipError,
    conn: C,
)
    requires
        loss.is_connection_loss(),
    ensures
        ({
            let start = crate::delivery::first_tell_with_retry(delivery, timeout, Some(held));
            let reports = seq![
                TellReport::Sent(TellOutcome::Sent(Err(loss))),
                TellReport::Connected(Ok(conn)),
            ];
            &&& tell_run(start, reports) matches TellStep::Transmit(again)
            &&& again.delivery.frame() == delivery.frame()
            &&& again.timeout == timeout
            &&& *again.conn.conn() == conn
            &&& again.conn.slot() == delivery.actor_ref.connection
            &&& tell_run(start, reports.push(TellReport::Sent(TellOutcome::Sent(Ok(())))))
                == TellStep::<'a, T, C>::Done(Ok(()))
        }),
{
    broadcast use Held::is_conn_and_slot;

    let start = crate::delivery::first_tell_with_retry(delivery, timeout, Some(held));
    let lost: TellReport<C> = TellReport::Sent(TellOutcome::Sent(Err(loss)));
    let reports: Seq<TellReport<C>> = seq![lost, TellReport::Connected(Ok(conn))];
    reveal_with_fuel(tell_run, 4);
    assert(reports.drop_last() =~= seq![lost]);
    assert(reports.drop_last().drop_last() =~= Seq::empty());
    assert(reports.push(TellReport::Sent(TellOutcome::Sent(Ok(())))).drop_last() =~= reports);
}

/// A tell is sent again only after its connection was lost.
pub proof fn only_a_lost_connection_repeats_a_tell<'a, T, C>(
    sent: TellTransmit<'a, T, C>,
    outcome: TellOutcome,
)
    ensures
        crate::delivery::after_tell(sent, outcome) is Done || (outcome matches TellOutcome::Sent(
            Err(loss),
        ) && loss.is_connection_loss()),
{
}

/// A tell that was not sent in time ends with a timeout, whichever transmission it was.
pub proof fn tell_timeout_is_final<'a, T, C>(sent: TellTransmit<'a, T, C>)
    ensures
        crate::delivery::after_tell(sent, TellOutcome::Elapsed) == TellStep::<'a, T, C>::Done(
            Err(SendError::Timeout(None)),
        ),
{
}

/// What is reported to an ask.
#[verifier::reject_recursive_types(C)]
pub enum AskReport<C> {
    Sent(AskOutcome),
    Connected(Result<C, GossipError>),
}

/// The step that follows `step` once `report` is in. A report that `step` does not ask for
/// changes nothing.
pub open spec fn ask_next<'a, T, C>(step: AskStep<'a, T, C>, report: AskReport<C>) -> AskStep<
    'a,
    T,
    C,
> {
    match (step, report) {
        (AskStep::Transmit(sent), AskReport::Sent(outcome)) => {
            crate::delivery::after_ask(sent, outcome)
        },
        (AskStep::Refresh(refresh), AskReport::Connected(fresh)) => {
            crate::delivery::after_ask_refresh(refresh, fresh)
        },
        _ => step,
    }
}

/// The step that an ask has come to after `reports`.
pub open spec fn ask_run<'a, T, C>(
    step: AskStep<'a, T, C>,
    reports: Seq<AskReport<C>>,
) -> AskStep<'a, T, C>
    decreases reports.len(),
{
    if reports.len() == 0 {
        step
    } else {
        ask_next(ask_run(step, reports.drop_last()), reports.last())
    }
}

/// How often the message was sent in the course of `reports`.
pub open spec fn ask_transmissions<'a, T, C>(
    step: AskStep<'a, T, C>,
    reports: Seq<AskReport<C>>,
) -> nat
    decreases reports.len(),
{
    if reports.len() == 0 {
        0
    } else {
        let earlier = reports.drop_last();
        let sent = ask_run(step, earlier) is Transmit && reports.last() is Sent;
        ask_transmissions(step, earlier) + if sent {
            1nat
        } else {
            0
        }
    }
}

/// How often a connection was asked for in the course of `reports`.
pub open spec fn ask_refreshes<'a, T, C>(
    step: AskStep<'a, T, C>,
    reports: Seq<AskReport<C>>,
) -> nat
    decreases reports.len(),
{
    if reports.len() == 0 {
        0
    } else {
        let earlier = reports.drop_last();
        let asked = ask_run(step, earlier) is Refresh && reports.last() is Connected;
        ask_refreshes(step, earlier) + if asked {
            1nat
        } else {
            0
        }
    }
}

/// How often the message of an ask at `step` can still be sent.
spec fn ask_sends_left<'a, T, C>(step: AskStep<'a, T, C>) -> nat {
    match step {
        AskStep::Transmit(sent) => if sent.attempt is First {
            2
        } else {
            1
        },
        AskStep::Refresh(_) => 1,
        AskStep::Done(_) => 0,
    }
}

/// How often an ask at `step` can still ask for a connection.
spec fn ask_refreshes_left<'a, T, C>(step: AskStep<'a, T, C>) -> nat {
    match step {
        AskStep::Transmit(sent) => if sent.attempt is First {
            2
        } else {
            0
        },
        AskStep::Refresh(refresh) => if refresh.reason is Lost {
            2
        } else {
            1
        },
        AskStep::Done(_) => 0,
    }
}

/// Whatever an ask at `step` sends is `delivery`, and it waits as `timeout` says.
spec fn asks<'a, T, C>(
    step: AskStep<'a, T, C>,
    delivery: Delivery<'a, T, C>,
    timeout: Duration,
) -> bool {
    match step {
        AskStep::Transmit(sent) => sent.delivery == delivery && sent.timeout == timeout,
        AskStep::Refresh(refresh) => refresh.delivery == delivery && refresh.timeout == timeout,
        AskStep::Done(_) => true,
    }
}

proof fn lemma_ask_run<'a, T, C>(
    delivery: Delivery<'a, T, C>,
    timeout: Duration,
    step: AskStep<'a, T, C>,
    reports: Seq<AskReport<C>>,
)
    requires
        asks(step, delivery, timeout),
    ensures
        asks(ask_run(step, reports), delivery, timeout),
        ask_transmissions(step, reports) + ask_sends_left(ask_run(step, reports))
            <= ask_sends_left(step),
        ask_refreshes(step, reports) + ask_refreshes_left(ask_run(step, reports))
            <= ask_refreshes_left(step),
    decreases reports.len(),
{
    if reports.len() > 0 {
        lemma_ask_run(delivery, timeout, step, reports.drop_last());
    }
}

/// An ask with retry is sent at most twice and asks for a connection at most twice, whatever is
/// reported to it; what it sends is the same message, to the same actor, with the same timeout
/// each time.
pub proof fn ask_with_retry_sends_at_most_twice<'a, T, C>(
    delivery: Delivery<'a, T, C>,
    timeout: Option<Duration>,
    held: Option<Held<C>>,
    reports: Seq<AskReport<C>>,
)
    ensures
        ({
            let start = crate::delivery::first_ask_with_retry(delivery, timeout, held);
            let now = ask_run(start, reports);
            let wait = crate::delivery::reply_timeout(timeout);
            &&& ask_transmissions(start, reports) <= 2
            &&& ask_refreshes(start, reports) <= 2
            &&& now matches AskStep::Transmit(sent) ==> sent.delivery == delivery && sent.timeout
                == wait
            &&& now matches AskStep::Refresh(refresh) ==> refresh.delivery == delivery
                && refresh.timeout == wait
        }),
{
    let start = crate::delivery::first_ask_with_retry(delivery, timeout, held);
    lemma_ask_run(delivery, crate::delivery::reply_timeout(timeout), start, reports);
}

/// An ask without retry is sent at most once and asks for no connection.
pub proof fn ask_sends_at_most_once<'a, T, C>(
    delivery: Delivery<'a, T, C>,
    timeout: Option<Duration>,
    held: Option<Held<C>>,
    reports: Seq<AskReport<C>>,
)
    ensures
        ({
            let start = crate::delivery::first_ask(delivery, timeout, held);
            let now = ask_run(start, reports);
            &&& ask_transmissions(start, reports) <= 1
            &&& ask_refreshes(start, reports) == 0
            &&& now matches AskStep::Transmit(sent) ==> sent.delivery == delivery && sent.timeout
                == crate::delivery::reply_timeout(timeout)
        }),
{
    let start = crate::delivery::first_ask(delivery, timeout, held);
    lemma_ask_run(delivery, crate::delivery::reply_timeout(timeout), start, reports);
}

/// An ask that loses its connection is answered where a new connection can be had and the reply
/// comes over it: the same message goes out over the new connection, which was stored in the slot
/// that the reference shares with its clones.
pub proof fn ask_recovers_over_a_new_connection<'a, T, C>(
    delivery: Delivery<'a, T, C>,
    timeout: Option<Duration>,
    held: Held<C>,
    loss: AskOutcome,
    conn: C,
    answer: AskOutcome,
)
    requires
        crate::delivery::ask_lost_connection(loss),
    ensures
        ({
            let start = crate::delivery::first_ask_with_retry(delivery, timeout, Some(held));
            let reports = seq![AskReport::Sent(loss), AskReport::Connected(Ok(conn))];
            &&& ask_run(start, reports) matches AskStep::Transmit(again)
            &&& again.delivery == delivery
            &&& again.timeout == crate::delivery::reply_timeout(timeout)
            &&& *again.conn.conn() == conn
            &&& again.conn.slot() == delivery.actor_ref.connection
            &&& ask_run(start, reports.push(AskReport::Sent(answer)))
                == AskStep::<'a, T, C>::Done(crate::delivery::ask_result(answer))
        }),
{
    broadcast use Held::is_conn_and_slot;

    let start = crate::delivery::first_ask_with_retry(delivery, timeout, Some(held));
    let reports: Seq<AskReport<C>> = seq![AskReport::Sent(loss), AskReport::Connected(Ok(conn))];
    reveal_with_fuel(ask_run, 4);
    assert(reports.drop_last() =~= seq![AskReport::Sent(loss)]);
    assert(reports.drop_last().drop_last() =~= Seq::empty());
    assert(reports.push(AskReport::Sent(answer)).drop_last() =~= reports);
}

/// An ask is sent again only after its connection was lost.
pub proof fn only_a_lost_connection_repeats_an_ask<'a, T, C>(
    sent: AskTransmit<'a, T, C>,
    outcome: AskOutcome,
)
    ensures
        crate::delivery::after_ask(sent, outcome) is Done || crate::delivery::ask_lost_connection(
            outcome,
        ),
{
}

/// An ask that timed out is not sent again, whoever noticed: it fails, and the caller learns of
/// the timeout where nothing came back or the payload was streamed.
pub proof fn ask_timeout_is_final<'a, T, C>(sent: AskTransmit<'a, T, C>, outcome: AskOutcome)
    requires
        outcome is Elapsed || outcome == AskOutcome::Streamed(Err(GossipError::Timeout)) || outcome
            == AskOutcome::Answered(Err(GossipError::Timeout)),
    ensures
        crate::delivery::after_ask(sent, outcome) == AskStep::<'a, T, C>::Done(
            Err(
                if outcome is Answered {
                    SendError::ActorStopped
                } else {
                    SendError::Timeout(None)
                },
            ),
        ),
{
}

/// An ask without a timeout is an ask with a timeout of two seconds, and a timeout that is set
/// takes the place of the two seconds.
pub proof fn ask_waits_two_seconds_by_default<'a, T, C>(
    delivery: Delivery<'a, T, C>,
    held: Option<Held<C>>,
    duration: Duration,
)
    ensures
        ({
            let two_seconds = Some(crate::delivery::whole_seconds(2));
            let given = crate::delivery::first_ask(delivery, Some(duration), held);
            let given_with_retry = crate::delivery::first_ask_with_retry(
                delivery,
                Some(duration),
                held,
            );
            &&& crate::delivery::first_ask(delivery, None, held) == crate::delivery::first_ask(
                delivery,
                two_seconds,
                held,
            )
            &&& crate::delivery::first_ask_with_retry(delivery, None, held)
                == crate::delivery::first_ask_with_retry(delivery, two_seconds, held)
            &&& given matches AskStep::Transmit(sent) ==> sent.timeout == duration
            &&& given_with_retry matches AskStep::Transmit(sent) ==> sent.timeout == duration
            &&& given_with_retry matches AskStep::Refresh(refresh) ==> refresh.timeout == duration
        }),
{
}

/// A connection that was stored through one of two references that share a slot was held by the
/// slot of the other.
pub proof fn clones_share_the_connection<'a, T, C>(
    one: Delivery<'a, T, C>,
    other: Delivery<'a, T, C>,
    conn: C,
)
    requires
        one.actor_ref.connection == other.actor_ref.connection,
    ensures
        other.held_by_slot(Some(one.held(conn))),
        one.held(conn) == other.held(conn),
{
    broadcast use Held::is_conn_and_slot;

}

/// The errors of a connection that is lost: the network failed, the peer is not known, or the
/// connection is shut down. Of what the caller gets, all but a timeout may come of that.
pub proof fn losses_are_told_from_other_errors(e: GossipError, err: SendError)
    ensures
        e.is_connection_loss() <==> e == GossipError::Network || e == GossipError::PeerNotFound || e
            == GossipError::Shutdown,
        err.is_connection_loss() <==> err == SendError::ActorStopped || err
            == SendError::MissingConnection,
{
}

/// A reference hands out only connections of its own slot, and says that it has none only where it
/// was made without one. A new connection goes into that slot.
pub proof fn connections_come_from_the_slot<'a, T, C>(
    delivery: Delivery<'a, T, C>,
    held: Held<C>,
    conn: C,
)
    ensures
        delivery.held_by_slot(Some(held)) <==> held.slot() == delivery.actor_ref.connection,
        delivery.held_by_slot(None) <==> delivery.actor_ref.connection.made_with() is None,
        *delivery.held(conn).conn() == conn,
        delivery.held(conn).slot() == delivery.actor_ref.connection,
{
    broadcast use Held::is_conn_and_slot;

}

/// The frame of a message names the actor that the message is for and the type of the message, and
/// ends with the message, unchanged.
pub proof fn frame_carries_the_message_to_its_actor<'a, T, C>(delivery: Delivery<'a, T, C>)
    ensures
        ({
            let f = delivery.frame();
            let n = delivery.payload@.len();
            &&& f.len() == 32 + n
            &&& 0x100_0000_0000_0000 * f[16] + 0x1_0000_0000_0000 * f[17] + 0x100_0000_0000 * f[18]
                + 0x1_0000_0000 * f[19] + 0x100_0000 * f[20] + 0x1_0000 * f[21] + 0x100 * f[22]
                + f[23] == delivery.actor_ref.actor_id.id
            &&& 0x100_0000 * f[24] + 0x1_0000 * f[25] + 0x100 * f[26] + f[27] == delivery.type_hash
            &&& forall|i: int| 0 <= i < n ==> f[32 + i] == #[trigger] delivery.payload@[i]
            &&& f == crate::wire::tell_frame_bytes(
                delivery.actor_ref.actor_id,
                delivery.type_hash,
                delivery.payload@,
            )
        }),
{
    crate::wire::tell_frame_spells_its_fields(
        delivery.actor_ref.actor_id,
        delivery.type_hash,
        delivery.payload@,
    );
}

/// Without a connection a tell that is sent once fails at once. With one, the message goes out
/// over that connection, and what comes of it is the end.
pub proof fn tell_tries_its_connection_once<'a, T, C>(
    delivery: Delivery<'a, T, C>,
    timeout: Option<Duration>,
    held: Held<C>,
    outcome: TellOutcome,
)
    ensures
        crate::delivery::first_tell(delivery, timeout, None) == TellStep::<'a, T, C>::Done(
            Err(SendError::MissingConnection),
        ),
        ({
            &&& crate::delivery::first_tell(delivery, timeout, Some(held))
                matches TellStep::Transmit(sent)
            &&& sent.delivery == delivery
            &&& sent.timeout == timeout
            &&& sent.conn == held
            &&& crate::delivery::after_tell(sent, outcome) is Done
        }),
{
}

/// Without a connection a tell with retry first asks for one, and fails if there is none to be
/// had. With one, the message goes out over that connection, and once more only if it is lost.
pub proof fn tell_with_retry_tries_its_connection_first<'a, T, C>(
    delivery: Delivery<'a, T, C>,
    timeout: Option<Duration>,
    held: Held<C>,
    outcome: TellOutcome,
    e: GossipError,
)
    ensures
        ({
            &&& crate::delivery::first_tell_with_retry(delivery, timeout, None)
                matches TellStep::Refresh(refresh)
            &&& refresh.delivery == delivery
            &&& refresh.timeout == timeout
            &&& crate::delivery::after_tell_refresh(refresh, Err(e)) == TellStep::<'a, T, C>::Done(
                Err(SendError::ActorStopped),
            )
        }),
        ({
            let lost = outcome == TellOutcome::Sent(Err(GossipError::Network)) || outcome
                == TellOutcome::Sent(Err(GossipError::PeerNotFound)) || outcome
                == TellOutcome::Sent(Err(GossipError::Shutdown));
            &&& crate::delivery::first_tell_with_retry(delivery, timeout, Some(held))
                matches TellStep::Transmit(sent)
            &&& sent.delivery == delivery
            &&& sent.timeout == timeout
            &&& sent.conn == held
            &&& crate::delivery::after_tell(sent, outcome) is Refresh <==> lost
            &&& crate::delivery::after_tell(sent, outcome) is Done <==> !lost
        }),
{
}

/// A tell has succeeded exactly when the connection took the frame, whichever transmission that
/// was.
pub proof fn tell_succeeds_exactly_when_it_was_sent<'a, T, C>(
    sent: TellTransmit<'a, T, C>,
    outcome: TellOutcome,
)
    ensures
        crate::delivery::after_tell(sent, outcome) == TellStep::<'a, T, C>::Done(Ok(()))
            <==> outcome == TellOutcome::Sent(Ok(())),
        crate::delivery::after_tell(sent, outcome) !is Transmit,
{
    if let TellOutcome::Sent(Ok(nothing)) = outcome {
        assert(nothing == ());
    }
}

/// A tell whose transmission failed: a first transmission over a connection that is lost is
/// followed by a request for another, for the same message; any other failure is the end.
pub proof fn failed_tell_is_repeated_or_over<'a, T, C>(sent: TellTransmit<'a, T, C>, e: GossipError)
    ensures
        ({
            let step = crate::delivery::after_tell(sent, TellOutcome::Sent(Err(e)));
            let lost = e == GossipError::Network || e == GossipError::PeerNotFound || e
                == GossipError::Shutdown;
            &&& step is Refresh <==> lost && sent.attempt == Attempt::First
            &&& step matches TellStep::Refresh(refresh) ==> refresh.delivery == sent.delivery
                && refresh.timeout == sent.timeout && refresh.reason == RefreshReason::Lost
            &&& step !is Refresh ==> step == TellStep::<'a, T, C>::Done(
                Err(SendError::ActorStopped),
            )
        }),
{
}

/// A new connection is used for the same message, for the last time; where none can be had, a
/// tell that lost its connection asks once more, and then gives up.
pub proof fn tell_goes_on_over_what_it_gets<'a, T, C>(
    refresh: TellRefresh<'a, T, C>,
    conn: C,
    e: GossipError,
    later: GossipError,
    outcome: TellOutcome,
)
    ensures
        ({
            &&& crate::delivery::after_tell_refresh(refresh, Ok(conn)) matches TellStep::Transmit(
                sent,
            )
            &&& sent.delivery == refresh.delivery
            &&& sent.timeout == refresh.timeout
            &&& *sent.conn.conn() == conn
            &&& sent.conn.slot() == refresh.delivery.actor_ref.connection
            &&& crate::delivery::after_tell(sent, outcome) is Done
        }),
        refresh.reason == RefreshReason::Missing ==> crate::delivery::after_tell_refresh(
            refresh,
            Err(e),
        ) == TellStep::<'a, T, C>::Done(Err(SendError::ActorStopped)),
        refresh.reason == RefreshReason::Lost ==> {
            &&& crate::delivery::after_tell_refresh(refresh, Err(e)) matches TellStep::Refresh(
                again,
            )
            &&& again.delivery == refresh.delivery
            &&& again.timeout == refresh.timeout
            &&& crate::delivery::after_tell_refresh(again, Err(later))
                == TellStep::<'a, T, C>::Done(Err(SendError::ActorStopped))
        },
{
    broadcast use Held::is_conn_and_slot;

}

/// Without a connection an ask that is sent once fails at once. With one, the message goes out
/// over that connection, and what comes of it is the end.
pub proof fn ask_tries_its_connection_once<'a, T, C>(
    delivery: Delivery<'a, T, C>,
    timeout: Option<Duration>,
    held: Held<C>,
    outcome: AskOutcome,
)
    ensures
        crate::delivery::first_ask(delivery, timeout, None) == AskStep::<'a, T, C>::Done(
            Err(SendError::MissingConnection),
        ),
        ({
            &&& crate::delivery::first_ask(delivery, timeout, Some(held)) matches AskStep::Transmit(
                sent,
            )
            &&& sent.delivery == delivery
            &&& timeout matches Some(duration) ==> sent.timeout == duration
            &&& timeout is None ==> sent.timeout == crate::delivery::whole_seconds(2)
            &&& sent.conn == held
            &&& crate::delivery::after_ask(sent, outcome) is Done
        }),
{
}

/// Without a connection an ask with retry first asks for one, and fails if there is none to be
/// had. With one, the message goes out over that connection, and once more only if it is lost.
pub proof fn ask_with_retry_tries_its_connection_first<'a, T, C>(
    delivery: Delivery<'a, T, C>,
    timeout: Option<Duration>,
    held: Held<C>,
    outcome: AskOutcome,
    e: GossipError,
)
    ensures
        ({
            &&& crate::delivery::first_ask_with_retry(delivery, timeout, None)
                matches AskStep::Refresh(refresh)
            &&& refresh.delivery == delivery
            &&& timeout matches Some(duration) ==> refresh.timeout == duration
            &&& timeout is None ==> refresh.timeout == crate::delivery::whole_seconds(2)
            &&& crate::delivery::after_ask_refresh(refresh, Err(e)) == AskStep::<'a, T, C>::Done(
                Err(SendError::ActorStopped),
            )
        }),
        ({
            let lost = match outcome {
                AskOutcome::Answered(Err(loss)) => loss == GossipError::Network || loss
                    == GossipError::PeerNotFound || loss == GossipError::Shutdown,
                AskOutcome::Streamed(Err(loss)) => loss == GossipError::Network || loss
                    == GossipError::PeerNotFound || loss == GossipError::Shutdown,
                _ => false,
            };
            &&& crate::delivery::first_ask_with_retry(delivery, timeout, Some(held))
                matches AskStep::Transmit(sent)
            &&& sent.delivery == delivery
            &&& timeout matches Some(duration) ==> sent.timeout == duration
            &&& timeout is None ==> sent.timeout == crate::delivery::whole_seconds(2)
            &&& sent.conn == held
            &&& crate::delivery::after_ask(sent, outcome) is Refresh <==> lost
            &&& crate::delivery::after_ask(sent, outcome) is Done <==> !lost
        }),
{
}

/// A reply is the result of the ask, whichever transmission it answers, and an ask has no other
/// successful result than the reply that came.
pub proof fn ask_gives_the_reply_that_came<'a, T, C>(
    sent: AskTransmit<'a, T, C>,
    outcome: AskOutcome,
    reply: bytes::Bytes,
)
    ensures
        crate::delivery::after_ask(sent, outcome) == AskStep::<'a, T, C>::Done(Ok(reply)) <==> (
        outcome == AskOutcome::Answered(Ok(reply)) || outcome == AskOutcome::Streamed(Ok(reply))),
        crate::delivery::after_ask(sent, outcome) !is Transmit,
{
}

/// An ask whose transmission failed: a first transmission over a connection that is lost is
/// followed by a request for another, for the same message; any other failure is the end. A late
/// peer is told from others only where the payload was streamed.
pub proof fn failed_ask_is_repeated_or_over<'a, T, C>(
    sent: AskTransmit<'a, T, C>,
    e: GossipError,
    outcome: AskOutcome,
)
    requires
        outcome == AskOutcome::Answered(Err(e)) || outcome == AskOutcome::Streamed(Err(e)),
    ensures
        ({
            let step = crate::delivery::after_ask(sent, outcome);
            let lost = e == GossipError::Network || e == GossipError::PeerNotFound || e
                == GossipError::Shutdown;
            &&& step is Refresh <==> lost && sent.attempt == Attempt::First
            &&& step matches AskStep::Refresh(refresh) ==> refresh.delivery == sent.delivery
                && refresh.timeout == sent.timeout && refresh.reason == RefreshReason::Lost
            &&& step !is Refresh ==> step == AskStep::<'a, T, C>::Done(
                Err(
                    if outcome is Streamed && e == GossipError::Timeout {
                        SendError::Timeout(None)
                    } else {
                        SendError::ActorStopped
                    },
                ),
            )
        }),
{
}

/// An ask that was never put on the wire fails, and an ask that nothing came back for in time
/// times out; neither is sent again.
pub proof fn ask_without_an_answer_is_over<'a, T, C>(sent: AskTransmit<'a, T, C>)
    ensures
        crate::delivery::after_ask(sent, AskOutcome::NotEncoded) == AskStep::<'a, T, C>::Done(
            Err(SendError::ActorStopped),
        ),
        crate::delivery::after_ask(sent, AskOutcome::Elapsed) == AskStep::<'a, T, C>::Done(
            Err(SendError::Timeout(None)),
        ),
{
}

/// A new connection is used for the same message, for the last time; where none can be had, an
/// ask that lost its connection asks once more, and then gives up.
pub proof fn ask_goes_on_over_what_it_gets<'a, T, C>(
    refresh: AskRefresh<'a, T, C>,
    conn: C,
    e: GossipError,
    later: GossipError,
    outcome: AskOutcome,
)
    ensures
        ({
            &&& crate::delivery::after_ask_refresh(refresh, Ok(conn))
                matches AskStep::Transmit(sent)
            &&& sent.delivery == refresh.delivery
            &&& sent.timeout == refresh.timeout
            &&& *sent.conn.conn() == conn
            &&& sent.conn.slot() == refresh.delivery.actor_ref.connection
            &&& crate::delivery::after_ask(sent, outcome) is Done
        }),
        refresh.reason == RefreshReason::Missing ==> crate::delivery::after_ask_refresh(
            refresh,
            Err(e),
        ) == AskStep::<'a, T, C>::Done(Err(SendError::ActorStopped)),
        refresh.reason == RefreshReason::Lost ==> {
            &&& crate::delivery::after_ask_refresh(refresh, Err(e)) matches AskStep::Refresh(again)
            &&& again.delivery == refresh.delivery
            &&& again.timeout == refresh.timeout
            &&& crate::delivery::after_ask_refresh(again, Err(later)) == AskStep::<'a, T, C>::Done(
                Err(SendError::ActorStopped),
            )
        },
{
    broadcast use Held::is_conn_and_slot;

}

/// A streamed payload of less than a mebibyte is waited for half a minute, and each mebibyte more
/// adds a second.
pub proof fn streaming_adds_a_second_per_mebibyte(len: nat)
    ensures
        len < 1_048_576 ==> crate::delivery::streaming_secs(len) == 30,
        crate::delivery::streaming_secs(len + 1_048_576) == crate::delivery::streaming_secs(len)
            + 1,
{
}

} // verus!
