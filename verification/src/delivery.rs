//! How a message is delivered: which transmission or which new connection comes next, given how
//! the last one went.

use crate::connection_slot::Held;
use crate::dynamic_distributed_actor_ref::DynamicDistributedActorRef;
use crate::error::{GossipError, SendError};
use crate::wire::{actor_message, tell_frame, ActorMessage};
use bytes::Bytes;
use std::sync::Arc;
use std::time::Duration;
use vstd::prelude::*;

verus! {

/// `bytes::Bytes`: a reference-counted run of bytes.
#[verifier::external_type_specification]
#[verifier::external_body]
pub struct ExBytes(Bytes);

/// The bytes that a `bytes::Bytes` holds.
pub uninterp spec fn bytes_contents(b: Bytes) -> Seq<u8>;

/// `bytes::Bytes::copy_from_slice` holds a copy of the bytes that it is given.
pub assume_specification[ Bytes::copy_from_slice ](data: &[u8]) -> (b: Bytes)
    ensures
        bytes_contents(b) == data@,
;

/// The duration of `secs` whole seconds: what `std::time::Duration::from_secs` returns.
pub uninterp spec fn whole_seconds(secs: u64) -> Duration;

/// `std::time::Duration::from_secs` returns the duration of so many whole seconds, which its
/// argument alone decides. Nothing else is said of a duration, which is opaque.
pub assume_specification[ Duration::from_secs ](secs: u64) -> (duration: Duration)
    ensures
        duration == whole_seconds(secs),
;

/// Whether a transmission may be followed by another.
#[derive(Clone, Copy, Debug, PartialEq, Eq, Structural)]
pub enum Attempt {
    /// A lost connection is replaced, and the message is sent again.
    First,
    /// Whatever comes back is the result.
    Last,
}

/// Why a new connection is wanted.
#[derive(Clone, Copy, Debug, PartialEq, Eq, Structural)]
pub enum RefreshReason {
    /// The connection was lost in the first transmission.
    Lost,
    /// There is no connection.
    Missing,
}

/// How long a reply is waited for where the caller does not say.
pub const DEFAULT_TIMEOUT_SECS: u64 = 2;

/// How long the reply to a streamed message is waited for, before what its size adds.
pub const STREAMING_TIMEOUT_SECS: u64 = 30;

/// The size that adds a second to the timeout of a streamed message.
pub const STREAMING_BYTES_PER_SEC: u64 = 1_048_576;

/// A message on its way: to whom, of which type, and its bytes.
#[verifier::reject_recursive_types(C)]
pub struct Delivery<'a, T, C> {
    pub actor_ref: &'a DynamicDistributedActorRef<T, C>,
    pub type_hash: u32,
    pub payload: Vec<u8>,
}

/// What a tell needs next.
#[verifier::reject_recursive_types(C)]
pub enum TellStep<'a, T, C> {
    /// Send the frame over the connection and report how that went.
    Transmit(TellTransmit<'a, T, C>),
    /// Ask the transport for a connection and report how that went.
    Refresh(TellRefresh<'a, T, C>),
    /// Nothing: this is the result.
    Done(Result<(), SendError>),
}

#[verifier::reject_recursive_types(C)]
pub struct TellTransmit<'a, T, C> {
    pub delivery: Delivery<'a, T, C>,
    /// How long the transmission may take, where the caller set a limit.
    pub timeout: Option<Duration>,
    pub conn: Held<C>,
    pub attempt: Attempt,
}

#[verifier::reject_recursive_types(C)]
pub struct TellRefresh<'a, T, C> {
    pub delivery: Delivery<'a, T, C>,
    pub timeout: Option<Duration>,
    pub reason: RefreshReason,
}

/// How a tell went.
pub enum TellOutcome {
    /// What the connection made of the frame.
    Sent(Result<(), GossipError>),
    /// The connection was not done with the frame in time.
    Elapsed,
}

impl<'a, T, C> Delivery<'a, T, C> {
    /// The frame that carries the message as a tell.
    pub open spec fn frame(self) -> Seq<u8> {
        crate::wire::tell_frame_bytes(self.actor_ref.actor_id, self.type_hash, self.payload@)
    }

    /// The connection `conn`, in the slot that the reference shares with its clones.
    pub open spec fn held(self, conn: C) -> Held<C> {
        Held::of(self.actor_ref.connection, Arc::new(conn))
    }

    /// `held` is what the slot that the reference shares with its clones may hold: a connection
    /// in that slot, or nothing, as long as the slot was made without a connection.
    pub open spec fn held_by_slot(self, held: Option<Held<C>>) -> bool {
        match held {
            Some(conn) => conn.slot() == self.actor_ref.connection,
            None => self.actor_ref.connection.made_with() is None,
        }
    }

    /// Starts a tell that is sent once, given the connection that the reference holds.
    pub fn tell(self, timeout: Option<Duration>, held: Option<Held<C>>) -> (step: TellStep<
        'a,
        T,
        C,
    >)
        ensures
            step == first_tell(self, timeout, held),
    {
        match held {
            Some(conn) => TellStep::Transmit(
                TellTransmit { delivery: self, timeout, conn, attempt: Attempt::Last },
            ),
            None => TellStep::Done(Err(SendError::MissingConnection)),
        }
    }

    /// Starts a tell that may be sent again, given the connection that the reference holds.
    pub fn tell_with_retry(
        self,
        timeout: Option<Duration>,
        held: Option<Held<C>>,
    ) -> (step: TellStep<'a, T, C>)
        ensures
            step == first_tell_with_retry(self, timeout, held),
    {
        match held {
            Some(conn) => TellStep::Transmit(
                TellTransmit { delivery: self, timeout, conn, attempt: Attempt::First },
            ),
            None => TellStep::Refresh(
                TellRefresh { delivery: self, timeout, reason: RefreshReason::Missing },
            ),
        }
    }

    /// Starts an ask that is sent once, given the connection that the reference holds.
    pub fn ask(self, timeout: Option<Duration>, held: Option<Held<C>>) -> (step: AskStep<'a, T, C>)
        ensures
            step == first_ask(self, timeout, held),
    {
        match held {
            Some(conn) => AskStep::Transmit(
                AskTransmit {
                    delivery: self,
                    timeout: reply_timeout_of(timeout),
                    conn,
                    attempt: Attempt::Last,
                },
            ),
            None => AskStep::Done(Err(SendError::MissingConnection)),
        }
    }

    /// Starts an ask that may be sent again, given the connection that the reference holds.
    pub fn ask_with_retry(self, timeout: Option<Duration>, held: Option<Held<C>>) -> (step: AskStep<
        'a,
        T,
        C,
    >)
        ensures
            step == first_ask_with_retry(self, timeout, held),
    {
        match held {
            Some(conn) => AskStep::Transmit(
                AskTransmit {
                    delivery: self,
                    timeout: reply_timeout_of(timeout),
                    conn,
                    attempt: Attempt::First,
                },
            ),
            None => AskStep::Refresh(
                AskRefresh {
                    delivery: self,
                    timeout: reply_timeout_of(timeout),
                    reason: RefreshReason::Missing,
                },
            ),
        }
    }
}

/// The first step of a tell that is sent once, given the connection that the reference holds.
pub open spec fn first_tell<'a, T, C>(
    delivery: Delivery<'a, T, C>,
    timeout: Option<Duration>,
    held: Option<Held<C>>,
) -> TellStep<'a, T, C> {
    match held {
        Some(conn) => TellStep::Transmit(
            TellTransmit { delivery, timeout, conn, attempt: Attempt::Last },
        ),
        None => TellStep::Done(Err(SendError::MissingConnection)),
    }
}

/// The first step of a tell that may be sent again, given the connection that the reference
/// holds.
pub open spec fn first_tell_with_retry<'a, T, C>(
    delivery: Delivery<'a, T, C>,
    timeout: Option<Duration>,
    held: Option<Held<C>>,
) -> TellStep<'a, T, C> {
    match held {
        Some(conn) => TellStep::Transmit(
            TellTransmit { delivery, timeout, conn, attempt: Attempt::First },
        ),
        None => TellStep::Refresh(
            TellRefresh { delivery, timeout, reason: RefreshReason::Missing },
        ),
    }
}

/// The first step of an ask that is sent once, given the connection that the reference holds.
pub open spec fn first_ask<'a, T, C>(
    delivery: Delivery<'a, T, C>,
    timeout: Option<Duration>,
    held: Option<Held<C>>,
) -> AskStep<'a, T, C> {
    match held {
        Some(conn) => AskStep::Transmit(
            AskTransmit {
                delivery,
                timeout: reply_timeout(timeout),
                conn,
                attempt: Attempt::Last,
            },
        ),
        None => AskStep::Done(Err(SendError::MissingConnection)),
    }
}

/// The first step of an ask that may be sent again, given the connection that the reference
/// holds.
pub open spec fn first_ask_with_retry<'a, T, C>(
    delivery: Delivery<'a, T, C>,
    timeout: Option<Duration>,
    held: Option<Held<C>>,
) -> AskStep<'a, T, C> {
    match held {
        Some(conn) => AskStep::Transmit(
            AskTransmit {
                delivery,
                timeout: reply_timeout(timeout),
                conn,
                attempt: Attempt::First,
            },
        ),
        None => AskStep::Refresh(
            AskRefresh {
                delivery,
                timeout: reply_timeout(timeout),
                reason: RefreshReason::Missing,
            },
        ),
    }
}

/// What follows a transmission of a tell. Only a lost connection is worth another transmission;
/// a tell that was not sent in time is over.
pub open spec fn after_tell<'a, T, C>(
    sent: TellTransmit<'a, T, C>,
    outcome: TellOutcome,
) -> TellStep<'a, T, C> {
    match outcome {
        TellOutcome::Sent(Ok(())) => TellStep::Done(Ok(())),
        TellOutcome::Sent(Err(e)) => if sent.attempt is First && e.is_connection_loss() {
            TellStep::Refresh(
                TellRefresh {
                    delivery: sent.delivery,
                    timeout: sent.timeout,
                    reason: RefreshReason::Lost,
                },
            )
        } else {
            TellStep::Done(Err(SendError::ActorStopped))
        },
        TellOutcome::Elapsed => TellStep::Done(Err(SendError::Timeout(None))),
    }
}

/// What follows a request for a connection for a tell.
pub open spec fn after_tell_refresh<'a, T, C>(
    refresh: TellRefresh<'a, T, C>,
    fresh: Result<C, GossipError>,
) -> TellStep<'a, T, C> {
    match fresh {
        Ok(conn) => TellStep::Transmit(
            TellTransmit {
                delivery: refresh.delivery,
                timeout: refresh.timeout,
                conn: refresh.delivery.held(conn),
                attempt: Attempt::Last,
            },
        ),
        Err(_) => if refresh.reason is Lost {
            TellStep::Refresh(
                TellRefresh {
                    delivery: refresh.delivery,
                    timeout: refresh.timeout,
                    reason: RefreshReason::Missing,
                },
            )
        } else {
            TellStep::Done(Err(SendError::ActorStopped))
        },
    }
}

impl<'a, T, C> TellTransmit<'a, T, C> {
    /// The bytes to send.
    pub fn frame(&self) -> (frame: Vec<u8>)
        ensures
            frame@ == self.delivery.frame(),
    {
        tell_frame(
            self.delivery.actor_ref.actor_id,
            self.delivery.type_hash,
            self.delivery.payload.as_slice(),
        )
    }

    /// Takes note of how the transmission went.
    pub fn completed(self, outcome: TellOutcome) -> (step: TellStep<'a, T, C>)
        ensures
            step == after_tell(self, outcome),
    {
        match outcome {
            TellOutcome::Sent(Ok(())) => TellStep::Done(Ok(())),
            TellOutcome::Sent(Err(e)) => match self.attempt {
                Attempt::First if DynamicDistributedActorRef::<T, C>::is_connection_error(&e) => {
                    TellStep::Refresh(
                        TellRefresh {
                            delivery: self.delivery,
                            timeout: self.timeout,
                            reason: RefreshReason::Lost,
                        },
                    )
                },
                _ => TellStep::Done(Err(SendError::ActorStopped)),
            },
            TellOutcome::Elapsed => TellStep::Done(Err(SendError::Timeout(None))),
        }
    }
}

impl<'a, T, C> TellRefresh<'a, T, C> {
    /// Takes note of how the request for a connection went. A new connection is stored in the
    /// reference, for all its clones, and the message is sent over it.
    pub fn completed(self, fresh: Result<C, GossipError>) -> (step: TellStep<'a, T, C>)
        ensures
            step == after_tell_refresh(self, fresh),
    {
        match self.delivery.actor_ref.refresh_connection(fresh) {
            Ok(conn) => TellStep::Transmit(
                TellTransmit {
                    delivery: self.delivery,
                    timeout: self.timeout,
                    conn,
                    attempt: Attempt::Last,
                },
            ),
            Err(e) => match self.reason {
                RefreshReason::Lost => TellStep::Refresh(
                    TellRefresh {
                        delivery: self.delivery,
                        timeout: self.timeout,
                        reason: RefreshReason::Missing,
                    },
                ),
                RefreshReason::Missing => TellStep::Done(Err(e)),
            },
        }
    }
}

/// How an ask is put on the wire.
pub enum AskPlan {
    /// Stream the payload.
    Streaming { payload: Bytes, type_hash: u32, actor_id: u64, timeout: Duration },
    /// Send a single message.
    Regular { message: ActorMessage, timeout: Duration },
}

/// How an ask went.
pub enum AskOutcome {
    /// What came back for a streamed payload.
    Streamed(Result<Bytes, GossipError>),
    /// The single message could not be encoded, and was not sent.
    NotEncoded,
    /// What came back for a single message.
    Answered(Result<Bytes, GossipError>),
    /// Nothing came back for a single message in time.
    Elapsed,
}

/// What an ask needs next.
#[verifier::reject_recursive_types(C)]
pub enum AskStep<'a, T, C> {
    /// Send the message over the connection as planned and report how that went.
    Transmit(AskTransmit<'a, T, C>),
    /// Ask the transport for a connection and report how that went.
    Refresh(AskRefresh<'a, T, C>),
    /// Nothing: this is the result.
    Done(Result<Bytes, SendError>),
}

#[verifier::reject_recursive_types(C)]
pub struct AskTransmit<'a, T, C> {
    pub delivery: Delivery<'a, T, C>,
    /// How long the reply to a single message is waited for.
    pub timeout: Duration,
    pub conn: Held<C>,
    pub attempt: Attempt,
}

#[verifier::reject_recursive_types(C)]
pub struct AskRefresh<'a, T, C> {
    pub delivery: Delivery<'a, T, C>,
    pub timeout: Duration,
    pub reason: RefreshReason,
}

/// How long the reply to a single message is waited for: as long as the caller said, or else the
/// default.
pub open spec fn reply_timeout(timeout: Option<Duration>) -> Duration {
    match timeout {
        Some(duration) => duration,
        None => whole_seconds(DEFAULT_TIMEOUT_SECS),
    }
}

fn reply_timeout_of(timeout: Option<Duration>) -> (wait: Duration)
    ensures
        wait == reply_timeout(timeout),
{
    match timeout {
        Some(duration) => duration,
        None => Duration::from_secs(DEFAULT_TIMEOUT_SECS),
    }
}

/// How many seconds the reply to a streamed payload of `len` bytes is waited for.
pub open spec fn streaming_secs(len: nat) -> nat {
    STREAMING_TIMEOUT_SECS as nat + len / STREAMING_BYTES_PER_SEC as nat
}

/// What the outcome of an ask means to the caller. A timeout is told apart from other failures
/// where the payload was streamed, or where nothing came back at all.
pub open spec fn ask_result(outcome: AskOutcome) -> Result<Bytes, SendError> {
    match outcome {
        AskOutcome::Streamed(Ok(reply)) => Ok(reply),
        AskOutcome::Streamed(Err(GossipError::Timeout)) => Err(SendError::Timeout(None)),
        AskOutcome::Streamed(Err(_)) => Err(SendError::ActorStopped),
        AskOutcome::NotEncoded => Err(SendError::ActorStopped),
        AskOutcome::Answered(Ok(reply)) => Ok(reply),
        AskOutcome::Answered(Err(_)) => Err(SendError::ActorStopped),
        AskOutcome::Elapsed => Err(SendError::Timeout(None)),
    }
}

/// The connection was lost in the course of an ask. No other failure says so: neither that the
/// peer was late, nor that it failed in another way, nor that the message could not be encoded.
pub open spec fn ask_lost_connection(outcome: AskOutcome) -> bool {
    match outcome {
        AskOutcome::Streamed(Err(e)) => e.is_connection_loss(),
        AskOutcome::Answered(Err(e)) => e.is_connection_loss(),
        _ => false,
    }
}

/// What follows a transmission of an ask. Only a lost connection is worth another transmission.
pub open spec fn after_ask<'a, T, C>(sent: AskTransmit<'a, T, C>, outcome: AskOutcome) -> AskStep<
    'a,
    T,
    C,
> {
    if sent.attempt is First && ask_lost_connection(outcome) {
        AskStep::Refresh(
            AskRefresh {
                delivery: sent.delivery,
                timeout: sent.timeout,
                reason: RefreshReason::Lost,
            },
        )
    } else {
        AskStep::Done(ask_result(outcome))
    }
}

/// What follows a request for a connection for an ask.
pub open spec fn after_ask_refresh<'a, T, C>(
    refresh: AskRefresh<'a, T, C>,
    fresh: Result<C, GossipError>,
) -> AskStep<'a, T, C> {
    match fresh {
        Ok(conn) => AskStep::Transmit(
            AskTransmit {
                delivery: refresh.delivery,
                timeout: refresh.timeout,
                conn: refresh.delivery.held(conn),
                attempt: Attempt::Last,
            },
        ),
        Err(_) => if refresh.reason is Lost {
            AskStep::Refresh(
                AskRefresh {
                    delivery: refresh.delivery,
                    timeout: refresh.timeout,
                    reason: RefreshReason::Missing,
                },
            )
        } else {
            AskStep::Done(Err(SendError::ActorStopped))
        },
    }
}

impl<'a, T, C> AskTransmit<'a, T, C> {
    /// How to put the message on the wire of a connection that streams what is longer than
    /// `threshold`.
    pub fn plan(&self, threshold: usize) -> (plan: AskPlan)
        ensures
            ({
                let to = self.delivery.actor_ref.actor_id;
                let len = self.delivery.payload@.len();
                if len > threshold {
                    &&& plan matches AskPlan::Streaming { payload, type_hash, actor_id, timeout }
                    &&& bytes_contents(payload) == self.delivery.payload@
                    &&& type_hash == self.delivery.type_hash
                    &&& actor_id == to.id
                    &&& timeout == whole_seconds(streaming_secs(len) as u64)
                } else {
                    &&& plan matches AskPlan::Regular { message, timeout }
                    &&& message.actor_id@ == crate::wire::decimal(to.id as nat)
                    &&& message.type_hash == self.delivery.type_hash
                    &&& message.payload@ == self.delivery.payload@
                    &&& message.correlation_id is None
                    &&& timeout == self.timeout
                }
            }),
    {
        let actor_id = self.delivery.actor_ref.actor_id;
        let payload = self.delivery.payload.as_slice();
        if payload.len() > threshold {
            // The timeout grows with the size of the payload.
            let payload_mb: u64 = payload.len() as u64 / STREAMING_BYTES_PER_SEC;
            return AskPlan::Streaming {
                payload: Bytes::copy_from_slice(payload),
                type_hash: self.delivery.type_hash,
                actor_id: actor_id.into_u64(),
                timeout: Duration::from_secs(STREAMING_TIMEOUT_SECS + payload_mb),
            };
        }
        AskPlan::Regular {
            message: actor_message(actor_id, self.delivery.type_hash, payload),
            timeout: self.timeout,
        }
    }

    /// Takes note of how the transmission went.
    pub fn completed(self, outcome: AskOutcome) -> (step: AskStep<'a, T, C>)
        ensures
            step == after_ask(self, outcome),
    {
        let lost = match &outcome {
            AskOutcome::Streamed(Err(e)) | AskOutcome::Answered(Err(e)) => {
                DynamicDistributedActorRef::<T, C>::is_connection_error(e)
            },
            _ => false,
        };
        match self.attempt {
            Attempt::First if lost => AskStep::Refresh(
                AskRefresh {
                    delivery: self.delivery,
                    timeout: self.timeout,
                    reason: RefreshReason::Lost,
                },
            ),
            _ => AskStep::Done(result_of(outcome)),
        }
    }
}

/// What the outcome of an ask means to the caller.
fn result_of(outcome: AskOutcome) -> (result: Result<Bytes, SendError>)
    ensures
        result == ask_result(outcome),
{
    match outcome {
        AskOutcome::Streamed(Ok(reply)) => Ok(reply),
        AskOutcome::Streamed(Err(e)) => match e {
            GossipError::Timeout => Err(SendError::Timeout(None)),
            _ => Err(SendError::ActorStopped),
        },
        AskOutcome::NotEncoded => Err(SendError::ActorStopped),
        AskOutcome::Answered(Ok(reply)) => Ok(reply),
        AskOutcome::Answered(Err(_)) => Err(SendError::ActorStopped),
        AskOutcome::Elapsed => Err(SendError::Timeout(None)),
    }
}

/// Whether `err` may come of a connection that is of no more use. It may have come of something
/// else: how an ask went says more than the error that the caller gets.
pub fn is_connection_error(err: &SendError) -> (lost: bool)
    ensures
        lost == err.is_connection_loss(),
{
    matches!(err, SendError::ActorStopped | SendError::MissingConnection)
}

impl<'a, T, C> AskRefresh<'a, T, C> {
    /// Takes note of how the request for a connection went. A new connection is stored in the
    /// reference, for all its clones, and the message is sent over it.
    pub fn completed(self, fresh: Result<C, GossipError>) -> (step: AskStep<'a, T, C>)
        ensures
            step == after_ask_refresh(self, fresh),
    {
        match self.delivery.actor_ref.refresh_connection(fresh) {
            Ok(conn) => AskStep::Transmit(
                AskTransmit {
                    delivery: self.delivery,
                    timeout: self.timeout,
                    conn,
                    attempt: Attempt::Last,
                },
            ),
            Err(e) => match self.reason {
                RefreshReason::Lost => AskStep::Refresh(
                    AskRefresh {
                        delivery: self.delivery,
                        timeout: self.timeout,
                        reason: RefreshReason::Missing,
                    },
                ),
                RefreshReason::Missing => AskStep::Done(Err(e)),
            },
        }
    }
}

} // verus!
