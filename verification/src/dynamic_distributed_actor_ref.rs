//! References to actors of other peers, and the requests that are sent through them.

use crate::connection_slot::{ConnectionSlot, Held};
use crate::delivery::{AskStep, Delivery, TellStep};
use crate::error::{GossipError, SendError};
use crate::ids::{ActorId, PeerAddr};
use std::marker::PhantomData;
use std::sync::Arc;
use std::time::Duration;
use vstd::prelude::*;

verus! {

/// Where a remote actor is.
#[derive(Clone, Copy, Debug, PartialEq, Eq, Structural)]
pub struct RemoteActorLocation {
    pub actor_id: ActorId,
    pub peer_addr: PeerAddr,
}

/// A reference to an actor of another peer.
///
/// All clones of a reference share one connection: when one of them replaces it, the others use
/// the new one.
#[verifier::reject_recursive_types(C)]
pub struct DynamicDistributedActorRef<T, C> {
    /// The actor's id.
    pub actor_id: ActorId,
    /// The actor's location.
    pub location: RemoteActorLocation,
    /// The transport to get connections from.
    pub transport: T,
    /// The connection, shared by all clones.
    pub connection: ConnectionSlot<C>,
}

impl<T: Clone, C> Clone for DynamicDistributedActorRef<T, C> {
    fn clone(&self) -> (copy: Self)
        ensures
            copy.actor_id == self.actor_id,
            copy.location == self.location,
            cloned::<T>(self.transport, copy.transport),
            copy.connection == self.connection,
    {
        DynamicDistributedActorRef {
            actor_id: self.actor_id,
            location: self.location,
            transport: self.transport.clone(),
            connection: self.connection.clone(),
        }
    }
}

/// What a lookup needs next.
pub enum LookupStep<T> {
    /// Ask the transport for a connection to the actor and report how that went.
    Connect(LookupConnect<T>),
    /// Nothing: there is no such actor.
    NotFound,
}

/// A lookup that found where the actor is.
pub struct LookupConnect<T> {
    pub location: RemoteActorLocation,
    pub transport: T,
}

impl<T> LookupConnect<T> {
    /// The reference, if there is a connection to the actor.
    pub fn connected<C, E>(self, connection: Result<C, E>) -> (found: Option<
        DynamicDistributedActorRef<T, C>,
    >)
        ensures
            match connection {
                Ok(conn) => {
                    &&& found matches Some(actor_ref)
                    &&& actor_ref.actor_id == self.location.actor_id
                    &&& actor_ref.location == self.location
                    &&& actor_ref.transport == self.transport
                    &&& actor_ref.connection.made_with() == Some(Arc::new(conn))
                },
                Err(_) => found is None,
            },
    {
        match connection {
            Ok(conn) => Some(
                DynamicDistributedActorRef {
                    actor_id: self.location.actor_id,
                    location: self.location,
                    transport: self.transport,
                    connection: ConnectionSlot::new(Some(Arc::new(conn))),
                },
            ),
            Err(_) => None,
        }
    }
}

impl<T, C> DynamicDistributedActorRef<T, C> {
    /// A reference that has no connection yet.
    pub fn new(actor_id: ActorId, location: RemoteActorLocation, transport: T) -> (actor_ref: Self)
        ensures
            actor_ref.actor_id == actor_id,
            actor_ref.location == location,
            actor_ref.transport == transport,
            actor_ref.connection.made_with() is None,
    {
        DynamicDistributedActorRef {
            actor_id,
            location,
            transport,
            connection: ConnectionSlot::new(None),
        }
    }

    /// The actor's id.
    pub fn id(&self) -> (actor_id: ActorId)
        ensures
            actor_id == self.actor_id,
    {
        self.actor_id
    }

    /// The actor's location.
    pub fn location(&self) -> (location: &RemoteActorLocation)
        ensures
            *location == self.location,
    {
        &self.location
    }

    /// A request to send `message` without waiting for a reply.
    pub fn tell<M>(&self, message: M) -> (request: DynamicTellRequest<'_, M, T, C>)
        ensures
            *request.actor_ref == *self,
            request.message == message,
            request.timeout is None,
    {
        DynamicTellRequest { actor_ref: self, message, timeout: None }
    }

    /// A request to send `message` and wait for a reply.
    pub fn ask<M, R>(&self, message: M) -> (request: DynamicAskRequest<'_, M, R, T, C>)
        ensures
            *request.actor_ref == *self,
            request.message == message,
            request.timeout is None,
    {
        DynamicAskRequest { actor_ref: self, message, timeout: None, _phantom_reply: PhantomData }
    }

    /// Looks an actor up, given what the transport `found` under its name.
    pub fn lookup<E>(found: Result<Option<RemoteActorLocation>, E>, transport: T) -> (step: Result<
        LookupStep<T>,
        E,
    >)
        ensures
            step == match found {
                Ok(Some(location)) => Ok(
                    LookupStep::Connect(LookupConnect { location, transport }),
                ),
                Ok(None) => Ok(LookupStep::NotFound),
                Err(e) => Err(e),
            },
    {
        match found {
            Ok(Some(location)) => Ok(LookupStep::Connect(LookupConnect { location, transport })),
            Ok(None) => Ok(LookupStep::NotFound),
            Err(e) => Err(e),
        }
    }

    /// The connection that the reference and its clones hold at the moment of the call. A
    /// reference that was made with a connection always holds one.
    pub fn load_connection(&self) -> (held: Option<Held<C>>)
        ensures
            match held {
                Some(conn) => conn.slot() == self.connection,
                None => self.connection.made_with() is None,
            },
    {
        self.connection.load()
    }

    /// Stores a new connection for the reference and all its clones, given what the transport
    /// answered.
    pub fn refresh_connection(&self, fresh: Result<C, GossipError>) -> (held: Result<
        Held<C>,
        SendError,
    >)
        ensures
            held == match fresh {
                Ok(conn) => Ok(Held::of(self.connection, Arc::new(conn))),
                Err(_) => Err(SendError::ActorStopped),
            },
    {
        match fresh {
            Ok(new_conn) => Ok(self.connection.store(new_conn)),
            Err(_) => Err(SendError::ActorStopped),
        }
    }

    /// Whether `err` means that the connection is lost, so that the message is worth sending again
    /// over a new one.
    pub fn is_connection_error(err: &GossipError) -> (lost: bool)
        ensures
            lost == err.is_connection_loss(),
    {
        matches!(err, GossipError::Network | GossipError::PeerNotFound | GossipError::Shutdown)
    }
}

/// A tell that has not been sent.
#[verifier::reject_recursive_types(C)]
pub struct DynamicTellRequest<'a, M, T, C> {
    pub actor_ref: &'a DynamicDistributedActorRef<T, C>,
    pub message: M,
    pub timeout: Option<Duration>,
}

impl<'a, M, T, C> DynamicTellRequest<'a, M, T, C> {
    /// Sets how long a transmission of the tell may take.
    pub fn timeout(self, duration: Duration) -> (request: Self)
        ensures
            request == (DynamicTellRequest { timeout: Some(duration), ..self }),
    {
        DynamicTellRequest { timeout: Some(duration), ..self }
    }

    /// Sends the message, given its encoding, over the connection that the reference holds.
    pub fn send<E>(self, type_hash: u32, encoded: Result<Vec<u8>, E>) -> (step: TellStep<'a, T, C>)
        ensures
            match encoded {
                Ok(payload) => {
                    let delivery = Delivery { actor_ref: self.actor_ref, type_hash, payload };
                    exists|held: Option<Held<C>>| #[trigger]
                        delivery.held_by_slot(held) && step == crate::delivery::first_tell(
                            delivery,
                            self.timeout,
                            held,
                        )
                },
                Err(_) => step == TellStep::<'a, T, C>::Done(Err(SendError::ActorStopped)),
            },
    {
        match encoded {
            Ok(payload) => {
                let delivery = Delivery { actor_ref: self.actor_ref, type_hash, payload };
                let held = self.actor_ref.load_connection();
                assert(delivery.held_by_slot(held));
                delivery.tell(self.timeout, held)
            },
            Err(_) => TellStep::Done(Err(SendError::ActorStopped)),
        }
    }

    /// Sends the message, given its encoding. Where the connection is lost, a new one is asked
    /// for and the message is sent once more.
    pub fn send_with_retry<E>(self, type_hash: u32, encoded: Result<Vec<u8>, E>) -> (step: TellStep<
        'a,
        T,
        C,
    >)
        ensures
            match encoded {
                Ok(payload) => {
                    let delivery = Delivery { actor_ref: self.actor_ref, type_hash, payload };
                    exists|held: Option<Held<C>>| #[trigger]
                        delivery.held_by_slot(held)
                            && step == crate::delivery::first_tell_with_retry(
                            delivery,
                            self.timeout,
                            held,
                        )
                },
                Err(_) => step == TellStep::<'a, T, C>::Done(Err(SendError::ActorStopped)),
            },
    {
        match encoded {
            Ok(payload) => {
                let delivery = Delivery { actor_ref: self.actor_ref, type_hash, payload };
                let held = self.actor_ref.load_connection();
                assert(delivery.held_by_slot(held));
                delivery.tell_with_retry(self.timeout, held)
            },
            Err(_) => TellStep::Done(Err(SendError::ActorStopped)),
        }
    }
}

/// An ask that has not been sent.
#[verifier::reject_recursive_types(C)]
pub struct DynamicAskRequest<'a, M, R, T, C> {
    pub actor_ref: &'a DynamicDistributedActorRef<T, C>,
    pub message: M,
    pub timeout: Option<Duration>,
    pub _phantom_reply: PhantomData<R>,
}

impl<'a, M, R, T, C> DynamicAskRequest<'a, M, R, T, C> {
    /// Sets how long the reply to a single message is waited for.
    pub fn timeout(self, duration: Duration) -> (request: Self)
        ensures
            request == (DynamicAskRequest { timeout: Some(duration), ..self }),
    {
        DynamicAskRequest { timeout: Some(duration), ..self }
    }

    /// Sends the message, given its encoding. The bytes of the reply are to be decoded and handed
    /// to `reply`.
    pub fn send<E>(self, type_hash: u32, encoded: Result<Vec<u8>, E>) -> (step: AskStep<'a, T, C>)
        ensures
            match encoded {
                Ok(payload) => {
                    let delivery = Delivery { actor_ref: self.actor_ref, type_hash, payload };
                    exists|held: Option<Held<C>>| #[trigger]
                        delivery.held_by_slot(held) && step == crate::delivery::first_ask(
                            delivery,
                            self.timeout,
                            held,
                        )
                },
                Err(_) => step == AskStep::<'a, T, C>::Done(Err(SendError::ActorStopped)),
            },
    {
        self.send_raw(type_hash, encoded)
    }

    /// The reply to an ask, given the decoding of its bytes.
    pub fn reply<E>(decoded: Result<R, E>) -> (reply: Result<R, SendError>)
        ensures
            reply == match decoded {
                Ok(reply) => Ok(reply),
                Err(_) => Err(SendError::ActorStopped),
            },
    {
        match decoded {
            Ok(reply) => Ok(reply),
            Err(_) => Err(SendError::ActorStopped),
        }
    }

    /// Sends the message, given its encoding, over the connection that the reference holds. The
    /// result is the bytes of the reply.
    pub fn send_raw<E>(self, type_hash: u32, encoded: Result<Vec<u8>, E>) -> (step: AskStep<
        'a,
        T,
        C,
    >)
        ensures
            match encoded {
                Ok(payload) => {
                    let delivery = Delivery { actor_ref: self.actor_ref, type_hash, payload };
                    exists|held: Option<Held<C>>| #[trigger]
                        delivery.held_by_slot(held) && step == crate::delivery::first_ask(
                            delivery,
                            self.timeout,
                            held,
                        )
                },
                Err(_) => step == AskStep::<'a, T, C>::Done(Err(SendError::ActorStopped)),
            },
    {
        match encoded {
            Ok(payload) => {
                let delivery = Delivery { actor_ref: self.actor_ref, type_hash, payload };
                let held = self.actor_ref.load_connection();
                assert(delivery.held_by_slot(held));
                delivery.ask(self.timeout, held)
            },
            Err(_) => AskStep::Done(Err(SendError::ActorStopped)),
        }
    }

    /// Sends the message, given its encoding. Where the connection is lost, a new one is asked
    /// for and the message is sent once more: the actor may then handle it twice. The bytes of
    /// the reply are to be decoded and handed to `reply`.
    pub fn send_with_retry<E>(self, type_hash: u32, encoded: Result<Vec<u8>, E>) -> (step: AskStep<
        'a,
        T,
        C,
    >)
        ensures
            match encoded {
                Ok(payload) => {
                    let delivery = Delivery { actor_ref: self.actor_ref, type_hash, payload };
                    exists|held: Option<Held<C>>| #[trigger]
                        delivery.held_by_slot(held)
                            && step == crate::delivery::first_ask_with_retry(
                            delivery,
                            self.timeout,
                            held,
                        )
                },
                Err(_) => step == AskStep::<'a, T, C>::Done(Err(SendError::ActorStopped)),
            },
    {
        self.send_raw_with_retry(type_hash, encoded)
    }

    /// Sends the message, given its encoding. Where the connection is lost, a new one is asked
    /// for and the message is sent once more: the actor may then handle it twice. The result is
    /// the bytes of the reply.
    pub fn send_raw_with_retry<E>(self, type_hash: u32, encoded: Result<Vec<u8>, E>) -> (step:
        AskStep<'a, T, C>)
        ensures
            match encoded {
                Ok(payload) => {
                    let delivery = Delivery { actor_ref: self.actor_ref, type_hash, payload };
                    exists|held: Option<Held<C>>| #[trigger]
                        delivery.held_by_slot(held)
                            && step == crate::delivery::first_ask_with_retry(
                            delivery,
                            self.timeout,
                            held,
                        )
                },
                Err(_) => step == AskStep::<'a, T, C>::Done(Err(SendError::ActorStopped)),
            },
    {
        match encoded {
            Ok(payload) => {
                let delivery = Delivery { actor_ref: self.actor_ref, type_hash, payload };
                let held = self.actor_ref.load_connection();
                assert(delivery.held_by_slot(held));
                delivery.ask_with_retry(self.timeout, held)
            },
            Err(_) => AskStep::Done(Err(SendError::ActorStopped)),
        }
    }
}

} // verus!
