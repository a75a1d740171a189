//! The slot in which an actor reference and its clones keep their connection.

use arc_swap::ArcSwapOption;
use std::sync::Arc;
use vstd::prelude::*;

verus! {

/// The storage of a slot, which any holder of the slot may replace at any time without a lock:
/// an `arc_swap::ArcSwapOption`.
#[verifier::external_body]
#[verifier::reject_recursive_types(C)]
pub struct ConnectionCell<C> {
    inner: ArcSwapOption<C>,
}

/// A slot for a connection. Its clones share one storage: what one stores, the others load.
#[verifier::reject_recursive_types(C)]
pub struct ConnectionSlot<C> {
    cell: Arc<ConnectionCell<C>>,
    made_with: Ghost<Option<Arc<C>>>,
}

/// A connection that a slot held at some time: it was loaded from the slot or stored there.
/// Nothing else makes such a value.
#[verifier::reject_recursive_types(C)]
pub struct Held<C> {
    conn: Arc<C>,
    slot: Ghost<ConnectionSlot<C>>,
}

impl<C> Held<C> {
    /// The connection `conn`, held by `slot`.
    pub closed spec fn of(slot: ConnectionSlot<C>, conn: Arc<C>) -> Self {
        Held { conn, slot: Ghost(slot) }
    }

    /// The connection.
    pub closed spec fn conn(self) -> Arc<C> {
        self.conn
    }

    /// The slot that held it.
    pub closed spec fn slot(self) -> ConnectionSlot<C> {
        self.slot@
    }

    /// A held connection is a connection and the slot that held it, and nothing more.
    pub broadcast proof fn is_conn_and_slot(slot: ConnectionSlot<C>, conn: Arc<C>)
        ensures
            (#[trigger] Held::of(slot, conn)).conn() == conn,
            Held::of(slot, conn).slot() == slot,
    {
    }

    pub fn connection(&self) -> (conn: &Arc<C>)
        ensures
            *conn == self.conn(),
    {
        &self.conn
    }
}

impl<C> ConnectionSlot<C> {
    /// What the slot held when it was made.
    pub closed spec fn made_with(self) -> Option<Arc<C>> {
        self.made_with@
    }

    /// Calls `ArcSwapOption::new`: a storage of its own, which starts with `initial`.
    #[verifier::external_body]
    pub(crate) fn new(initial: Option<Arc<C>>) -> (slot: Self)
        ensures
            slot.made_with() == initial,
    {
        let made_with = Ghost(initial);
        let cell = Arc::new(ConnectionCell { inner: ArcSwapOption::new(initial) });
        ConnectionSlot { cell, made_with }
    }

    /// Calls `ArcSwapOption::load_full`: what the slot holds at the moment of the call, that is,
    /// what was last stored, or else what the slot was made with. A slot that was made with a
    /// connection always holds one: only `store` changes what is held, and it puts a connection
    /// there. Which connection that is, and whether there is one yet in a slot that was made
    /// without, is left open: every clone of the slot may store at any time.
    #[verifier::external_body]
    pub(crate) fn load(&self) -> (held: Option<Held<C>>)
        ensures
            held is Some ==> held->0.slot() == *self,
            self.made_with() is Some ==> held is Some,
    {
        self.cell.inner.load_full().map(|conn| Held { conn, slot: Ghost(*self) })
    }

    /// Calls `ArcSwapOption::store`: from the call on, and until the next store, every clone of
    /// the slot loads `fresh`. It is taken by value, so code that knows nothing of `C` cannot put
    /// back a connection that the slot has held. No clause says what later loads give: any clone
    /// may store in between, at any time, so all that is claimed is that the slot held `fresh`.
    #[verifier::external_body]
    pub(crate) fn store(&self, fresh: C) -> (held: Held<C>)
        ensures
            held == Held::of(*self, Arc::new(fresh)),
    {
        let conn = Arc::new(fresh);
        self.cell.inner.store(Some(conn.clone()));
        Held { conn, slot: Ghost(*self) }
    }
}

impl<C> Clone for ConnectionSlot<C> {
    /// The same slot, not a second one.
    fn clone(&self) -> (slot: Self)
        ensures
            slot == *self,
    {
        ConnectionSlot { cell: Arc::clone(&self.cell), made_with: self.made_with }
    }
}

} // verus!
