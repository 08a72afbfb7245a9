//! The versioned store: the last committed ledger state, read through
//! immutable snapshots and advanced only by committing a fork whole. Snapshot
//! isolation and write serialization are what this layer consumes from the
//! storage engine; here they fall out of Rust's `&`/`&mut` split.

use vstd::prelude::*;
use crate::entities::{AccountV, OrderV};
use crate::schema::{consistent, ExchangeSchema, LedgerV};

verus! {

/// The mutable staging view: accumulates the writes of the one transaction
/// currently executing, until the store commits them atomically.
pub struct Fork {
    pub schema: ExchangeSchema,
}

/// The store. Its committed state is only replaced whole, so a reader holding
/// a snapshot never observes a fork's in-progress writes.
pub struct Store {
    committed: ExchangeSchema,
}

impl View for Store {
    type V = LedgerV;

    closed spec fn view(&self) -> LedgerV {
        self.committed@
    }
}

impl Store {
    /// The committed state is well formed and referentially consistent.
    pub closed spec fn wf(&self) -> bool {
        self.committed.wf() && consistent(self.committed@)
    }

    /// Every committed state satisfies the referential-consistency
    /// invariant.
    pub proof fn lemma_wf_consistent(&self)
        requires
            self.wf(),
        ensures
            consistent(self@),
    {
    }

    /// An empty store: no accounts, no orders.
    pub fn new() -> (r: Self)
        ensures
            r.wf(),
            r@.accounts == Map::<Seq<u8>, AccountV>::empty(),
            r@.orders == Map::<u32, OrderV>::empty(),
    {
        let committed = ExchangeSchema::new();
        Store { committed }
    }

    /// A read-only, point-in-time view of the last committed state.
    pub fn snapshot(&self) -> (r: &ExchangeSchema)
        requires
            self.wf(),
        ensures
            r@ == self@,
            r.wf(),
    {
        &self.committed
    }

    /// A fresh mutable staging copy of the last committed state.
    pub fn fork(&self) -> (r: Fork)
        requires
            self.wf(),
        ensures
            r.schema@ == self@,
            r.schema.wf(),
    {
        Fork { schema: self.committed.clone() }
    }

    /// Atomically replaces the committed state with the fork's accumulated
    /// state.
    pub fn commit(&mut self, fork: Fork)
        requires
            fork.schema.wf(),
            consistent(fork.schema@),
        ensures
            final(self).wf(),
            final(self)@ == fork.schema@,
    {
        self.committed = fork.schema;
    }
}

} // verus!
