//! The service surface exposed to the transport layer: submit a transaction,
//! fetch one account by public key, fetch the full order book. Queries read a
//! single committed snapshot and never observe an in-flight fork's writes.

use vstd::prelude::*;
use crate::crypto::{sha256, sha256_of};
use crate::entities::{Account, Order};
use crate::laws::lemma_step_preserves_consistency;
use crate::schema::ExchangeSchema;
use crate::store::Store;
use crate::transactions::Transactions;

verus! {

/// The externally visible failures: a query for an absent account, and a
/// transaction whose signature does not match its declared owner.
#[derive(Debug, PartialEq, Eq, Structural, Clone, Copy)]
pub enum ApiError {
    NotFound,
    InvalidSignature,
}

/// Response to an accepted transaction: the content hash of its signed
/// payload.
#[derive(Debug)]
pub struct TransactionResponse {
    pub tx_hash: Vec<u8>,
}

/// Response to an order-book query: the complete order set, ascending by id.
#[derive(Debug)]
pub struct OrdersResponse {
    pub orders: Vec<Order>,
}

/// The endpoints of the exchange service.
pub struct ExchangeServiceApi;

impl ExchangeServiceApi {
    /// Submits a transaction. Verification runs against the payload alone; a
    /// transaction that fails it is rejected without touching the store. A
    /// verified transaction is executed on a fresh fork of the committed
    /// state and committed atomically, and the content hash of its payload is
    /// returned. Execution itself always succeeds: unmet execution-time
    /// preconditions are absorbed as no-ops.
    pub fn post_transaction(store: &mut Store, tx: &Transactions) -> (r: Result<
        TransactionResponse,
        ApiError,
    >)
        requires
            old(store).wf(),
        ensures
            final(store).wf(),
            tx.spec_valid() ==> {
                &&& final(store)@ == tx.spec_step(old(store)@)
                &&& r matches Ok(resp) && resp.tx_hash@ == sha256_of(tx.spec_payload())
            },
            !tx.spec_valid() ==> (r matches Err(e) && e == ApiError::InvalidSignature
                && final(store)@ == old(store)@),
    {
        if !tx.verify() {
            return Err(ApiError::InvalidSignature);
        }
        proof {
            store.lemma_wf_consistent();
        }
        let mut fork = store.fork();
        tx.execute(&mut fork);
        proof {
            lemma_step_preserves_consistency(old(store)@, tx);
        }
        let payload = tx.payload();
        let tx_hash = sha256(&payload);
        store.commit(fork);
        Ok(TransactionResponse { tx_hash })
    }

    /// Account lookup by public key: the account record, or a not-found
    /// error, read from one committed snapshot.
    pub fn get_accout(snapshot: &ExchangeSchema, key: &Vec<u8>) -> (r: Result<Account, ApiError>)
        requires
            snapshot.wf(),
        ensures
            snapshot@.accounts.contains_key(key@) ==> (r matches Ok(a) && a@
                == snapshot@.accounts[key@]),
            !snapshot@.accounts.contains_key(key@) ==> (r matches Err(e) && e
                == ApiError::NotFound),
    {
        match snapshot.account(key) {
            Some(account) => Ok(account.clone()),
            None => Err(ApiError::NotFound),
        }
    }

    /// Full order book: every open order, ascending by id, read from one
    /// committed snapshot.
    pub fn get_orders(snapshot: &ExchangeSchema) -> (r: OrdersResponse)
        requires
            snapshot.wf(),
        ensures
            forall|i: int, j: int| 0 <= i < j < r.orders@.len() ==> r.orders@[i].id
                < r.orders@[j].id,
            forall|i: int| 0 <= i < r.orders@.len() ==> snapshot@.orders.contains_key(
                #[trigger] r.orders@[i].id,
            ) && snapshot@.orders[r.orders@[i].id] == r.orders@[i]@,
            forall|id: u32| snapshot@.orders.contains_key(id) ==> exists|i: int|
                0 <= i < r.orders@.len() && #[trigger] r.orders@[i].id == id,
    {
        let entries = snapshot.orders().entries();
        let n = entries.len();
        let mut orders: Vec<Order> = Vec::new();
        let mut i: usize = 0;
        while i < n
            invariant
                n == entries@.len(),
                0 <= i <= n,
                orders@.len() == i,
                forall|j: int| 0 <= j < i ==> #[trigger] orders@[j]@ == entries@[j]@,
                forall|j: int| 0 <= j < i ==> #[trigger] orders@[j].id == entries@[j].id,
            decreases n - i,
        {
            orders.push(entries[i].clone());
            proof {
                assert(orders@[i as int]@ == entries@[i as int]@);
                assert(orders@[i as int].id == entries@[i as int].id);
            }
            i += 1;
        }
        let resp = OrdersResponse { orders };
        proof {
            assert forall|id: u32| snapshot@.orders.contains_key(id) implies exists|i: int|
                0 <= i < resp.orders@.len() && #[trigger] resp.orders@[i].id == id by {
                let w = choose|w: int| 0 <= w < entries@.len() && #[trigger] entries@[w].id == id;
                assert(resp.orders@[w].id == entries@[w].id);
                assert(0 <= w < resp.orders@.len() && resp.orders@[w].id == id);
            }
        }
        resp
    }
}

} // verus!
