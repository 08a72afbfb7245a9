//! A deterministic exchange ledger: accounts holding a quote-currency and a
//! token balance, plus a set of resting orders, mutated only through signed
//! transactions (create account, place order, cancel order) applied to a fork
//! of a versioned store and committed atomically.

pub mod crypto;
pub mod entities;
pub mod schema;
pub mod store;
pub mod transactions;
pub mod laws;
pub mod api;
