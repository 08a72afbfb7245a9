//! The laws of the transaction state machine, proved over the ledger model:
//! idempotence of account creation, freshness and no-op absorption of order
//! ids, balance conservation, and preservation of referential consistency by
//! every transition.

use vstd::prelude::*;
use crate::entities::OrderV;
use crate::schema::{consistent, LedgerV};
use crate::transactions::{
    buy_ok, init_account, order_applies, order_result, sell_ok, spec_cancel, spec_create,
    spec_order, Transactions,
};

verus! {

// ---------------------------------------------------------------------------
// Small sequence facts the preservation proofs lean on.
// ---------------------------------------------------------------------------

/// Appending an element makes it a member and keeps the others.
proof fn lemma_push_contains(s: Seq<u32>, x: u32, y: u32)
    ensures
        s.push(x).contains(y) <==> (s.contains(y) || y == x),
{
    if s.contains(y) {
        let i = choose|i: int| 0 <= i < s.len() && s[i] == y;
        assert(s.push(x)[i] == y);
    }
    if y == x {
        assert(s.push(x)[s.len() as int] == y);
    }
    if s.push(x).contains(y) {
        let i = choose|i: int| 0 <= i < s.push(x).len() && s.push(x)[i] == y;
        if i < s.len() {
            assert(s[i] == y);
        }
    }
}

/// Appending a fresh element keeps a list duplicate-free.
proof fn lemma_push_no_duplicates(s: Seq<u32>, x: u32)
    requires
        s.no_duplicates(),
        !s.contains(x),
    ensures
        s.push(x).no_duplicates(),
{
    assert forall|i: int, j: int|
        0 <= i < s.push(x).len() && 0 <= j < s.push(x).len() && i != j implies s.push(x)[i]
        != s.push(x)[j] by {
        if i < s.len() && j < s.len() {
        } else if i < s.len() && j == s.len() {
            assert(s.contains(s[i]));
        } else if j < s.len() && i == s.len() {
            assert(s.contains(s[j]));
        }
    }
}

/// Removing the one occurrence of `x` from a duplicate-free list removes
/// exactly `x` and keeps the list duplicate-free.
proof fn lemma_remove_value_contains(s: Seq<u32>, x: u32, y: u32)
    requires
        s.no_duplicates(),
        s.contains(x),
    ensures
        s.remove_value(x).no_duplicates(),
        s.remove_value(x).contains(y) <==> (s.contains(y) && y != x),
{
    s.index_of_first_ensures(x);
    let i = s.index_of_first(x).unwrap();
    let r = s.remove(i);
    assert(forall|j: int| 0 <= j < i ==> r[j] == s[j]);
    assert(forall|j: int| i <= j < r.len() ==> r[j] == s[j + 1]);
    assert forall|a: int, b: int| 0 <= a < r.len() && 0 <= b < r.len() && a != b implies r[a]
        != r[b] by {
        assert(r[a] == if a < i { s[a] } else { s[a + 1] });
        assert(r[b] == if b < i { s[b] } else { s[b + 1] });
    }
    if s.contains(y) && y != x {
        let j = choose|j: int| 0 <= j < s.len() && s[j] == y;
        assert(j != i);
        if j < i {
            assert(r[j] == y);
        } else {
            assert(r[j - 1] == y);
        }
        assert(r.contains(y));
    }
    if r.contains(y) {
        let j = choose|j: int| 0 <= j < r.len() && r[j] == y;
        if j < i {
            assert(s[j] == y);
        } else {
            assert(s[j + 1] == y);
            assert(j + 1 != i);
        }
        assert(s.contains(y));
        if y == x {
            let w = choose|w: int| 0 <= w < s.len() && s[w] == y && w != i;
            assert(s[w] == s[i]);
            assert(false);
        }
    }
}

/// Appending a fresh element and then removing its first occurrence restores
/// the list.
proof fn lemma_push_remove_value(s: Seq<u32>, x: u32)
    requires
        !s.contains(x),
    ensures
        s.push(x).remove_value(x) == s,
{
    let p = s.push(x);
    assert(p[s.len() as int] == x);
    assert(p.contains(x));
    p.index_of_first_ensures(x);
    let i = p.index_of_first(x).unwrap();
    if i < s.len() {
        assert(s[i] == x);
        assert(s.contains(x));
    }
    assert(p.remove(i) =~= s);
}

// ---------------------------------------------------------------------------
// Idempotence, uniqueness, conservation.
// ---------------------------------------------------------------------------

/// Executing the same create transaction twice produces the same final state
/// as executing it once.
pub proof fn lemma_create_idempotent(l: LedgerV, owner: Seq<u8>)
    ensures
        spec_create(spec_create(l, owner), owner) == spec_create(l, owner),
{
}

/// An order whose id is already taken is absorbed: both collections are left
/// exactly as they were.
pub proof fn lemma_order_duplicate_id_noop(l: LedgerV, t: OrderV)
    requires
        l.orders.contains_key(t.id),
    ensures
        spec_order(l, t) == l,
{
}

/// A successful order execution only ever stores a fresh id, and stores its
/// own record under it.
pub proof fn lemma_order_id_fresh(l: LedgerV, t: OrderV)
    requires
        order_applies(l, t),
    ensures
        !l.orders.contains_key(t.id),
        spec_order(l, t).orders.contains_key(t.id),
        spec_order(l, t).orders[t.id] == t,
{
}

/// Conservation for a buy of amount `A > 0` at price `P` against balances
/// `(U, T)`: the only post-state is `(U - P*A, T + A)`, and the open-order
/// list gains exactly the new id.
pub proof fn lemma_buy_conservation(l: LedgerV, t: OrderV)
    requires
        l.accounts.contains_key(t.owner),
        !l.orders.contains_key(t.id),
        t.amount > 0,
        buy_ok(l.accounts[t.owner], t.price, t.amount),
    ensures
        ({
            let a = l.accounts[t.owner];
            let l2 = spec_order(l, t);
            &&& l2.accounts[t.owner].usd_balance == a.usd_balance - t.price * t.amount
            &&& l2.accounts[t.owner].token_balance == a.token_balance + t.amount
            &&& l2.accounts[t.owner].orders == a.orders.push(t.id)
            &&& l2.orders == l.orders.insert(t.id, t)
        }),
{
}

/// Conservation for a sell of magnitude `|A|` at price `P` against balances
/// `(U, T)`: the only post-state is `(U + P*|A|, T - |A|)`, and the
/// open-order list gains exactly the new id.
pub proof fn lemma_sell_conservation(l: LedgerV, t: OrderV)
    requires
        l.accounts.contains_key(t.owner),
        !l.orders.contains_key(t.id),
        t.amount <= 0,
        sell_ok(l.accounts[t.owner], t.price, t.amount),
    ensures
        ({
            let a = l.accounts[t.owner];
            let l2 = spec_order(l, t);
            let mag = -(t.amount as int);
            &&& l2.accounts[t.owner].usd_balance == a.usd_balance + t.price * mag
            &&& l2.accounts[t.owner].token_balance == a.token_balance - mag
            &&& l2.accounts[t.owner].orders == a.orders.push(t.id)
            &&& l2.orders == l.orders.insert(t.id, t)
        }),
{
}

/// Cancel round trip: an order that applies, followed by its cancellation,
/// restores the order book and the owner's open-order list to what they were.
/// The balances keep the order's settlement — cancellation removes the record
/// whole, it does not refund — and cancelling the same id a second time is a
/// no-op.
pub proof fn lemma_cancel_round_trip(l: LedgerV, t: OrderV)
    requires
        consistent(l),
        order_applies(l, t),
    ensures
        ({
            let l2 = spec_order(l, t);
            let l3 = spec_cancel(l2, t.owner, t.id);
            &&& l3.orders == l.orders
            &&& l3.accounts[t.owner].orders == l.accounts[t.owner].orders
            &&& l3.accounts[t.owner].usd_balance == l2.accounts[t.owner].usd_balance
            &&& l3.accounts[t.owner].token_balance == l2.accounts[t.owner].token_balance
            &&& spec_cancel(l3, t.owner, t.id) == l3
        }),
{
    let a = l.accounts[t.owner];
    assert(a.orders.contains(t.id) <==> l.orders.contains_key(t.id) && l.orders[t.id].owner
        == t.owner);
    assert(!a.orders.contains(t.id));
    let l2 = spec_order(l, t);
    let a2 = l2.accounts[t.owner];
    lemma_push_contains(a.orders, t.id, t.id);
    assert(a2.orders.contains(t.id));
    lemma_push_remove_value(a.orders, t.id);
    assert(l2.orders.remove(t.id) =~= l.orders);
}

// ---------------------------------------------------------------------------
// Referential consistency is preserved by every transition.
// ---------------------------------------------------------------------------

/// A create transaction preserves referential consistency.
pub proof fn lemma_create_preserves_consistency(l: LedgerV, owner: Seq<u8>)
    requires
        consistent(l),
    ensures
        consistent(spec_create(l, owner)),
{
    if !l.accounts.contains_key(owner) {
        let l2 = spec_create(l, owner);
        assert forall|k: Seq<u8>, id: u32| l2.accounts.contains_key(k) implies (
        #[trigger] l2.accounts[k].orders.contains(id) <==> l2.orders.contains_key(id)
            && l2.orders[id].owner == k) by {
            if k == owner {
                assert(!init_account(owner).orders.contains(id));
                if l2.orders.contains_key(id) && l2.orders[id].owner == owner {
                    assert(l.accounts.contains_key(l.orders[id].owner));
                }
            } else {
                assert(l.accounts.contains_key(k));
                assert(l.accounts[k].orders.contains(id) <==> l.orders.contains_key(id)
                    && l.orders[id].owner == k);
            }
        }
    }
}

/// An order transaction preserves referential consistency.
pub proof fn lemma_order_preserves_consistency(l: LedgerV, t: OrderV)
    requires
        consistent(l),
    ensures
        consistent(spec_order(l, t)),
{
    if order_applies(l, t) {
        let a = l.accounts[t.owner];
        let a2 = order_result(a, t);
        let l2 = spec_order(l, t);
        assert(!a.orders.contains(t.id));
        lemma_push_no_duplicates(a.orders, t.id);
        assert forall|k: Seq<u8>, id: u32| l2.accounts.contains_key(k) implies (
        #[trigger] l2.accounts[k].orders.contains(id) <==> l2.orders.contains_key(id)
            && l2.orders[id].owner == k) by {
            if k == t.owner {
                lemma_push_contains(a.orders, t.id, id);
                if id != t.id {
                    assert(a.orders.contains(id) <==> l.orders.contains_key(id)
                        && l.orders[id].owner == k);
                }
            } else {
                assert(l.accounts.contains_key(k));
                assert(l.accounts[k].orders.contains(id) <==> l.orders.contains_key(id)
                    && l.orders[id].owner == k);
                if id == t.id {
                    assert(!l.accounts[k].orders.contains(t.id));
                }
            }
        }
    }
}

/// A cancel transaction preserves referential consistency.
pub proof fn lemma_cancel_preserves_consistency(l: LedgerV, owner: Seq<u8>, id: u32)
    requires
        consistent(l),
    ensures
        consistent(spec_cancel(l, owner, id)),
{
    if l.accounts.contains_key(owner) && l.orders.contains_key(id)
        && l.accounts[owner].orders.contains(id) {
        let a = l.accounts[owner];
        let l2 = spec_cancel(l, owner, id);
        assert(a.orders.contains(id) <==> l.orders.contains_key(id) && l.orders[id].owner
            == owner);
        lemma_remove_value_contains(a.orders, id, id);
        assert forall|k: Seq<u8>, x: u32| l2.accounts.contains_key(k) implies (
        #[trigger] l2.accounts[k].orders.contains(x) <==> l2.orders.contains_key(x)
            && l2.orders[x].owner == k) by {
            if k == owner {
                lemma_remove_value_contains(a.orders, id, x);
                if x != id {
                    assert(a.orders.contains(x) <==> l.orders.contains_key(x)
                        && l.orders[x].owner == k);
                }
            } else {
                assert(l.accounts.contains_key(k));
                assert(l.accounts[k].orders.contains(x) <==> l.orders.contains_key(x)
                    && l.orders[x].owner == k);
                if x == id {
                    assert(l.orders[id].owner == owner);
                }
            }
        }
        assert forall|k: Seq<u8>| #[trigger] l2.accounts.contains_key(k) implies l2.accounts[k].orders.no_duplicates() by {
            if k == owner {
                lemma_remove_value_contains(a.orders, id, id);
            }
        }
    }
}

/// Every transaction's transition preserves referential consistency.
pub proof fn lemma_step_preserves_consistency(l: LedgerV, tx: &Transactions)
    requires
        consistent(l),
    ensures
        consistent(tx.spec_step(l)),
{
    match tx {
        Transactions::Create(t) => lemma_create_preserves_consistency(l, t.owner@),
        Transactions::Order(t) => lemma_order_preserves_consistency(l, t.order_view()),
        Transactions::Cancel(t) => lemma_cancel_preserves_consistency(l, t.owner@, t.id),
    }
}

} // verus!
