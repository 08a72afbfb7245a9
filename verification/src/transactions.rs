//! The transaction state machine: three transaction kinds (create account,
//! place order, cancel order), each with a signature-verification predicate
//! and an execution function over a fork of the store. Execution never fails:
//! a transaction whose execution-time preconditions do not hold — a missing
//! account, an already-used order id, a missing cancel target, or balance
//! arithmetic that would leave the unsigned 32-bit range — is absorbed as a
//! silent no-op.

use vstd::prelude::*;
use crate::crypto::{ed25519_verify, sig_ok};
use crate::entities::{clone_key, Account, AccountV, Order, OrderV};
use crate::schema::{accounts_keyed, LedgerV};
use crate::store::Fork;

verus! {

/// Quote-currency allotment of every newly created account.
pub const USD_BALANCE: u32 = 1_000_000;

/// Token allotment of every newly created account.
pub const TOKEN_BALANCE: u32 = 1_000;

// ---------------------------------------------------------------------------
// Payload encoding: the canonical bytes each transaction signs.
// ---------------------------------------------------------------------------

/// A 32-bit value as four little-endian bytes.
pub open spec fn u32_le(x: u32) -> Seq<u8> {
    seq![
        (x % 256) as u8,
        ((x / 256) % 256) as u8,
        ((x / 65536) % 256) as u8,
        ((x / 16777216) % 256) as u8,
    ]
}

/// A signed 32-bit value as a sign byte followed by its little-endian
/// magnitude.
pub open spec fn i32_enc(x: i32) -> Seq<u8> {
    if x >= 0 {
        seq![0u8] + u32_le(x as u32)
    } else {
        seq![1u8] + u32_le((-(x as int)) as u32)
    }
}

/// The signed payload of a create transaction.
pub open spec fn create_payload(owner: Seq<u8>) -> Seq<u8> {
    seq![0u8] + owner
}

/// The signed payload of an order transaction.
pub open spec fn order_payload(owner: Seq<u8>, price: u32, amount: i32, id: u32) -> Seq<u8> {
    seq![1u8] + owner + u32_le(price) + i32_enc(amount) + u32_le(id)
}

/// The signed payload of a cancel transaction.
pub open spec fn cancel_payload(owner: Seq<u8>, id: u32) -> Seq<u8> {
    seq![2u8] + owner + u32_le(id)
}

fn push_u32_le(out: &mut Vec<u8>, x: u32)
    ensures
        final(out)@ == old(out)@ + u32_le(x),
{
    out.push((x % 256) as u8);
    out.push(((x / 256) % 256) as u8);
    out.push(((x / 65536) % 256) as u8);
    out.push(((x / 16777216) % 256) as u8);
    proof {
        assert(out@ =~= old(out)@ + u32_le(x));
    }
}

fn push_i32_enc(out: &mut Vec<u8>, x: i32)
    ensures
        final(out)@ == old(out)@ + i32_enc(x),
{
    if x >= 0 {
        out.push(0u8);
        push_u32_le(out, x as u32);
        proof {
            assert(out@ =~= old(out)@ + i32_enc(x));
        }
    } else {
        out.push(1u8);
        let mag: i64 = -(x as i64);
        push_u32_le(out, mag as u32);
        proof {
            assert(out@ =~= old(out)@ + i32_enc(x));
        }
    }
}

fn push_bytes(out: &mut Vec<u8>, bytes: &Vec<u8>)
    ensures
        final(out)@ == old(out)@ + bytes@,
{
    let n = bytes.len();
    let mut i: usize = 0;
    while i < n
        invariant
            n == bytes@.len(),
            0 <= i <= n,
            out@ == old(out)@ + bytes@.subrange(0, i as int),
        decreases n - i,
    {
        out.push(bytes[i]);
        proof {
            assert(out@ =~= old(out)@ + bytes@.subrange(0, i + 1));
        }
        i += 1;
    }
    proof {
        assert(out@ =~= old(out)@ + bytes@);
    }
}

// ---------------------------------------------------------------------------
// The state transitions, as functions over the ledger model.
// ---------------------------------------------------------------------------

/// The account every successful create transaction installs.
pub open spec fn init_account(owner: Seq<u8>) -> AccountV {
    AccountV {
        owner,
        usd_balance: USD_BALANCE,
        token_balance: TOKEN_BALANCE,
        orders: Seq::empty(),
    }
}

/// The ledger after a create transaction for `owner`: a fresh account with
/// the fixed starting balances, or the same ledger when `owner` already has
/// one.
pub open spec fn spec_create(l: LedgerV, owner: Seq<u8>) -> LedgerV {
    if l.accounts.contains_key(owner) {
        l
    } else {
        LedgerV { accounts: l.accounts.insert(owner, init_account(owner)), orders: l.orders }
    }
}

/// Whether a buy of `amount` tokens at `price` each keeps both balances in
/// the unsigned 32-bit range.
pub open spec fn buy_ok(a: AccountV, price: u32, amount: i32) -> bool {
    &&& price * amount <= a.usd_balance
    &&& a.token_balance + amount <= u32::MAX
}

/// Whether a sell of `-amount` tokens at `price` each keeps both balances in
/// the unsigned 32-bit range, with a representable magnitude.
pub open spec fn sell_ok(a: AccountV, price: u32, amount: i32) -> bool {
    let mag = -(amount as int);
    &&& mag <= i32::MAX
    &&& mag <= a.token_balance
    &&& a.usd_balance + price * mag <= u32::MAX
}

/// Whether an order transaction applies: the owner has an account, the id is
/// fresh, and the balance arithmetic stays in range.
pub open spec fn order_applies(l: LedgerV, t: OrderV) -> bool {
    &&& l.accounts.contains_key(t.owner)
    &&& !l.orders.contains_key(t.id)
    &&& if t.amount > 0 {
        buy_ok(l.accounts[t.owner], t.price, t.amount)
    } else {
        sell_ok(l.accounts[t.owner], t.price, t.amount)
    }
}

/// The account after an order applies against it: a buy pays
/// `price * amount` from the quote balance and receives `amount` tokens; a
/// sell disposes of the magnitude and receives the proceeds; either way the
/// id joins the open-order list.
pub open spec fn order_result(a: AccountV, t: OrderV) -> AccountV {
    if t.amount > 0 {
        AccountV {
            owner: a.owner,
            usd_balance: (a.usd_balance - t.price * t.amount) as u32,
            token_balance: (a.token_balance + t.amount) as u32,
            orders: a.orders.push(t.id),
        }
    } else {
        let mag = -(t.amount as int);
        AccountV {
            owner: a.owner,
            usd_balance: (a.usd_balance + t.price * mag) as u32,
            token_balance: (a.token_balance - mag) as u32,
            orders: a.orders.push(t.id),
        }
    }
}

/// The ledger after an order transaction: the updated account and the new
/// order record, written together, or the same ledger when the transaction
/// does not apply.
pub open spec fn spec_order(l: LedgerV, t: OrderV) -> LedgerV {
    if order_applies(l, t) {
        LedgerV {
            accounts: l.accounts.insert(t.owner, order_result(l.accounts[t.owner], t)),
            orders: l.orders.insert(t.id, t),
        }
    } else {
        l
    }
}

/// The ledger after a cancel transaction: the id leaves the owner's
/// open-order list and the order record is deleted, or the same ledger when
/// the owner has no account, the order does not exist, or the id is not in
/// that owner's list.
pub open spec fn spec_cancel(l: LedgerV, owner: Seq<u8>, id: u32) -> LedgerV {
    if l.accounts.contains_key(owner) && l.orders.contains_key(id)
        && l.accounts[owner].orders.contains(id) {
        LedgerV {
            accounts: l.accounts.insert(
                owner,
                AccountV { orders: l.accounts[owner].orders.remove_value(id), ..l.accounts[owner] },
            ),
            orders: l.orders.remove(id),
        }
    } else {
        l
    }
}

// ---------------------------------------------------------------------------
// The transactions.
// ---------------------------------------------------------------------------

/// Creates an account for `owner` with the fixed starting balances;
/// idempotent.
pub struct TxCreate {
    pub owner: Vec<u8>,
    pub signature: Vec<u8>,
}

impl TxCreate {
    pub fn new(owner: Vec<u8>, signature: Vec<u8>) -> (r: Self)
        ensures
            r.owner@ == owner@,
            r.signature@ == signature@,
    {
        TxCreate { owner, signature }
    }

    /// The canonical bytes this transaction signs.
    pub fn payload(&self) -> (r: Vec<u8>)
        ensures
            r@ == create_payload(self.owner@),
    {
        let mut out: Vec<u8> = Vec::new();
        out.push(0u8);
        proof {
            assert(out@ =~= seq![0u8]);
        }
        push_bytes(&mut out, &self.owner);
        out
    }

    /// The signature on the payload must match the declared owner key.
    pub fn verify(&self) -> (r: bool)
        ensures
            r == sig_ok(self.owner@, create_payload(self.owner@), self.signature@),
    {
        let payload = self.payload();
        ed25519_verify(&self.owner, &payload, &self.signature)
    }

    /// Applies the create transition to the fork; always succeeds, writing
    /// one fresh account or nothing.
    pub fn execute(&self, fork: &mut Fork)
        requires
            old(fork).schema.wf(),
        ensures
            final(fork).schema.wf(),
            final(fork).schema@ == spec_create(old(fork).schema@, self.owner@),
    {
        if fork.schema.account(&self.owner).is_none() {
            let empty_orders: Vec<u32> = Vec::new();
            proof {
                assert(empty_orders@ =~= Seq::<u32>::empty());
            }
            let account = Account::new(
                clone_key(&self.owner),
                USD_BALANCE,
                TOKEN_BALANCE,
                empty_orders,
            );
            fork.schema.accounts_mut().put(account);
            proof {
                assert(fork.schema@ =~= spec_create(old(fork).schema@, self.owner@));
            }
        }
    }
}

/// Records a resting order with id `id` for `owner` and settles its balance
/// movement; a no-op when the owner has no account, the id is taken, or the
/// arithmetic would leave range.
pub struct TxOrder {
    pub owner: Vec<u8>,
    pub price: u32,
    pub amount: i32,
    pub id: u32,
    pub signature: Vec<u8>,
}

impl TxOrder {
    pub fn new(owner: Vec<u8>, price: u32, amount: i32, id: u32, signature: Vec<u8>) -> (r: Self)
        ensures
            r.owner@ == owner@,
            r.price == price,
            r.amount == amount,
            r.id == id,
            r.signature@ == signature@,
    {
        TxOrder { owner, price, amount, id, signature }
    }

    /// The order record this transaction asks to store.
    pub open spec fn order_view(&self) -> OrderV {
        OrderV { owner: self.owner@, price: self.price, amount: self.amount, id: self.id }
    }

    /// The canonical bytes this transaction signs.
    pub fn payload(&self) -> (r: Vec<u8>)
        ensures
            r@ == order_payload(self.owner@, self.price, self.amount, self.id),
    {
        let mut out: Vec<u8> = Vec::new();
        out.push(1u8);
        proof {
            assert(out@ =~= seq![1u8]);
        }
        push_bytes(&mut out, &self.owner);
        push_u32_le(&mut out, self.price);
        push_i32_enc(&mut out, self.amount);
        push_u32_le(&mut out, self.id);
        out
    }

    /// The signature on the payload must match the declared owner key.
    pub fn verify(&self) -> (r: bool)
        ensures
            r == sig_ok(
                self.owner@,
                order_payload(self.owner@, self.price, self.amount, self.id),
                self.signature@,
            ),
    {
        let payload = self.payload();
        ed25519_verify(&self.owner, &payload, &self.signature)
    }

    /// Applies the order transition to the fork; always succeeds, writing the
    /// updated account and the new order together or nothing at all.
    pub fn execute(&self, fork: &mut Fork)
        requires
            old(fork).schema.wf(),
            accounts_keyed(old(fork).schema@),
        ensures
            final(fork).schema.wf(),
            final(fork).schema@ == spec_order(old(fork).schema@, self.order_view()),
    {
        let ghost l = old(fork).schema@;
        let ghost t = self.order_view();
        let account = match fork.schema.account(&self.owner) {
            Some(a) => Some(a.clone()),
            None => None,
        };
        if let Some(account) = account {
            let not_exists = !fork.schema.orders().contains(self.id);
            if not_exists {
                if self.amount > 0 {
                    proof {
                        assert((self.price as int) * (self.amount as int) <= u32::MAX * i32::MAX)
                            by (nonlinear_arith)
                            requires
                                self.price <= u32::MAX,
                                0 < self.amount <= i32::MAX,
                        ;
                    }
                    let cost: u64 = (self.price as u64) * (self.amount as u64);
                    if cost <= account.usd_balance as u64 && (account.token_balance as u64) + (
                    self.amount as u64) <= (u32::MAX as u64) {
                        let order = Order::new(
                            clone_key(&self.owner),
                            self.price,
                            self.amount,
                            self.id,
                        );
                        let updated = account.buy_tokens(self.price, self.amount, self.id);
                        fork.schema.accounts_mut().put(updated);
                        fork.schema.orders_mut().put(order);
                        proof {
                            assert(order_applies(l, t));
                            assert(updated@ =~= order_result(l.accounts[t.owner], t));
                            assert(fork.schema@ =~= spec_order(l, t));
                        }
                    } else {
                        proof {
                            assert(!buy_ok(l.accounts[t.owner], t.price, t.amount));
                        }
                    }
                } else {
                    let mag: i64 = -(self.amount as i64);
                    proof {
                        assert((self.price as int) * mag <= u32::MAX * (i32::MAX + 1))
                            by (nonlinear_arith)
                            requires
                                self.price <= u32::MAX,
                                0 <= mag <= i32::MAX + 1,
                        ;
                    }
                    if mag <= (i32::MAX as i64) && mag <= (account.token_balance as i64) && (
                    account.usd_balance as u64) + (self.price as u64) * (mag as u64) <= (
                    u32::MAX as u64) {
                        let order = Order::new(
                            clone_key(&self.owner),
                            self.price,
                            self.amount,
                            self.id,
                        );
                        let updated = account.sell_tokens(self.price, mag as i32, self.id);
                        fork.schema.accounts_mut().put(updated);
                        fork.schema.orders_mut().put(order);
                        proof {
                            assert(order_applies(l, t));
                            assert(updated@ =~= order_result(l.accounts[t.owner], t));
                            assert(fork.schema@ =~= spec_order(l, t));
                        }
                    } else {
                        proof {
                            assert(!sell_ok(l.accounts[t.owner], t.price, t.amount));
                        }
                    }
                }
            }
        }
    }
}

/// Removes the resting order `id` owned by `owner`; a no-op when the owner
/// has no account, the order does not exist, or it is not in the owner's
/// open-order list.
pub struct TxCancel {
    pub owner: Vec<u8>,
    pub id: u32,
    pub signature: Vec<u8>,
}

impl TxCancel {
    pub fn new(owner: Vec<u8>, id: u32, signature: Vec<u8>) -> (r: Self)
        ensures
            r.owner@ == owner@,
            r.id == id,
            r.signature@ == signature@,
    {
        TxCancel { owner, id, signature }
    }

    /// The canonical bytes this transaction signs.
    pub fn payload(&self) -> (r: Vec<u8>)
        ensures
            r@ == cancel_payload(self.owner@, self.id),
    {
        let mut out: Vec<u8> = Vec::new();
        out.push(2u8);
        proof {
            assert(out@ =~= seq![2u8]);
        }
        push_bytes(&mut out, &self.owner);
        push_u32_le(&mut out, self.id);
        out
    }

    /// The signature on the payload must match the declared owner key.
    pub fn verify(&self) -> (r: bool)
        ensures
            r == sig_ok(self.owner@, cancel_payload(self.owner@, self.id), self.signature@),
    {
        let payload = self.payload();
        ed25519_verify(&self.owner, &payload, &self.signature)
    }

    /// Applies the cancel transition to the fork; always succeeds, deleting
    /// the order and rewriting the account together or nothing at all.
    pub fn execute(&self, fork: &mut Fork)
        requires
            old(fork).schema.wf(),
            accounts_keyed(old(fork).schema@),
        ensures
            final(fork).schema.wf(),
            final(fork).schema@ == spec_cancel(old(fork).schema@, self.owner@, self.id),
    {
        let ghost l = old(fork).schema@;
        let account = match fork.schema.account(&self.owner) {
            Some(a) => Some(a.clone()),
            None => None,
        };
        if let Some(account) = account {
            let exists = fork.schema.orders().contains(self.id);
            if exists {
                if let Some(updated) = account.remove_order_by_id(self.id) {
                    fork.schema.orders_mut().remove(self.id);
                    fork.schema.accounts_mut().put(updated);
                    proof {
                        assert(updated@ =~= AccountV {
                            orders: l.accounts[self.owner@].orders.remove_value(self.id),
                            ..l.accounts[self.owner@]
                        });
                        assert(fork.schema@ =~= spec_cancel(l, self.owner@, self.id));
                    }
                }
            }
        }
    }
}

/// The transaction set: every payload the ledger accepts.
pub enum Transactions {
    Create(TxCreate),
    Order(TxOrder),
    Cancel(TxCancel),
}

impl Transactions {
    /// The canonical bytes this transaction signs; also the input of its
    /// content hash.
    pub open spec fn spec_payload(&self) -> Seq<u8> {
        match self {
            Transactions::Create(t) => create_payload(t.owner@),
            Transactions::Order(t) => order_payload(t.owner@, t.price, t.amount, t.id),
            Transactions::Cancel(t) => cancel_payload(t.owner@, t.id),
        }
    }

    /// Whether the signature matches the declared owner key.
    pub open spec fn spec_valid(&self) -> bool {
        match self {
            Transactions::Create(t) => sig_ok(t.owner@, self.spec_payload(), t.signature@),
            Transactions::Order(t) => sig_ok(t.owner@, self.spec_payload(), t.signature@),
            Transactions::Cancel(t) => sig_ok(t.owner@, self.spec_payload(), t.signature@),
        }
    }

    /// The ledger state this transaction's execution leads to.
    pub open spec fn spec_step(&self, l: LedgerV) -> LedgerV {
        match self {
            Transactions::Create(t) => spec_create(l, t.owner@),
            Transactions::Order(t) => spec_order(l, t.order_view()),
            Transactions::Cancel(t) => spec_cancel(l, t.owner@, t.id),
        }
    }

    /// The canonical bytes this transaction signs.
    pub fn payload(&self) -> (r: Vec<u8>)
        ensures
            r@ == self.spec_payload(),
    {
        match self {
            Transactions::Create(t) => t.payload(),
            Transactions::Order(t) => t.payload(),
            Transactions::Cancel(t) => t.payload(),
        }
    }

    /// The verification predicate: pure, reads the payload alone.
    pub fn verify(&self) -> (r: bool)
        ensures
            r == self.spec_valid(),
    {
        match self {
            Transactions::Create(t) => t.verify(),
            Transactions::Order(t) => t.verify(),
            Transactions::Cancel(t) => t.verify(),
        }
    }

    /// Applies this transaction's transition to the fork; always succeeds.
    pub fn execute(&self, fork: &mut Fork)
        requires
            old(fork).schema.wf(),
            accounts_keyed(old(fork).schema@),
        ensures
            final(fork).schema.wf(),
            final(fork).schema@ == self.spec_step(old(fork).schema@),
    {
        match self {
            Transactions::Create(t) => t.execute(fork),
            Transactions::Order(t) => t.execute(fork),
            Transactions::Cancel(t) => t.execute(fork),
        }
    }
}

} // verus!
