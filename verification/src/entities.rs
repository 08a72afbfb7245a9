//! Ledger entities: `Account` and `Order` are immutable value records; every
//! "mutation" builds a new record, which the caller writes back whole.

use vstd::prelude::*;

verus! {

/// Mathematical model of an account.
#[verifier::ext_equal]
pub ghost struct AccountV {
    pub owner: Seq<u8>,
    pub usd_balance: u32,
    pub token_balance: u32,
    pub orders: Seq<u32>,
}

/// Mathematical model of a resting order.
#[verifier::ext_equal]
pub ghost struct OrderV {
    pub owner: Seq<u8>,
    pub price: u32,
    pub amount: i32,
    pub id: u32,
}

/// One participant's holdings: the owning public key, the two balances in
/// their smallest units, and the ids of the owner's open orders.
#[derive(Debug)]
pub struct Account {
    pub owner: Vec<u8>,
    pub usd_balance: u32,
    pub token_balance: u32,
    pub orders: Vec<u32>,
}

impl View for Account {
    type V = AccountV;

    open spec fn view(&self) -> AccountV {
        AccountV {
            owner: self.owner@,
            usd_balance: self.usd_balance,
            token_balance: self.token_balance,
            orders: self.orders@,
        }
    }
}

/// One resting order: owner, unit price in quote currency, signed amount
/// (positive buys, negative sells, the magnitude is the quantity), and the
/// submitter-chosen id.
#[derive(Debug)]
pub struct Order {
    pub owner: Vec<u8>,
    pub price: u32,
    pub amount: i32,
    pub id: u32,
}

impl View for Order {
    type V = OrderV;

    open spec fn view(&self) -> OrderV {
        OrderV { owner: self.owner@, price: self.price, amount: self.amount, id: self.id }
    }
}

impl Account {
    pub fn new(owner: Vec<u8>, usd_balance: u32, token_balance: u32, orders: Vec<u32>) -> (r: Self)
        ensures
            r@ == (AccountV {
                owner: owner@,
                usd_balance,
                token_balance,
                orders: orders@,
            }),
    {
        Account { owner, usd_balance, token_balance, orders }
    }

    /// The record after buying `amount` tokens at `price` each under order
    /// `id`: the cost leaves the quote balance, the tokens arrive, and the id
    /// joins the open-order list.
    pub fn buy_tokens(&self, price: u32, amount: i32, id: u32) -> (r: Self)
        requires
            amount > 0,
            price * amount <= self.usd_balance,
            self.token_balance + amount <= u32::MAX,
        ensures
            r@ == (AccountV {
                owner: self@.owner,
                usd_balance: (self.usd_balance - price * amount) as u32,
                token_balance: (self.token_balance + amount) as u32,
                orders: self@.orders.push(id),
            }),
    {
        proof {
            assert(price * amount <= u32::MAX * i32::MAX) by (nonlinear_arith)
                requires price <= u32::MAX && 0 < amount <= i32::MAX;
        }
        let cost: u64 = (price as u64) * (amount as u64);
        let usd_balance: u32 = self.usd_balance - (cost as u32);
        let token_balance: u32 = self.token_balance + (amount as u32);
        let mut orders = clone_ids(&self.orders);
        orders.push(id);
        Self::new(clone_key(&self.owner), usd_balance, token_balance, orders)
    }

    /// The record after selling `amount` tokens (a non-negative magnitude) at
    /// `price` each under order `id`: the tokens leave, the proceeds arrive,
    /// and the id joins the open-order list.
    pub fn sell_tokens(&self, price: u32, amount: i32, id: u32) -> (r: Self)
        requires
            amount >= 0,
            amount <= self.token_balance,
            self.usd_balance + price * amount <= u32::MAX,
        ensures
            r@ == (AccountV {
                owner: self@.owner,
                usd_balance: (self.usd_balance + price * amount) as u32,
                token_balance: (self.token_balance - amount) as u32,
                orders: self@.orders.push(id),
            }),
    {
        proof {
            assert(price * amount <= u32::MAX * i32::MAX) by (nonlinear_arith)
                requires price <= u32::MAX && 0 <= amount <= i32::MAX;
        }
        let proceeds: u64 = (price as u64) * (amount as u64);
        let usd_balance: u32 = self.usd_balance + (proceeds as u32);
        let token_balance: u32 = self.token_balance - (amount as u32);
        let mut orders = clone_ids(&self.orders);
        orders.push(id);
        Self::new(clone_key(&self.owner), usd_balance, token_balance, orders)
    }

    /// The record with `id` appended to the open-order list; balances keep
    /// their values.
    pub fn add_order_id(&self, id: u32) -> (r: Self)
        ensures
            r@ == (AccountV { orders: self@.orders.push(id), ..self@ }),
    {
        let mut orders = clone_ids(&self.orders);
        orders.push(id);
        Self::new(clone_key(&self.owner), self.usd_balance, self.token_balance, orders)
    }

    /// The record with the first occurrence of `id` removed from the
    /// open-order list, or nothing when the list does not hold `id`.
    pub fn remove_order_by_id(&self, id: u32) -> (r: Option<Self>)
        ensures
            r is Some <==> self@.orders.contains(id),
            r matches Some(a) ==> a@ == (AccountV {
                orders: self@.orders.remove_value(id),
                ..self@
            }),
    {
        let n = self.orders.len();
        let mut i: usize = 0;
        while i < n
            invariant
                n == self.orders.len(),
                0 <= i <= n,
                forall|j: int| 0 <= j < i ==> self.orders@[j] != id,
            decreases n - i,
        {
            if self.orders[i] == id {
                let mut orders = clone_ids(&self.orders);
                orders.remove(i);
                proof {
                    lemma_first_occurrence(self@.orders, id, i as int);
                }
                return Some(Self::new(
                    clone_key(&self.owner),
                    self.usd_balance,
                    self.token_balance,
                    orders,
                ));
            }
            i += 1;
        }
        None
    }
}

impl Order {
    pub fn new(owner: Vec<u8>, price: u32, amount: i32, id: u32) -> (r: Self)
        ensures
            r@ == (OrderV { owner: owner@, price, amount, id }),
    {
        Order { owner, price, amount, id }
    }
}

impl Clone for Account {
    fn clone(&self) -> (r: Self)
        ensures
            r@ == self@,
    {
        Account {
            owner: clone_key(&self.owner),
            usd_balance: self.usd_balance,
            token_balance: self.token_balance,
            orders: clone_ids(&self.orders),
        }
    }
}

impl Clone for Order {
    fn clone(&self) -> (r: Self)
        ensures
            r@ == self@,
    {
        Order {
            owner: clone_key(&self.owner),
            price: self.price,
            amount: self.amount,
            id: self.id,
        }
    }
}

/// When `i` is the first index at which a sequence holds `id`, removing the
/// first occurrence of `id` removes exactly the element at `i`.
proof fn lemma_first_occurrence(s: Seq<u32>, id: u32, i: int)
    requires
        0 <= i < s.len(),
        s[i] == id,
        forall|j: int| 0 <= j < i ==> s[j] != id,
    ensures
        s.contains(id),
        s.remove_value(id) == s.remove(i),
{
    assert(s.contains(id));
    s.index_of_first_ensures(id);
    let w = s.index_of_first(id).unwrap();
    assert(w == i);
}

/// An exact copy of a key's bytes.
pub fn clone_key(key: &Vec<u8>) -> (r: Vec<u8>)
    ensures
        r@ == key@,
{
    let r = key.clone();
    proof {
        assert(r@ =~= key@);
    }
    r
}

/// An exact copy of an order-id list.
pub fn clone_ids(ids: &Vec<u32>) -> (r: Vec<u32>)
    ensures
        r@ == ids@,
{
    let r = ids.clone();
    proof {
        assert(r@ =~= ids@);
    }
    r
}

} // verus!
