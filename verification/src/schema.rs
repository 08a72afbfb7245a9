//! The schema: typed, named access to the two logical collections of the
//! ledger — accounts keyed by owner public key and orders keyed by order id
//! (kept in ascending id order). Each write replaces a full record.

use vstd::prelude::*;
use vstd::pervasive::VecAdditionalExecFns;
use crate::entities::{Account, AccountV, Order, OrderV};

verus! {

/// Whether two byte keys hold the same bytes.
pub fn key_eq(a: &Vec<u8>, b: &Vec<u8>) -> (r: bool)
    ensures
        r == (a@ == b@),
{
    let r = a == b;
    proof {
        if r {
            assert(a@ =~= b@);
        } else if a@ == b@ {
            assert(forall|i: int| 0 <= i < a@.len() ==> a@[i] == b@[i]);
            assert(false);
        }
    }
    r
}

// ---------------------------------------------------------------------------
// Accounts: the collection of accounts, keyed by owner public key.
// ---------------------------------------------------------------------------

spec fn distinct_owners(s: Seq<Account>) -> bool {
    forall|i: int, j: int| 0 <= i < j < s.len() ==> s[i].owner@ != s[j].owner@
}

spec fn has_acct(s: Seq<Account>, k: Seq<u8>) -> bool {
    exists|i: int| 0 <= i < s.len() && s[i].owner@ == k
}

spec fn acct_val(s: Seq<Account>, k: Seq<u8>) -> AccountV {
    s[choose|i: int| 0 <= i < s.len() && s[i].owner@ == k]@
}

/// In a collection with distinct owners, the record at any index is the one
/// its owner key maps to.
proof fn lemma_acct_at(s: Seq<Account>, i: int)
    requires
        distinct_owners(s),
        0 <= i < s.len(),
    ensures
        has_acct(s, s[i].owner@),
        acct_val(s, s[i].owner@) == s[i]@,
{
    let k = s[i].owner@;
    assert(has_acct(s, k));
    let w = choose|w: int| 0 <= w < s.len() && s[w].owner@ == k;
    if w < i {
        assert(s[w].owner@ != s[i].owner@);
    }
    if i < w {
        assert(s[i].owner@ != s[w].owner@);
    }
}

/// The accounts collection: point lookup by owner key, full-record replace.
pub struct Accounts {
    entries: Vec<Account>,
}

impl View for Accounts {
    type V = Map<Seq<u8>, AccountV>;

    closed spec fn view(&self) -> Map<Seq<u8>, AccountV> {
        Map::new(
            |k: Seq<u8>| has_acct(self.entries@, k),
            |k: Seq<u8>| acct_val(self.entries@, k),
        )
    }
}

impl Accounts {
    /// No two stored records share an owner key.
    pub closed spec fn wf(&self) -> bool {
        distinct_owners(self.entries@)
    }

    pub fn new() -> (r: Self)
        ensures
            r.wf(),
            r@ == Map::<Seq<u8>, AccountV>::empty(),
    {
        let r = Accounts { entries: Vec::new() };
        proof {
            assert(r@ =~= Map::<Seq<u8>, AccountV>::empty());
        }
        r
    }

    /// The index of the record owned by `owner`, if one is stored.
    fn index_of_owner(&self, owner: &Vec<u8>) -> (r: Option<usize>)
        ensures
            r matches Some(i) ==> i < self.entries@.len() && self.entries@[i as int].owner@
                == owner@,
            r is None ==> !has_acct(self.entries@, owner@),
    {
        let n = self.entries.len();
        let mut i: usize = 0;
        while i < n
            invariant
                n == self.entries@.len(),
                0 <= i <= n,
                forall|j: int| 0 <= j < i ==> self.entries@[j].owner@ != owner@,
            decreases n - i,
        {
            if key_eq(&self.entries[i].owner, owner) {
                return Some(i);
            }
            i += 1;
        }
        None
    }

    /// Point lookup: the account owned by `owner`, if `owner` has one.
    pub fn get(&self, owner: &Vec<u8>) -> (r: Option<&Account>)
        requires
            self.wf(),
        ensures
            r is Some <==> self@.contains_key(owner@),
            r matches Some(a) ==> a@ == self@[owner@],
    {
        match self.index_of_owner(owner) {
            Some(i) => {
                proof {
                    lemma_acct_at(self.entries@, i as int);
                }
                Some(&self.entries[i])
            },
            None => None,
        }
    }

    /// Full-record replace: stores `account` under its own owner key, in
    /// place of any record that key held before.
    pub fn put(&mut self, account: Account)
        requires
            old(self).wf(),
        ensures
            final(self).wf(),
            final(self)@ == old(self)@.insert(account@.owner, account@),
    {
        let ghost k = account@.owner;
        let ghost olds = self.entries@;
        match self.index_of_owner(&account.owner) {
            Some(i) => {
                self.entries.set(i, account);
                proof {
                    lemma_put_view(olds, self.entries@, i as int, k);
                }
            },
            None => {
                self.entries.push(account);
                proof {
                    lemma_put_view(olds, self.entries@, olds.len() as int, k);
                }
            },
        }
    }
}

/// After writing a record with owner `k` at index `i` (either over the one
/// record that held `k`, or appended when no record held `k`), the collection
/// still has distinct owners and its map view is the old view with `k` bound
/// to the new record.
proof fn lemma_put_view(olds: Seq<Account>, news: Seq<Account>, i: int, k: Seq<u8>)
    requires
        distinct_owners(olds),
        0 <= i < news.len(),
        i <= olds.len(),
        news[i].owner@ == k,
        i < olds.len() ==> olds[i].owner@ == k && news == olds.update(i, news[i]),
        i == olds.len() ==> !has_acct(olds, k) && news == olds.push(news[i]),
    ensures
        distinct_owners(news),
        Map::new(|x: Seq<u8>| has_acct(news, x), |x: Seq<u8>| acct_val(news, x)) == Map::new(
            |x: Seq<u8>| has_acct(olds, x),
            |x: Seq<u8>| acct_val(olds, x),
        ).insert(k, news[i]@),
{
    assert(forall|j: int| 0 <= j < news.len() && j != i ==> news[j] == olds[j]);
    assert forall|a: int, b: int| 0 <= a < b < news.len() implies news[a].owner@
        != news[b].owner@ by {
        if a != i && b != i {
            assert(news[a] == olds[a] && news[b] == olds[b]);
        } else if a == i && b < olds.len() {
            assert(news[b] == olds[b]);
            if i < olds.len() {
                assert(olds[i].owner@ != olds[b].owner@);
            } else {
                assert(has_acct(olds, olds[b].owner@));
            }
        } else if b == i && a < olds.len() {
            assert(news[a] == olds[a]);
            if i < olds.len() {
                assert(olds[a].owner@ != olds[i].owner@);
            } else {
                assert(has_acct(olds, olds[a].owner@));
            }
        }
    }
    let m_new = Map::new(|x: Seq<u8>| has_acct(news, x), |x: Seq<u8>| acct_val(news, x));
    let m_old = Map::new(|x: Seq<u8>| has_acct(olds, x), |x: Seq<u8>| acct_val(olds, x));
    assert forall|x: Seq<u8>| #[trigger] has_acct(news, x) implies x == k || has_acct(olds, x) by {
        let j = choose|j: int| 0 <= j < news.len() && news[j].owner@ == x;
        if j != i {
            assert(news[j] == olds[j]);
        }
    }
    assert forall|x: Seq<u8>| x != k && #[trigger] has_acct(olds, x) implies has_acct(news, x)
        && acct_val(news, x) == acct_val(olds, x) by {
        let j = choose|j: int| 0 <= j < olds.len() && olds[j].owner@ == x;
        assert(j != i);
        assert(news[j] == olds[j]);
        lemma_acct_at(news, j);
        lemma_acct_at(olds, j);
    }
    assert(has_acct(news, k));
    lemma_acct_at(news, i);
    assert(m_new =~= m_old.insert(k, news[i]@));
}

// ---------------------------------------------------------------------------
// Orders: the collection of open orders, keyed by order id and kept in
// ascending id order (the store's natural key order).
// ---------------------------------------------------------------------------

/// Records strictly ascending by id.
pub open spec fn sorted_by_id(s: Seq<Order>) -> bool {
    forall|i: int, j: int| 0 <= i < j < s.len() ==> s[i].id < s[j].id
}

spec fn has_ord(s: Seq<Order>, id: u32) -> bool {
    exists|i: int| 0 <= i < s.len() && s[i].id == id
}

spec fn ord_val(s: Seq<Order>, id: u32) -> OrderV {
    s[choose|i: int| 0 <= i < s.len() && s[i].id == id]@
}

/// In a collection sorted by id, the record at any index is the one its id
/// maps to.
proof fn lemma_ord_at(s: Seq<Order>, i: int)
    requires
        sorted_by_id(s),
        0 <= i < s.len(),
    ensures
        has_ord(s, s[i].id),
        ord_val(s, s[i].id) == s[i]@,
{
    let id = s[i].id;
    assert(has_ord(s, id));
    let w = choose|w: int| 0 <= w < s.len() && s[w].id == id;
    if w < i {
        assert(s[w].id < s[i].id);
    }
    if i < w {
        assert(s[i].id < s[w].id);
    }
}

/// The orders collection: membership test, iteration in id order,
/// full-record insert and removal by id.
pub struct Orders {
    entries: Vec<Order>,
}

impl View for Orders {
    type V = Map<u32, OrderV>;

    closed spec fn view(&self) -> Map<u32, OrderV> {
        Map::new(|id: u32| has_ord(self.entries@, id), |id: u32| ord_val(self.entries@, id))
    }
}

impl Orders {
    /// The stored records are strictly ascending by id.
    pub closed spec fn wf(&self) -> bool {
        sorted_by_id(self.entries@)
    }

    pub fn new() -> (r: Self)
        ensures
            r.wf(),
            r@ == Map::<u32, OrderV>::empty(),
    {
        let r = Orders { entries: Vec::new() };
        proof {
            assert(r@ =~= Map::<u32, OrderV>::empty());
        }
        r
    }

    /// The index of the record with id `id`, if one is stored.
    fn index_of_id(&self, id: u32) -> (r: Option<usize>)
        ensures
            r matches Some(i) ==> i < self.entries@.len() && self.entries@[i as int].id == id,
            r is None ==> !has_ord(self.entries@, id),
    {
        let n = self.entries.len();
        let mut i: usize = 0;
        while i < n
            invariant
                n == self.entries@.len(),
                0 <= i <= n,
                forall|j: int| 0 <= j < i ==> self.entries@[j].id != id,
            decreases n - i,
        {
            if self.entries[i].id == id {
                return Some(i);
            }
            i += 1;
        }
        None
    }

    /// Whether an order with id `id` is stored.
    pub fn contains(&self, id: u32) -> (r: bool)
        requires
            self.wf(),
        ensures
            r == self@.contains_key(id),
    {
        match self.index_of_id(id) {
            Some(i) => {
                proof {
                    lemma_ord_at(self.entries@, i as int);
                }
                true
            },
            None => false,
        }
    }

    /// Inserts a fresh order under its own id, keeping ascending id order.
    pub fn put(&mut self, order: Order)
        requires
            old(self).wf(),
            !old(self)@.contains_key(order.id),
        ensures
            final(self).wf(),
            final(self)@ == old(self)@.insert(order@.id, order@),
    {
        let ghost olds = self.entries@;
        let n = self.entries.len();
        let mut i: usize = 0;
        while i < n && self.entries[i].id < order.id
            invariant
                n == self.entries@.len(),
                0 <= i <= n,
                forall|j: int| 0 <= j < i ==> self.entries@[j].id < order.id,
            decreases n - i,
        {
            i += 1;
        }
        proof {
            assert(has_ord(olds, order.id) ==> olds.contains(olds[choose|w: int|
                0 <= w < olds.len() && olds[w].id == order.id]));
            if i < n {
                lemma_ord_at(olds, i as int);
                assert(olds[i as int].id != order.id);
            }
            assert(forall|j: int| i <= j < olds.len() ==> order.id < olds[j].id);
        }
        self.entries.insert(i, order);
        proof {
            lemma_ord_insert_view(olds, self.entries@, i as int, order@.id);
        }
    }

    /// Removes the order with id `id`; a miss leaves the collection as it
    /// was.
    pub fn remove(&mut self, id: u32)
        requires
            old(self).wf(),
        ensures
            final(self).wf(),
            final(self)@ == old(self)@.remove(id),
    {
        let ghost olds = self.entries@;
        match self.index_of_id(id) {
            Some(i) => {
                self.entries.remove(i);
                proof {
                    lemma_ord_remove_view(olds, self.entries@, i as int, id);
                }
            },
            None => {
                proof {
                    assert(self@ =~= old(self)@.remove(id));
                }
            },
        }
    }

    /// The stored records, in ascending id order; each is exactly the record
    /// its id maps to, and every mapped id appears.
    pub fn entries(&self) -> (r: &Vec<Order>)
        requires
            self.wf(),
        ensures
            sorted_by_id(r@),
            forall|i: int| 0 <= i < r@.len() ==> self@.contains_key(#[trigger] r@[i].id)
                && self@[r@[i].id] == r@[i]@,
            forall|id: u32| self@.contains_key(id) ==> exists|i: int|
                0 <= i < r@.len() && #[trigger] r@[i].id == id,
    {
        proof {
            assert forall|i: int| 0 <= i < self.entries@.len() implies self@.contains_key(
                #[trigger] self.entries@[i].id,
            ) && self@[self.entries@[i].id] == self.entries@[i]@ by {
                lemma_ord_at(self.entries@, i);
            }
        }
        &self.entries
    }
}

/// After inserting a record with a fresh id at its sorted position, the
/// collection is still sorted and its map view gains exactly that binding.
proof fn lemma_ord_insert_view(olds: Seq<Order>, news: Seq<Order>, i: int, id: u32)
    requires
        sorted_by_id(olds),
        0 <= i <= olds.len(),
        news == olds.insert(i, news[i]),
        news[i].id == id,
        forall|j: int| 0 <= j < i ==> olds[j].id < id,
        forall|j: int| i <= j < olds.len() ==> id < olds[j].id,
    ensures
        sorted_by_id(news),
        Map::new(|x: u32| has_ord(news, x), |x: u32| ord_val(news, x)) == Map::new(
            |x: u32| has_ord(olds, x),
            |x: u32| ord_val(olds, x),
        ).insert(id, news[i]@),
{
    assert(news.len() == olds.len() + 1);
    assert(forall|j: int| 0 <= j < i ==> news[j] == olds[j]);
    assert(forall|j: int| i < j < news.len() ==> news[j] == olds[j - 1]);
    assert(sorted_by_id(news));
    let m_new = Map::new(|x: u32| has_ord(news, x), |x: u32| ord_val(news, x));
    let m_old = Map::new(|x: u32| has_ord(olds, x), |x: u32| ord_val(olds, x));
    assert forall|x: u32| #[trigger] has_ord(news, x) implies x == id || has_ord(olds, x) by {
        let j = choose|j: int| 0 <= j < news.len() && news[j].id == x;
        if j < i {
            assert(olds[j].id == x);
        } else if j > i {
            assert(olds[j - 1].id == x);
        }
    }
    assert forall|x: u32| x != id && #[trigger] has_ord(olds, x) implies has_ord(news, x)
        && ord_val(news, x) == ord_val(olds, x) by {
        let j = choose|j: int| 0 <= j < olds.len() && olds[j].id == x;
        lemma_ord_at(olds, j);
        if j < i {
            assert(news[j] == olds[j]);
            lemma_ord_at(news, j);
        } else {
            assert(news[j + 1] == olds[j]);
            lemma_ord_at(news, j + 1);
        }
    }
    lemma_ord_at(news, i);
    assert(m_new =~= m_old.insert(id, news[i]@));
}

/// After removing the one record with id `id`, the collection is still
/// sorted and its map view loses exactly that binding.
proof fn lemma_ord_remove_view(olds: Seq<Order>, news: Seq<Order>, i: int, id: u32)
    requires
        sorted_by_id(olds),
        0 <= i < olds.len(),
        olds[i].id == id,
        news == olds.remove(i),
    ensures
        sorted_by_id(news),
        Map::new(|x: u32| has_ord(news, x), |x: u32| ord_val(news, x)) == Map::new(
            |x: u32| has_ord(olds, x),
            |x: u32| ord_val(olds, x),
        ).remove(id),
{
    assert(news.len() == olds.len() - 1);
    assert(forall|j: int| 0 <= j < i ==> news[j] == olds[j]);
    assert(forall|j: int| i <= j < news.len() ==> news[j] == olds[j + 1]);
    assert(sorted_by_id(news));
    let m_new = Map::new(|x: u32| has_ord(news, x), |x: u32| ord_val(news, x));
    let m_old = Map::new(|x: u32| has_ord(olds, x), |x: u32| ord_val(olds, x));
    assert forall|x: u32| #[trigger] has_ord(news, x) implies x != id && has_ord(olds, x) by {
        let j = choose|j: int| 0 <= j < news.len() && news[j].id == x;
        if j < i {
            assert(olds[j].id == x);
            if x == id {
                assert(olds[j].id < olds[i].id);
            }
        } else {
            assert(olds[j + 1].id == x);
            if x == id {
                assert(olds[i].id < olds[j + 1].id);
            }
        }
    }
    assert forall|x: u32| x != id && #[trigger] has_ord(olds, x) implies has_ord(news, x)
        && ord_val(news, x) == ord_val(olds, x) by {
        let j = choose|j: int| 0 <= j < olds.len() && olds[j].id == x;
        lemma_ord_at(olds, j);
        if j < i {
            assert(news[j] == olds[j]);
            lemma_ord_at(news, j);
        } else {
            assert(j != i);
            assert(news[j - 1] == olds[j]);
            lemma_ord_at(news, j - 1);
        }
    }
    assert(m_new =~= m_old.remove(id));
}

impl Clone for Accounts {
    fn clone(&self) -> (r: Self)
        ensures
            self.wf() ==> r.wf() && r@ == self@,
    {
        let entries = self.entries.clone();
        proof {
            assert(forall|i: int| 0 <= i < self.entries@.len() ==> #[trigger] entries@[i]@
                == self.entries@[i]@);
            if self.wf() {
                lemma_same_acct_views(self.entries@, entries@);
            }
        }
        Accounts { entries }
    }
}

/// Two account collections whose records have equal views index alike.
proof fn lemma_same_acct_views(s1: Seq<Account>, s2: Seq<Account>)
    requires
        distinct_owners(s1),
        s1.len() == s2.len(),
        forall|i: int| 0 <= i < s1.len() ==> s1[i]@ == #[trigger] s2[i]@,
    ensures
        distinct_owners(s2),
        Map::new(|x: Seq<u8>| has_acct(s2, x), |x: Seq<u8>| acct_val(s2, x)) == Map::new(
            |x: Seq<u8>| has_acct(s1, x),
            |x: Seq<u8>| acct_val(s1, x),
        ),
{
    assert forall|i: int| 0 <= i < s1.len() implies s1[i].owner@ == #[trigger] s2[i].owner@ by {
        assert(s2[i]@ == s1[i]@);
    }
    assert forall|x: Seq<u8>| #[trigger] has_acct(s1, x) implies has_acct(s2, x) && acct_val(
        s2,
        x,
    ) == acct_val(s1, x) by {
        let w = choose|w: int| 0 <= w < s1.len() && s1[w].owner@ == x;
        lemma_acct_at(s1, w);
        lemma_acct_at(s2, w);
    }
    assert forall|x: Seq<u8>| #[trigger] has_acct(s2, x) implies has_acct(s1, x) by {
        let w = choose|w: int| 0 <= w < s2.len() && s2[w].owner@ == x;
        assert(s1[w].owner@ == x);
    }
    assert(Map::new(|x: Seq<u8>| has_acct(s2, x), |x: Seq<u8>| acct_val(s2, x)) =~= Map::new(
        |x: Seq<u8>| has_acct(s1, x),
        |x: Seq<u8>| acct_val(s1, x),
    ));
}

impl Clone for Orders {
    fn clone(&self) -> (r: Self)
        ensures
            self.wf() ==> r.wf() && r@ == self@,
    {
        let entries = self.entries.clone();
        proof {
            assert(forall|i: int| 0 <= i < self.entries@.len() ==> #[trigger] entries@[i]@
                == self.entries@[i]@);
            if self.wf() {
                lemma_same_ord_views(self.entries@, entries@);
            }
        }
        Orders { entries }
    }
}

/// Two order collections whose records have equal views index alike.
proof fn lemma_same_ord_views(s1: Seq<Order>, s2: Seq<Order>)
    requires
        sorted_by_id(s1),
        s1.len() == s2.len(),
        forall|i: int| 0 <= i < s1.len() ==> s1[i]@ == #[trigger] s2[i]@,
    ensures
        sorted_by_id(s2),
        Map::new(|x: u32| has_ord(s2, x), |x: u32| ord_val(s2, x)) == Map::new(
            |x: u32| has_ord(s1, x),
            |x: u32| ord_val(s1, x),
        ),
{
    assert forall|i: int| 0 <= i < s1.len() implies s1[i].id == #[trigger] s2[i].id by {
        assert(s2[i]@ == s1[i]@);
    }
    assert forall|x: u32| #[trigger] has_ord(s1, x) implies has_ord(s2, x) && ord_val(s2, x)
        == ord_val(s1, x) by {
        let w = choose|w: int| 0 <= w < s1.len() && s1[w].id == x;
        lemma_ord_at(s1, w);
        lemma_ord_at(s2, w);
    }
    assert forall|x: u32| #[trigger] has_ord(s2, x) implies has_ord(s1, x) by {
        let w = choose|w: int| 0 <= w < s2.len() && s2[w].id == x;
        assert(s1[w].id == x);
    }
    assert(Map::new(|x: u32| has_ord(s2, x), |x: u32| ord_val(s2, x)) =~= Map::new(
        |x: u32| has_ord(s1, x),
        |x: u32| ord_val(s1, x),
    ));
}

// ---------------------------------------------------------------------------
// The schema over both collections.
// ---------------------------------------------------------------------------

/// Mathematical model of the whole ledger: the two collections as maps.
#[verifier::ext_equal]
pub ghost struct LedgerV {
    pub accounts: Map<Seq<u8>, AccountV>,
    pub orders: Map<u32, OrderV>,
}

/// Every stored account record carries the owner key it is stored under.
pub open spec fn accounts_keyed(l: LedgerV) -> bool {
    forall|k: Seq<u8>| #[trigger] l.accounts.contains_key(k) ==> l.accounts[k].owner == k
}

/// Referential consistency: every stored account is keyed by its owner and
/// its open-order list holds, without duplicates, exactly the ids of the
/// orders that account owns; every stored order is keyed by its id and its
/// owner has an account.
pub open spec fn consistent(l: LedgerV) -> bool {
    &&& accounts_keyed(l)
    &&& forall|k: Seq<u8>| #[trigger] l.accounts.contains_key(k)
        ==> l.accounts[k].orders.no_duplicates()
    &&& forall|k: Seq<u8>, id: u32| l.accounts.contains_key(k) ==> (#[trigger] l.accounts[k].orders.contains(
        id,
    ) <==> l.orders.contains_key(id) && l.orders[id].owner == k)
    &&& forall|id: u32| #[trigger] l.orders.contains_key(id) ==> l.orders[id].id == id
        && l.accounts.contains_key(l.orders[id].owner)
}

/// The typed view over the two collections. Bound to a snapshot it is read
/// through `&ExchangeSchema`; bound to a fork it is read and written through
/// `&mut ExchangeSchema`.
pub struct ExchangeSchema {
    pub accounts: Accounts,
    pub orders: Orders,
}

impl View for ExchangeSchema {
    type V = LedgerV;

    open spec fn view(&self) -> LedgerV {
        LedgerV { accounts: self.accounts@, orders: self.orders@ }
    }
}

impl ExchangeSchema {
    pub open spec fn wf(&self) -> bool {
        self.accounts.wf() && self.orders.wf()
    }

    /// An empty schema: no accounts, no orders.
    pub fn new() -> (r: Self)
        ensures
            r.wf(),
            r@.accounts == Map::<Seq<u8>, AccountV>::empty(),
            r@.orders == Map::<u32, OrderV>::empty(),
    {
        ExchangeSchema { accounts: Accounts::new(), orders: Orders::new() }
    }

    /// The accounts collection, read-only.
    pub fn accounts(&self) -> (r: &Accounts)
        ensures
            *r == self.accounts,
    {
        &self.accounts
    }

    /// Point lookup: the account owned by `owner`, if `owner` has one.
    pub fn account(&self, owner: &Vec<u8>) -> (r: Option<&Account>)
        requires
            self.wf(),
        ensures
            r is Some <==> self@.accounts.contains_key(owner@),
            r matches Some(a) ==> a@ == self@.accounts[owner@],
    {
        self.accounts.get(owner)
    }

    /// The orders collection, read-only.
    pub fn orders(&self) -> (r: &Orders)
        ensures
            *r == self.orders,
    {
        &self.orders
    }

    /// The accounts collection as a write handle; only a fork-bound (`&mut`)
    /// schema can give one out.
    pub fn accounts_mut(&mut self) -> (r: &mut Accounts)
        ensures
            *r == old(self).accounts,
            final(self).accounts == *final(r),
            final(self).orders == old(self).orders,
    {
        &mut self.accounts
    }

    /// The orders collection as a write handle; only a fork-bound (`&mut`)
    /// schema can give one out.
    pub fn orders_mut(&mut self) -> (r: &mut Orders)
        ensures
            *r == old(self).orders,
            final(self).orders == *final(r),
            final(self).accounts == old(self).accounts,
    {
        &mut self.orders
    }
}

impl Clone for ExchangeSchema {
    fn clone(&self) -> (r: Self)
        ensures
            self.wf() ==> r.wf() && r@ == self@,
    {
        let r = ExchangeSchema { accounts: self.accounts.clone(), orders: self.orders.clone() };
        proof {
            if self.wf() {
                assert(r@ =~= self@);
            }
        }
        r
    }
}

} // verus!
