//! End-to-end tests of the exchange ledger: signed transactions applied
//! through the service surface, queries read back from committed snapshots.

use cryptoexchange::api::{ApiError, ExchangeServiceApi};
use cryptoexchange::store::Store;
use cryptoexchange::transactions::{Transactions, TxCancel, TxCreate, TxOrder};
use ed25519_dalek::Signer;
use sha2::Digest;

fn keypair(seed: u8) -> (ed25519_dalek::SigningKey, Vec<u8>) {
    let sk = ed25519_dalek::SigningKey::from_bytes(&[seed; 32]);
    let pk = sk.verifying_key().to_bytes().to_vec();
    (sk, pk)
}

fn signed_create(sk: &ed25519_dalek::SigningKey, owner: &[u8]) -> Transactions {
    let unsigned = TxCreate::new(owner.to_vec(), Vec::new());
    let sig = sk.sign(&unsigned.payload()).to_bytes().to_vec();
    Transactions::Create(TxCreate::new(owner.to_vec(), sig))
}

fn signed_order(
    sk: &ed25519_dalek::SigningKey,
    owner: &[u8],
    price: u32,
    amount: i32,
    id: u32,
) -> Transactions {
    let unsigned = TxOrder::new(owner.to_vec(), price, amount, id, Vec::new());
    let sig = sk.sign(&unsigned.payload()).to_bytes().to_vec();
    Transactions::Order(TxOrder::new(owner.to_vec(), price, amount, id, sig))
}

fn signed_cancel(sk: &ed25519_dalek::SigningKey, owner: &[u8], id: u32) -> Transactions {
    let unsigned = TxCancel::new(owner.to_vec(), id, Vec::new());
    let sig = sk.sign(&unsigned.payload()).to_bytes().to_vec();
    Transactions::Cancel(TxCancel::new(owner.to_vec(), id, sig))
}

#[test]
fn create_account_initial_balances() {
    let (sk, pk) = keypair(1);
    let mut store = Store::new();
    let r = ExchangeServiceApi::post_transaction(&mut store, &signed_create(&sk, &pk));
    assert!(r.is_ok());
    let account = ExchangeServiceApi::get_accout(store.snapshot(), &pk).unwrap();
    assert_eq!(account.usd_balance, 1_000_000);
    assert_eq!(account.token_balance, 1_000);
    assert!(account.orders.is_empty());
    assert_eq!(account.owner, pk);
}

#[test]
fn create_twice_is_idempotent() {
    let (sk, pk) = keypair(2);
    let mut store = Store::new();
    let tx = signed_create(&sk, &pk);
    ExchangeServiceApi::post_transaction(&mut store, &tx).unwrap();
    ExchangeServiceApi::post_transaction(&mut store, &signed_order(&sk, &pk, 3, 2, 7)).unwrap();
    // replaying the create must not reset balances or the order list
    ExchangeServiceApi::post_transaction(&mut store, &tx).unwrap();
    let account = ExchangeServiceApi::get_accout(store.snapshot(), &pk).unwrap();
    assert_eq!(account.usd_balance, 1_000_000 - 6);
    assert_eq!(account.token_balance, 1_002);
    assert_eq!(account.orders, vec![7]);
    assert_eq!(ExchangeServiceApi::get_orders(store.snapshot()).orders.len(), 1);
}

#[test]
fn buy_order_conservation() {
    let (sk, pk) = keypair(3);
    let mut store = Store::new();
    ExchangeServiceApi::post_transaction(&mut store, &signed_create(&sk, &pk)).unwrap();
    ExchangeServiceApi::post_transaction(&mut store, &signed_order(&sk, &pk, 10, 5, 1)).unwrap();
    let account = ExchangeServiceApi::get_accout(store.snapshot(), &pk).unwrap();
    assert_eq!(account.usd_balance, 999_950);
    assert_eq!(account.token_balance, 1_005);
    assert_eq!(account.orders, vec![1]);
    let book = ExchangeServiceApi::get_orders(store.snapshot()).orders;
    assert_eq!(book.len(), 1);
    assert_eq!(book[0].id, 1);
    assert_eq!(book[0].price, 10);
    assert_eq!(book[0].amount, 5);
    assert_eq!(book[0].owner, pk);
}

#[test]
fn sell_order_conservation() {
    let (sk, pk) = keypair(4);
    let mut store = Store::new();
    ExchangeServiceApi::post_transaction(&mut store, &signed_create(&sk, &pk)).unwrap();
    ExchangeServiceApi::post_transaction(&mut store, &signed_order(&sk, &pk, 10, -5, 1)).unwrap();
    let account = ExchangeServiceApi::get_accout(store.snapshot(), &pk).unwrap();
    assert_eq!(account.usd_balance, 1_000_050);
    assert_eq!(account.token_balance, 995);
    assert_eq!(account.orders, vec![1]);
    let book = ExchangeServiceApi::get_orders(store.snapshot()).orders;
    assert_eq!(book.len(), 1);
    assert_eq!(book[0].amount, -5);
}

#[test]
fn duplicate_order_id_is_noop() {
    let (sk, pk) = keypair(5);
    let mut store = Store::new();
    ExchangeServiceApi::post_transaction(&mut store, &signed_create(&sk, &pk)).unwrap();
    ExchangeServiceApi::post_transaction(&mut store, &signed_order(&sk, &pk, 10, 5, 1)).unwrap();
    // a second order under the same id is absorbed, whatever its terms
    let r = ExchangeServiceApi::post_transaction(&mut store, &signed_order(&sk, &pk, 99, 7, 1));
    assert!(r.is_ok());
    let account = ExchangeServiceApi::get_accout(store.snapshot(), &pk).unwrap();
    assert_eq!(account.usd_balance, 999_950);
    assert_eq!(account.token_balance, 1_005);
    assert_eq!(account.orders, vec![1]);
    let book = ExchangeServiceApi::get_orders(store.snapshot()).orders;
    assert_eq!(book.len(), 1);
    assert_eq!(book[0].price, 10);
    assert_eq!(book[0].amount, 5);
}

#[test]
fn order_without_account_is_noop() {
    let (sk, pk) = keypair(6);
    let mut store = Store::new();
    let r = ExchangeServiceApi::post_transaction(&mut store, &signed_order(&sk, &pk, 10, 5, 1));
    assert!(r.is_ok());
    assert!(ExchangeServiceApi::get_orders(store.snapshot()).orders.is_empty());
    assert_eq!(
        ExchangeServiceApi::get_accout(store.snapshot(), &pk).unwrap_err(),
        ApiError::NotFound
    );
}

#[test]
fn cancel_round_trip() {
    let (sk, pk) = keypair(7);
    let mut store = Store::new();
    ExchangeServiceApi::post_transaction(&mut store, &signed_create(&sk, &pk)).unwrap();
    ExchangeServiceApi::post_transaction(&mut store, &signed_order(&sk, &pk, 10, 5, 1)).unwrap();
    ExchangeServiceApi::post_transaction(&mut store, &signed_cancel(&sk, &pk, 1)).unwrap();
    // cancellation removes the order whole; it does not move balances
    let account = ExchangeServiceApi::get_accout(store.snapshot(), &pk).unwrap();
    assert_eq!(account.usd_balance, 999_950);
    assert_eq!(account.token_balance, 1_005);
    assert!(account.orders.is_empty());
    assert!(ExchangeServiceApi::get_orders(store.snapshot()).orders.is_empty());
    // a second cancel of the same id is a no-op, still accepted
    let r = ExchangeServiceApi::post_transaction(&mut store, &signed_cancel(&sk, &pk, 1));
    assert!(r.is_ok());
    let account = ExchangeServiceApi::get_accout(store.snapshot(), &pk).unwrap();
    assert_eq!(account.usd_balance, 999_950);
    assert_eq!(account.token_balance, 1_005);
    assert!(account.orders.is_empty());
}

#[test]
fn cancel_missing_target_is_noop() {
    let (sk, pk) = keypair(8);
    let mut store = Store::new();
    ExchangeServiceApi::post_transaction(&mut store, &signed_create(&sk, &pk)).unwrap();
    let r = ExchangeServiceApi::post_transaction(&mut store, &signed_cancel(&sk, &pk, 42));
    assert!(r.is_ok());
    let account = ExchangeServiceApi::get_accout(store.snapshot(), &pk).unwrap();
    assert_eq!(account.usd_balance, 1_000_000);
    assert_eq!(account.token_balance, 1_000);
}

#[test]
fn cancel_of_another_owners_order_is_noop() {
    let (sk_a, pk_a) = keypair(9);
    let (sk_b, pk_b) = keypair(10);
    let mut store = Store::new();
    ExchangeServiceApi::post_transaction(&mut store, &signed_create(&sk_a, &pk_a)).unwrap();
    ExchangeServiceApi::post_transaction(&mut store, &signed_create(&sk_b, &pk_b)).unwrap();
    ExchangeServiceApi::post_transaction(&mut store, &signed_order(&sk_a, &pk_a, 10, 5, 1))
        .unwrap();
    let r = ExchangeServiceApi::post_transaction(&mut store, &signed_cancel(&sk_b, &pk_b, 1));
    assert!(r.is_ok());
    let book = ExchangeServiceApi::get_orders(store.snapshot()).orders;
    assert_eq!(book.len(), 1);
    assert_eq!(book[0].owner, pk_a);
    let account_a = ExchangeServiceApi::get_accout(store.snapshot(), &pk_a).unwrap();
    assert_eq!(account_a.orders, vec![1]);
}

#[test]
fn unverified_transaction_is_rejected() {
    let (sk, pk) = keypair(11);
    let (wrong_sk, _) = keypair(12);
    let mut store = Store::new();
    // signed by the wrong key for the declared owner
    let tx = signed_create(&wrong_sk, &pk);
    let r = ExchangeServiceApi::post_transaction(&mut store, &tx);
    assert_eq!(r.unwrap_err(), ApiError::InvalidSignature);
    assert_eq!(
        ExchangeServiceApi::get_accout(store.snapshot(), &pk).unwrap_err(),
        ApiError::NotFound
    );
    assert!(ExchangeServiceApi::get_orders(store.snapshot()).orders.is_empty());
    // the rightful signature is accepted afterwards
    assert!(ExchangeServiceApi::post_transaction(&mut store, &signed_create(&sk, &pk)).is_ok());
}

#[test]
fn tampered_payload_is_rejected() {
    let (sk, pk) = keypair(13);
    let mut store = Store::new();
    ExchangeServiceApi::post_transaction(&mut store, &signed_create(&sk, &pk)).unwrap();
    // signature made over amount 5, submitted with amount 500
    let unsigned = TxOrder::new(pk.clone(), 10, 5, 1, Vec::new());
    let sig = sk.sign(&unsigned.payload()).to_bytes().to_vec();
    let tampered = Transactions::Order(TxOrder::new(pk.clone(), 10, 500, 1, sig));
    let r = ExchangeServiceApi::post_transaction(&mut store, &tampered);
    assert_eq!(r.unwrap_err(), ApiError::InvalidSignature);
    assert!(ExchangeServiceApi::get_orders(store.snapshot()).orders.is_empty());
}

#[test]
fn query_on_empty_store_is_not_found() {
    let (_, pk) = keypair(14);
    let store = Store::new();
    assert_eq!(
        ExchangeServiceApi::get_accout(store.snapshot(), &pk).unwrap_err(),
        ApiError::NotFound
    );
}

#[test]
fn transaction_hash_is_payload_digest() {
    let (sk, pk) = keypair(15);
    let mut store = Store::new();
    let tx = signed_create(&sk, &pk);
    let expected = sha2::Sha256::digest(tx.payload().as_slice()).to_vec();
    let resp = ExchangeServiceApi::post_transaction(&mut store, &tx).unwrap();
    assert_eq!(resp.tx_hash, expected);
    assert_eq!(resp.tx_hash.len(), 32);
    assert_ne!(resp.tx_hash, tx.payload());
}

#[test]
fn order_book_is_sorted_by_id() {
    let (sk, pk) = keypair(16);
    let mut store = Store::new();
    ExchangeServiceApi::post_transaction(&mut store, &signed_create(&sk, &pk)).unwrap();
    for id in [5u32, 3, 9] {
        ExchangeServiceApi::post_transaction(&mut store, &signed_order(&sk, &pk, 2, 1, id))
            .unwrap();
    }
    let book = ExchangeServiceApi::get_orders(store.snapshot()).orders;
    let ids: Vec<u32> = book.iter().map(|o| o.id).collect();
    assert_eq!(ids, vec![3, 5, 9]);
}

#[test]
fn insufficient_usd_buy_is_absorbed() {
    let (sk, pk) = keypair(17);
    let mut store = Store::new();
    ExchangeServiceApi::post_transaction(&mut store, &signed_create(&sk, &pk)).unwrap();
    // cost 1_000_000 * 5 exceeds the starting quote balance
    let r = ExchangeServiceApi::post_transaction(
        &mut store,
        &signed_order(&sk, &pk, 1_000_000, 5, 1),
    );
    assert!(r.is_ok());
    let account = ExchangeServiceApi::get_accout(store.snapshot(), &pk).unwrap();
    assert_eq!(account.usd_balance, 1_000_000);
    assert_eq!(account.token_balance, 1_000);
    assert!(account.orders.is_empty());
    assert!(ExchangeServiceApi::get_orders(store.snapshot()).orders.is_empty());
}

#[test]
fn insufficient_token_sell_is_absorbed() {
    let (sk, pk) = keypair(18);
    let mut store = Store::new();
    ExchangeServiceApi::post_transaction(&mut store, &signed_create(&sk, &pk)).unwrap();
    // selling 2000 tokens against a balance of 1000
    let r = ExchangeServiceApi::post_transaction(&mut store, &signed_order(&sk, &pk, 10, -2000, 1));
    assert!(r.is_ok());
    let account = ExchangeServiceApi::get_accout(store.snapshot(), &pk).unwrap();
    assert_eq!(account.usd_balance, 1_000_000);
    assert_eq!(account.token_balance, 1_000);
    assert!(ExchangeServiceApi::get_orders(store.snapshot()).orders.is_empty());
}

#[test]
fn referential_consistency_across_transactions() {
    let (sk_a, pk_a) = keypair(19);
    let (sk_b, pk_b) = keypair(20);
    let mut store = Store::new();
    ExchangeServiceApi::post_transaction(&mut store, &signed_create(&sk_a, &pk_a)).unwrap();
    ExchangeServiceApi::post_transaction(&mut store, &signed_create(&sk_b, &pk_b)).unwrap();
    ExchangeServiceApi::post_transaction(&mut store, &signed_order(&sk_a, &pk_a, 10, 1, 1))
        .unwrap();
    ExchangeServiceApi::post_transaction(&mut store, &signed_order(&sk_b, &pk_b, 10, 1, 2))
        .unwrap();
    ExchangeServiceApi::post_transaction(&mut store, &signed_order(&sk_a, &pk_a, 10, 1, 3))
        .unwrap();
    ExchangeServiceApi::post_transaction(&mut store, &signed_cancel(&sk_a, &pk_a, 1)).unwrap();
    // each account's order list is exactly the set of book entries it owns
    let book = ExchangeServiceApi::get_orders(store.snapshot()).orders;
    let account_a = ExchangeServiceApi::get_accout(store.snapshot(), &pk_a).unwrap();
    let account_b = ExchangeServiceApi::get_accout(store.snapshot(), &pk_b).unwrap();
    assert_eq!(account_a.orders, vec![3]);
    assert_eq!(account_b.orders, vec![2]);
    let owned_a: Vec<u32> = book.iter().filter(|o| o.owner == pk_a).map(|o| o.id).collect();
    let owned_b: Vec<u32> = book.iter().filter(|o| o.owner == pk_b).map(|o| o.id).collect();
    assert_eq!(owned_a, account_a.orders);
    assert_eq!(owned_b, account_b.orders);
    assert_eq!(book.len(), 2);
}

#[test]
fn query_sees_committed_state_not_fork() {
    let (sk, pk) = keypair(21);
    let mut store = Store::new();
    ExchangeServiceApi::post_transaction(&mut store, &signed_create(&sk, &pk)).unwrap();
    // stage a transaction on a fork without committing it
    let mut fork = store.fork();
    if let Transactions::Order(t) = signed_order(&sk, &pk, 10, 5, 1) {
        t.execute(&mut fork);
    }
    // the snapshot still shows the last committed state
    let account = ExchangeServiceApi::get_accout(store.snapshot(), &pk).unwrap();
    assert_eq!(account.usd_balance, 1_000_000);
    assert!(account.orders.is_empty());
    assert!(ExchangeServiceApi::get_orders(store.snapshot()).orders.is_empty());
    // only commit makes the fork's writes visible
    store.commit(fork);
    let account = ExchangeServiceApi::get_accout(store.snapshot(), &pk).unwrap();
    assert_eq!(account.usd_balance, 999_950);
    assert_eq!(account.orders, vec![1]);
    assert_eq!(ExchangeServiceApi::get_orders(store.snapshot()).orders.len(), 1);
}
