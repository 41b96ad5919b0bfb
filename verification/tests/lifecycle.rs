use htlc_escrow::errors::HTLCError;
use htlc_escrow::machine::HtlcStore;
use htlc_escrow::state::{ClaimStatus, Payout};
use sha2::{Digest, Sha256};

const SENDER: [u8; 32] = [2u8; 32];
const RECEIVER: [u8; 32] = [3u8; 32];
const TOKEN: [u8; 32] = [4u8; 32];

fn sha(bytes: &[u8]) -> [u8; 32] {
    let mut hasher = Sha256::new();
    hasher.update(bytes);
    hasher.finalize().into()
}

fn commit_default(store: &mut HtlcStore, id: [u8; 32], timelock: u64, amount: u64, now: u64) -> Result<[u8; 32], HTLCError> {
    store.commit(
        &id,
        Vec::new(),
        Vec::new(),
        Vec::new(),
        String::from("chain-b"),
        String::from("asset-b"),
        String::from("addr-b"),
        String::from("asset-a"),
        &RECEIVER,
        timelock,
        amount,
        &SENDER,
        &TOKEN,
        now,
    )
}

fn lock_default(store: &mut HtlcStore, id: [u8; 32], hashlock: [u8; 32], timelock: u64, amount: u64, now: u64) -> Result<[u8; 32], HTLCError> {
    store.lock(
        &id,
        &hashlock,
        timelock,
        String::from("chain-b"),
        String::from("addr-b"),
        String::from("asset-b"),
        String::from("asset-a"),
        &RECEIVER,
        amount,
        &SENDER,
        &TOKEN,
        now,
    )
}

#[test]
fn commit_rejects_short_timelock() {
    let mut store = HtlcStore::new();
    // timelock less than 900 seconds past now
    assert_eq!(commit_default(&mut store, [1u8; 32], 2899, 100, 2000), Err(HTLCError::InvalidTimeLock));
    // boundary: exactly now + 900 is accepted
    assert_eq!(commit_default(&mut store, [1u8; 32], 2900, 100, 2000), Ok([1u8; 32]));
}

#[test]
fn commit_rejects_zero_amount() {
    let mut store = HtlcStore::new();
    assert_eq!(commit_default(&mut store, [1u8; 32], 10_000, 0, 2000), Err(HTLCError::FundsNotSent));
}

#[test]
fn lock_rejects_short_timelock_and_zero_amount() {
    let mut store = HtlcStore::new();
    let hashlock = sha(&[9u8; 32]);
    assert_eq!(lock_default(&mut store, [1u8; 32], hashlock, 2899, 100, 2000), Err(HTLCError::InvalidTimeLock));
    assert_eq!(lock_default(&mut store, [1u8; 32], hashlock, 10_000, 0, 2000), Err(HTLCError::FundsNotSent));
    assert_eq!(lock_default(&mut store, [1u8; 32], hashlock, 10_000, 100, 2000), Ok([1u8; 32]));
}

#[test]
fn redeem_requires_set_hashlock() {
    let mut store = HtlcStore::new();
    let id = [7u8; 32];
    commit_default(&mut store, id, 10_000, 100, 2000).unwrap();
    let secret = [9u8; 32];
    assert_eq!(store.redeem(&RECEIVER, &id, &secret, 2100), Err(HTLCError::HashlockNotSet));
}

#[test]
fn redeem_succeeds_iff_digest_matches() {
    let mut store = HtlcStore::new();
    let id = [7u8; 32];
    let secret = [9u8; 32];
    let hashlock = sha(&secret);
    lock_default(&mut store, id, hashlock, 10_000, 100, 2000).unwrap();

    // a wrong preimage is rejected
    let wrong = [10u8; 32];
    assert_eq!(store.redeem(&RECEIVER, &id, &wrong, 2100), Err(HTLCError::HashlockNoMatch));

    // the right preimage pays the receiver the principal
    let payouts = store.redeem(&RECEIVER, &id, &secret, 2100).unwrap();
    assert_eq!(payouts, vec![Payout { to: RECEIVER, amount: 100 }]);

    // the record is terminal: a second redeem is rejected
    assert_eq!(store.redeem(&RECEIVER, &id, &secret, 2200), Err(HTLCError::AlreadyClaimed));
}

#[test]
fn redeem_stores_secret_and_status() {
    let mut store = HtlcStore::new();
    let id = [7u8; 32];
    let secret = [9u8; 32];
    let hashlock = sha(&secret);
    lock_default(&mut store, id, hashlock, 10_000, 100, 2000).unwrap();
    store.redeem(&RECEIVER, &id, &secret, 2100).unwrap();
    let details = store.getDetails(&id).unwrap();
    assert_eq!(details.claimed, ClaimStatus::Redeemed);
    assert_eq!(details.secret, secret);
    assert_eq!(details.hashlock, hashlock);
}

#[test]
fn refund_rejected_before_timelock() {
    let mut store = HtlcStore::new();
    let id = [8u8; 32];
    commit_default(&mut store, id, 10_000, 250, 2000).unwrap();
    // strictly before
    assert_eq!(store.refund(&id, 9_000), Err(HTLCError::NotPastTimeLock));
    // exactly at the timelock still fails: refund needs now strictly past it
    assert_eq!(store.refund(&id, 10_000), Err(HTLCError::NotPastTimeLock));
}

#[test]
fn refund_succeeds_exactly_once() {
    let mut store = HtlcStore::new();
    let id = [8u8; 32];
    commit_default(&mut store, id, 10_000, 250, 2000).unwrap();
    let payouts = store.refund(&id, 10_001).unwrap();
    assert_eq!(payouts, vec![Payout { to: SENDER, amount: 250 }]);
    // never double-pays
    assert_eq!(store.refund(&id, 10_002), Err(HTLCError::AlreadyClaimed));
    let details = store.getDetails(&id).unwrap();
    assert_eq!(details.claimed, ClaimStatus::Refunded);
}

#[test]
fn settled_record_rejects_every_operation() {
    let mut store = HtlcStore::new();
    let id = [8u8; 32];
    commit_default(&mut store, id, 10_000, 250, 2000).unwrap();
    store.refund(&id, 10_001).unwrap();
    // the drained escrow is closed: nothing can move funds or rebind terms
    let secret = [9u8; 32];
    assert_eq!(store.redeem(&RECEIVER, &id, &secret, 10_002), Err(HTLCError::AlreadyClaimed));
    assert_eq!(store.refund(&id, 10_002), Err(HTLCError::AlreadyClaimed));
    assert_eq!(store.add_lock(&SENDER, &id, &sha(&secret), 20_000, 10_002), Err(HTLCError::AlreadyClaimed));
    assert_eq!(store.lock_reward(&SENDER, &id, 9_000, 10, 8_000), Err(HTLCError::AlreadyClaimed));
}

#[test]
fn get_details_reports_the_full_record() {
    let mut store = HtlcStore::new();
    let id = [11u8; 32];
    commit_default(&mut store, id, 10_000, 777, 2000).unwrap();
    let details = store.getDetails(&id).unwrap();
    assert_eq!(details.id, id);
    assert_eq!(details.sender, SENDER);
    assert_eq!(details.src_receiver, RECEIVER);
    assert_eq!(details.token_contract, TOKEN);
    assert_eq!(details.amount, 777);
    assert_eq!(details.timelock, 10_000);
    assert_eq!(details.reward, 0);
    assert_eq!(details.reward_timelock, 0);
    assert_eq!(details.hashlock, [0u8; 32]);
    assert_eq!(details.secret, [0u8; 32]);
    assert_eq!(details.claimed, ClaimStatus::Active);
    assert_eq!(details.dst_chain, "chain-b");
    assert_eq!(details.dst_asset, "asset-b");
    assert_eq!(details.dst_address, "addr-b");
    assert_eq!(details.src_asset, "asset-a");
    // unknown ids have no record
    assert!(store.getDetails(&[12u8; 32]).is_none());
}

#[test]
fn add_lock_rules() {
    let mut store = HtlcStore::new();
    let id = [13u8; 32];
    commit_default(&mut store, id, 10_000, 100, 2000).unwrap();
    let hashlock = sha(&[1u8; 32]);
    // only the sender may bind the hashlock
    assert_eq!(store.add_lock(&RECEIVER, &id, &hashlock, 20_000, 2100), Err(HTLCError::UnauthorizedAccess));
    // the fresh timelock must clear the grace period
    assert_eq!(store.add_lock(&SENDER, &id, &hashlock, 2999, 2100), Err(HTLCError::InvalidTimeLock));
    // a valid binding sets hashlock and timelock
    assert_eq!(store.add_lock(&SENDER, &id, &hashlock, 20_000, 2100), Ok(id));
    let details = store.getDetails(&id).unwrap();
    assert_eq!(details.hashlock, hashlock);
    assert_eq!(details.timelock, 20_000);
    // a second binding is rejected
    assert_eq!(store.add_lock(&SENDER, &id, &hashlock, 30_000, 2200), Err(HTLCError::HashlockAlreadySet));
}
