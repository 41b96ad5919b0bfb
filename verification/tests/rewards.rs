use htlc_escrow::errors::HTLCError;
use htlc_escrow::machine::HtlcStore;
use htlc_escrow::state::Payout;
use sha2::{Digest, Sha256};

const SENDER: [u8; 32] = [2u8; 32];
const RECEIVER: [u8; 32] = [3u8; 32];
const SOLVER: [u8; 32] = [5u8; 32];
const TOKEN: [u8; 32] = [4u8; 32];

const T: u64 = 100_000;

fn sha(bytes: &[u8]) -> [u8; 32] {
    let mut hasher = Sha256::new();
    hasher.update(bytes);
    hasher.finalize().into()
}

/// The reward-branching fixture: amount 1000, reward 100, timelock T,
/// reward_timelock T-500, hashlock over a known secret.
fn fixture(secret: [u8; 32]) -> ([u8; 32], HtlcStore) {
    let id = [21u8; 32];
    let mut store = HtlcStore::new();
    store
        .lock(
            &id,
            &sha(&secret),
            T,
            String::from("chain-b"),
            String::from("addr-b"),
            String::from("asset-b"),
            String::from("asset-a"),
            &RECEIVER,
            1000,
            &SENDER,
            &TOKEN,
            1000,
        )
        .unwrap();
    store.lock_reward(&SENDER, &id, T - 500, 100, 1500).unwrap();
    (id, store)
}

#[test]
fn redeem_within_grace_window_returns_reward_to_sender() {
    let secret = [42u8; 32];
    let (id, mut store) = fixture(secret);
    // t = T-600 lies before reward_timelock = T-500
    let payouts = store.redeem(&SOLVER, &id, &secret, T - 600).unwrap();
    assert_eq!(
        payouts,
        vec![
            Payout { to: RECEIVER, amount: 1000 },
            Payout { to: SENDER, amount: 100 },
        ]
    );
}

#[test]
fn receiver_redeeming_after_window_collects_reward_too() {
    let secret = [42u8; 32];
    let (id, mut store) = fixture(secret);
    // t = T-100 is past reward_timelock; the receiver redeems in person
    let payouts = store.redeem(&RECEIVER, &id, &secret, T - 100).unwrap();
    assert_eq!(payouts, vec![Payout { to: RECEIVER, amount: 1100 }]);
}

#[test]
fn solver_redeeming_after_window_earns_reward() {
    let secret = [42u8; 32];
    let (id, mut store) = fixture(secret);
    // t = T-100 is past reward_timelock; a third party redeems
    let payouts = store.redeem(&SOLVER, &id, &secret, T - 100).unwrap();
    assert_eq!(
        payouts,
        vec![
            Payout { to: RECEIVER, amount: 1000 },
            Payout { to: SOLVER, amount: 100 },
        ]
    );
}

#[test]
fn refund_returns_principal_and_reward() {
    let secret = [42u8; 32];
    let (id, mut store) = fixture(secret);
    let payouts = store.refund(&id, T + 1).unwrap();
    assert_eq!(payouts, vec![Payout { to: SENDER, amount: 1100 }]);
}

#[test]
fn lock_reward_rejects_second_posting() {
    let secret = [42u8; 32];
    let (id, mut store) = fixture(secret);
    assert_eq!(store.lock_reward(&SENDER, &id, T - 400, 50, 2000), Err(HTLCError::RewardAlreadyExists));
}

#[test]
fn lock_reward_rejects_window_outside_now_and_timelock() {
    let id = [22u8; 32];
    let mut store = HtlcStore::new();
    store
        .lock(
            &id,
            &sha(&[1u8; 32]),
            T,
            String::from("chain-b"),
            String::from("addr-b"),
            String::from("asset-b"),
            String::from("asset-a"),
            &RECEIVER,
            1000,
            &SENDER,
            &TOKEN,
            1000,
        )
        .unwrap();
    // window not strictly after now
    assert_eq!(store.lock_reward(&SENDER, &id, 2000, 100, 2000), Err(HTLCError::InvalidRewardTimeLock));
    // window not strictly before the record's timelock
    assert_eq!(store.lock_reward(&SENDER, &id, T, 100, 2000), Err(HTLCError::InvalidRewardTimeLock));
    assert_eq!(store.lock_reward(&SENDER, &id, T + 5, 100, 2000), Err(HTLCError::InvalidRewardTimeLock));
    // only the sender may post the reward
    assert_eq!(store.lock_reward(&SOLVER, &id, T - 500, 100, 2000), Err(HTLCError::UnauthorizedAccess));
    // a valid window is accepted
    assert_eq!(store.lock_reward(&SENDER, &id, T - 500, 100, 2000), Ok(true));
    let details = store.getDetails(&id).unwrap();
    assert_eq!(details.reward, 100);
    assert_eq!(details.reward_timelock, T - 500);
}
