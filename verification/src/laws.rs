use vstd::prelude::*;

use crate::errors::HTLCError;
use crate::machine::{
    add_lock_outcome, add_lock_sig_outcome, lock_reward_outcome, redeem_outcome, refund_outcome,
};
use crate::sigcheck::{ed25519_ix_data, sig_ix_valid, SignatureInstruction};
use crate::state::{all_zero, entry_wf, Entry, Payout};

verus! {

/// Total amount across a list of payouts.
pub open spec fn payout_total(p: Seq<Payout>) -> int
    decreases p.len(),
{
    if p.len() == 0 {
        0
    } else {
        p[0].amount + payout_total(p.drop_first())
    }
}

proof fn lemma_payout_total_one(p: Payout)
    ensures
        payout_total(seq![p]) == p.amount,
{
    assert(seq![p].drop_first() =~= Seq::<Payout>::empty());
    assert(payout_total(Seq::<Payout>::empty()) == 0);
    assert(payout_total(seq![p]) == p.amount + payout_total(seq![p].drop_first()));
}

proof fn lemma_payout_total_two(p: Payout, q: Payout)
    ensures
        payout_total(seq![p, q]) == p.amount + q.amount,
{
    assert(seq![p, q].drop_first() =~= seq![q]);
    lemma_payout_total_one(q);
}

/// A record can be redeemed at most once: once a redeem succeeds, any later
/// redeem of the resulting record fails with `AlreadyClaimed`, changes
/// nothing, and pays nothing.
pub proof fn lemma_redeem_at_most_once(
    e: Entry,
    caller1: [u8; 32],
    secret1: [u8; 32],
    now1: u64,
    caller2: [u8; 32],
    secret2: [u8; 32],
    now2: u64,
)
    requires
        redeem_outcome(e, caller1, secret1, now1).2 is Ok,
    ensures
        ({
            let (e1, p1, r1) = redeem_outcome(e, caller1, secret1, now1);
            let (e2, p2, r2) = redeem_outcome(e1, caller2, secret2, now2);
            &&& r2 == Err::<(), HTLCError>(HTLCError::AlreadyClaimed)
            &&& e2 == e1
            &&& p2 == Seq::<Payout>::empty()
        }),
{
}

/// A record can be refunded at most once and never double-pays: once a
/// refund succeeds, any later refund of the resulting record fails with
/// `AlreadyClaimed`, changes nothing, and pays nothing.
pub proof fn lemma_refund_at_most_once(e: Entry, now1: u64, now2: u64)
    requires
        refund_outcome(e, now1).2 is Ok,
    ensures
        ({
            let (e1, p1, r1) = refund_outcome(e, now1);
            let (e2, p2, r2) = refund_outcome(e1, now2);
            &&& r2 == Err::<(), HTLCError>(HTLCError::AlreadyClaimed)
            &&& e2 == e1
            &&& p2 == Seq::<Payout>::empty()
        }),
{
}

/// Settled records are inert and their escrow no longer exists: on a
/// terminal, well-formed record every state-machine operation fails with
/// `AlreadyClaimed`, leaves the record unchanged, and issues no transfers.
/// In particular `claimed` is monotonic: nothing leaves a terminal state.
pub proof fn lemma_settled_record_inert(
    e: Entry,
    caller: [u8; 32],
    id: [u8; 32],
    hashlock: [u8; 32],
    timelock: u64,
    signature: [u8; 64],
    ix: SignatureInstruction,
    reward_timelock: u64,
    reward: u64,
    secret: [u8; 32],
    now: u64,
)
    requires
        !(e.htlc.claimed is Active),
        entry_wf(e),
    ensures
        e.escrow is None,
        add_lock_outcome(e, caller, id, hashlock, timelock, now) == (
            e,
            Err::<[u8; 32], HTLCError>(HTLCError::AlreadyClaimed),
        ),
        add_lock_sig_outcome(e, id, hashlock, timelock, signature, ix, now) == (
            e,
            Err::<[u8; 32], HTLCError>(HTLCError::AlreadyClaimed),
        ),
        lock_reward_outcome(e, caller, reward_timelock, reward, now) == (
            e,
            Err::<bool, HTLCError>(HTLCError::AlreadyClaimed),
        ),
        redeem_outcome(e, caller, secret, now) == (
            e,
            Seq::<Payout>::empty(),
            Err::<(), HTLCError>(HTLCError::AlreadyClaimed),
        ),
        refund_outcome(e, now) == (
            e,
            Seq::<Payout>::empty(),
            Err::<(), HTLCError>(HTLCError::AlreadyClaimed),
        ),
{
}

/// A hashlock binds at most once: after a successful `add_lock` that set a
/// nonzero hashlock, a further `add_lock` by the sender fails with
/// `HashlockAlreadySet`, and so does any further `add_lock_sig`, whatever
/// instruction it carries. An all-zero hashlock is the unset sentinel, so
/// binding it does not count as setting the lock.
pub proof fn lemma_second_binding_rejected(
    e: Entry,
    caller1: [u8; 32],
    id: [u8; 32],
    hashlock1: [u8; 32],
    timelock1: u64,
    now1: u64,
    caller2: [u8; 32],
    hashlock2: [u8; 32],
    timelock2: u64,
    signature2: [u8; 64],
    ix2: SignatureInstruction,
    now2: u64,
)
    requires
        add_lock_outcome(e, caller1, id, hashlock1, timelock1, now1).1 is Ok,
        !all_zero(hashlock1@),
    ensures
        ({
            let (e1, r1) = add_lock_outcome(e, caller1, id, hashlock1, timelock1, now1);
            &&& (caller2@ == e1.htlc.sender@ ==> add_lock_outcome(
                e1,
                caller2,
                id,
                hashlock2,
                timelock2,
                now2,
            ) == (e1, Err::<[u8; 32], HTLCError>(HTLCError::HashlockAlreadySet)))
            &&& add_lock_sig_outcome(e1, id, hashlock2, timelock2, signature2, ix2, now2) == (
                e1,
                Err::<[u8; 32], HTLCError>(HTLCError::HashlockAlreadySet),
            )
        }),
{
}

/// A reward posts at most once: after a successful `lock_reward` with a
/// nonzero reward, a further `lock_reward` by the sender with a window that
/// would otherwise be acceptable fails with `RewardAlreadyExists`.
pub proof fn lemma_second_reward_rejected(
    e: Entry,
    caller1: [u8; 32],
    reward_timelock1: u64,
    reward1: u64,
    now1: u64,
    caller2: [u8; 32],
    reward_timelock2: u64,
    reward2: u64,
    now2: u64,
)
    requires
        lock_reward_outcome(e, caller1, reward_timelock1, reward1, now1).1 is Ok,
        reward1 != 0,
        caller2@ == e.htlc.sender@,
        now2 < reward_timelock2 < e.htlc.timelock,
    ensures
        ({
            let (e1, r1) = lock_reward_outcome(e, caller1, reward_timelock1, reward1, now1);
            lock_reward_outcome(e1, caller2, reward_timelock2, reward2, now2) == (
                e1,
                Err::<bool, HTLCError>(HTLCError::RewardAlreadyExists),
            )
        }),
{
}

/// A reward window outside the open interval from `now` to the record's
/// timelock is rejected with `InvalidRewardTimeLock` and changes nothing.
pub proof fn lemma_reward_window_rejected(
    e: Entry,
    caller: [u8; 32],
    reward_timelock: u64,
    reward: u64,
    now: u64,
)
    requires
        e.htlc.claimed is Active,
        caller@ == e.htlc.sender@,
        !(now < reward_timelock < e.htlc.timelock),
    ensures
        lock_reward_outcome(e, caller, reward_timelock, reward, now) == (
            e,
            Err::<bool, HTLCError>(HTLCError::InvalidRewardTimeLock),
        ),
{
}

/// Two byte sequences differing anywhere are different, so a payload that
/// deviates from the canonical signature-check payload in even one byte can
/// never pass the byte-exact check.
pub proof fn lemma_corrupted_payload_rejected(
    data: Seq<u8>,
    pubkey: Seq<u8>,
    msg: Seq<u8>,
    sig: Seq<u8>,
    i: int,
)
    requires
        0 <= i < data.len(),
        data[i] != ed25519_ix_data(pubkey, msg, sig)[i],
    ensures
        data != ed25519_ix_data(pubkey, msg, sig),
{
}

/// Any single-byte corruption of an accepted signature-check instruction's
/// payload (domain tag, version, application tag, header fields, key,
/// signature, or message, all of which the payload carries) turns the whole
/// delegated binding into a uniform `SignatureVerificationFailed` that
/// changes nothing.
pub proof fn lemma_corrupted_instruction_rejected(
    e: Entry,
    id: [u8; 32],
    hashlock: [u8; 32],
    timelock: u64,
    signature: [u8; 64],
    good: SignatureInstruction,
    bad: SignatureInstruction,
    i: int,
    now: u64,
)
    requires
        add_lock_sig_outcome(e, id, hashlock, timelock, signature, good, now).1 is Ok,
        bad.program_id == good.program_id,
        bad.num_accounts == good.num_accounts,
        0 <= i < good.data@.len(),
        bad.data@.len() == good.data@.len(),
        bad.data@[i] != good.data@[i],
    ensures
        add_lock_sig_outcome(e, id, hashlock, timelock, signature, bad, now) == (
            e,
            Err::<[u8; 32], HTLCError>(HTLCError::SignatureVerificationFailed),
        ),
{
    assert(sig_ix_valid(good, e.htlc.sender@, id@, hashlock@, timelock, signature@));
    assert(bad.data@ != good.data@);
}

/// Settlement conserves the escrowed funds: a successful redeem or refund
/// pays out exactly the principal plus the posted reward, in full, and
/// closes the escrow.
pub proof fn lemma_settlement_conserves_funds(
    e: Entry,
    caller: [u8; 32],
    secret: [u8; 32],
    now: u64,
)
    requires
        entry_wf(e),
    ensures
        redeem_outcome(e, caller, secret, now).2 is Ok ==> payout_total(
            redeem_outcome(e, caller, secret, now).1,
        ) == e.htlc.amount + e.htlc.reward && redeem_outcome(
            e,
            caller,
            secret,
            now,
        ).0.escrow is None,
        refund_outcome(e, now).2 is Ok ==> payout_total(refund_outcome(e, now).1) == e.htlc.amount
            + e.htlc.reward && refund_outcome(e, now).0.escrow is None,
{
    let h = e.htlc;
    if redeem_outcome(e, caller, secret, now).2 is Ok {
        let pays = redeem_outcome(e, caller, secret, now).1;
        if h.reward == 0 {
            lemma_payout_total_one(Payout { to: h.src_receiver, amount: h.amount });
        } else if now < h.reward_timelock {
            lemma_payout_total_two(
                Payout { to: h.src_receiver, amount: h.amount },
                Payout { to: h.sender, amount: h.reward },
            );
        } else if caller@ == h.src_receiver@ {
            lemma_payout_total_one(
                Payout { to: h.src_receiver, amount: (h.amount + h.reward) as u64 },
            );
        } else {
            lemma_payout_total_two(
                Payout { to: h.src_receiver, amount: h.amount },
                Payout { to: caller, amount: h.reward },
            );
        }
    }
    if refund_outcome(e, now).2 is Ok {
        lemma_payout_total_one(Payout { to: h.sender, amount: (h.amount + h.reward) as u64 });
    }
}

} // verus!
