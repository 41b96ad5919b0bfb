use vstd::prelude::*;

use crate::encoding::{bytes32_eq, is_zero32};
use crate::errors::HTLCError;
use crate::hashing::{sha256, sha256_of};
use crate::sigcheck::{sig_ix_valid, verify_sig_instruction, SignatureInstruction};
use crate::state::{all_zero, entry_wf, ClaimStatus, Entry, EscrowAccount, Payout, HTLC};

verus! {

/// Index of the first entry holding `id`, or -1 when no entry does.
pub open spec fn find_idx(s: Seq<Entry>, id: Seq<u8>) -> int
    decreases s.len(),
{
    if s.len() == 0 {
        -1
    } else if s[0].htlc.id@ == id {
        0
    } else {
        let r = find_idx(s.drop_first(), id);
        if r == -1 {
            -1
        } else {
            r + 1
        }
    }
}

/// Whether some entry holds `id`.
pub open spec fn contains_id(s: Seq<Entry>, id: Seq<u8>) -> bool {
    find_idx(s, id) >= 0
}

/// The entry holding `id`; meaningful only when `contains_id` holds.
pub open spec fn entry_for(s: Seq<Entry>, id: Seq<u8>) -> Entry {
    s[find_idx(s, id)]
}

/// No two entries share an id.
pub open spec fn ids_unique(s: Seq<Entry>) -> bool {
    forall|i: int, j: int| 0 <= i < j < s.len() ==> s[i].htlc.id@ != s[j].htlc.id@
}

/// Store-level well-formedness: unique ids and well-formed entries.
pub open spec fn store_wf(s: Seq<Entry>) -> bool {
    &&& ids_unique(s)
    &&& forall|i: int| 0 <= i < s.len() ==> entry_wf(#[trigger] s[i])
}

pub proof fn lemma_find_idx_props(s: Seq<Entry>, id: Seq<u8>)
    ensures
        find_idx(s, id) == -1 ==> forall|i: int| 0 <= i < s.len() ==> s[i].htlc.id@ != id,
        find_idx(s, id) != -1 ==> {
            &&& 0 <= find_idx(s, id) < s.len()
            &&& s[find_idx(s, id)].htlc.id@ == id
        },
    decreases s.len(),
{
    if s.len() > 0 && s[0].htlc.id@ != id {
        lemma_find_idx_props(s.drop_first(), id);
        assert forall|i: int| 1 <= i < s.len() implies s[i] == s.drop_first()[i - 1] by {}
    }
}

pub proof fn lemma_find_idx_first(s: Seq<Entry>, id: Seq<u8>, i: int)
    requires
        0 <= i < s.len(),
        s[i].htlc.id@ == id,
        forall|j: int| 0 <= j < i ==> s[j].htlc.id@ != id,
    ensures
        find_idx(s, id) == i,
    decreases s.len(),
{
    if i > 0 {
        assert(s.drop_first()[i - 1] == s[i]);
        assert forall|j: int| 0 <= j < i - 1 implies s.drop_first()[j].htlc.id@ != id by {
            assert(s.drop_first()[j] == s[j + 1]);
        }
        lemma_find_idx_first(s.drop_first(), id, i - 1);
    }
}

/// Replacing the entry at `id` with one carrying the same id leaves every
/// lookup where it was.
pub proof fn lemma_find_idx_update(s: Seq<Entry>, id: Seq<u8>, e2: Entry)
    requires
        contains_id(s, id),
        e2.htlc.id@ == id,
    ensures
        find_idx(s.update(find_idx(s, id), e2), id) == find_idx(s, id),
{
    let i = find_idx(s, id);
    lemma_find_idx_props(s, id);
    let s2 = s.update(i, e2);
    assert forall|j: int| 0 <= j < i implies s2[j].htlc.id@ != id by {
        assert(s2[j] == s[j]);
        lemma_find_idx_first_match(s, id, j);
    }
    lemma_find_idx_first(s2, id, i);
}

/// Entries before the first match do not match.
pub proof fn lemma_find_idx_first_match(s: Seq<Entry>, id: Seq<u8>, j: int)
    requires
        contains_id(s, id),
        0 <= j < find_idx(s, id),
    ensures
        s[j].htlc.id@ != id,
    decreases s.len(),
{
    lemma_find_idx_props(s, id);
    if j > 0 {
        lemma_find_idx_first_match(s.drop_first(), id, j - 1);
        assert(s.drop_first()[j - 1] == s[j]);
    }
}

proof fn lemma_update_preserves_wf(s: Seq<Entry>, i: int, e2: Entry)
    requires
        store_wf(s),
        0 <= i < s.len(),
        entry_wf(e2),
        e2.htlc.id@ == s[i].htlc.id@,
    ensures
        store_wf(s.update(i, e2)),
{
    let s2 = s.update(i, e2);
    assert forall|k: int| 0 <= k < s2.len() implies entry_wf(#[trigger] s2[k]) by {
        if k != i {
            assert(s2[k] == s[k]);
        }
    }
}

proof fn lemma_push_preserves_wf(s: Seq<Entry>, e: Entry)
    requires
        store_wf(s),
        entry_wf(e),
        !contains_id(s, e.htlc.id@),
    ensures
        store_wf(s.push(e)),
{
    lemma_find_idx_props(s, e.htlc.id@);
    let s2 = s.push(e);
    assert forall|i: int, j: int| 0 <= i < j < s2.len() implies s2[i].htlc.id@ != s2[j].htlc.id@ by {
        assert(s2[i] == s[i]);
        if j < s.len() {
            assert(s2[j] == s[j]);
        } else {
            assert(s2[j] == e);
        }
    }
    assert forall|i: int| 0 <= i < s2.len() implies entry_wf(#[trigger] s2[i]) by {
        if i < s.len() {
            assert(s2[i] == s[i]);
        } else {
            assert(s2[i] == e);
        }
    }
}

/// Outcome of validating a creation request: the first violated precondition.
pub open spec fn creation_error(timelock: u64, amount: u64, now: u64) -> Option<HTLCError> {
    if timelock < now + 900 {
        Some(HTLCError::InvalidTimeLock)
    } else if amount == 0 {
        Some(HTLCError::FundsNotSent)
    } else {
        None
    }
}

/// What a freshly created record looks like: the given terms, an unset
/// secret, no reward, active status, and an open escrow backing exactly the
/// deposited principal.
pub open spec fn created_entry_matches(
    e: Entry,
    id: [u8; 32],
    dst_address: String,
    dst_chain: String,
    dst_asset: String,
    src_asset: String,
    sender: [u8; 32],
    src_receiver: [u8; 32],
    hashlock: Seq<u8>,
    token_contract: [u8; 32],
    timelock: u64,
    amount: u64,
) -> bool {
    &&& e.htlc.id == id
    &&& e.htlc.dst_address == dst_address
    &&& e.htlc.dst_chain == dst_chain
    &&& e.htlc.dst_asset == dst_asset
    &&& e.htlc.src_asset == src_asset
    &&& e.htlc.sender == sender
    &&& e.htlc.src_receiver == src_receiver
    &&& e.htlc.hashlock@ == hashlock
    &&& all_zero(e.htlc.secret@)
    &&& e.htlc.amount == amount
    &&& e.htlc.timelock == timelock
    &&& e.htlc.reward == 0
    &&& e.htlc.reward_timelock == 0
    &&& e.htlc.token_contract == token_contract
    &&& e.htlc.claimed is Active
    &&& (e.escrow matches Some(a) && a.balance == amount)
}

/// Transition of one entry under `add_lock`: binds the hashlock and a fresh
/// timelock when the caller is the sender, the record is active, the
/// hashlock is still unset, and the timelock clears the grace period.
pub open spec fn add_lock_outcome(
    e: Entry,
    caller: [u8; 32],
    id: [u8; 32],
    hashlock: [u8; 32],
    timelock: u64,
    now: u64,
) -> (Entry, Result<[u8; 32], HTLCError>) {
    if !(e.htlc.claimed is Active) {
        (e, Err(HTLCError::AlreadyClaimed))
    } else if caller@ != e.htlc.sender@ {
        (e, Err(HTLCError::UnauthorizedAccess))
    } else if !all_zero(e.htlc.hashlock@) {
        (e, Err(HTLCError::HashlockAlreadySet))
    } else if timelock < now + 900 {
        (e, Err(HTLCError::InvalidTimeLock))
    } else {
        (Entry { htlc: HTLC { hashlock, timelock, ..e.htlc }, ..e }, Ok(id))
    }
}

/// Transition of one entry under `add_lock_sig`: as `add_lock`, except that
/// authorization is a valid co-submitted signature check over the canonical
/// envelope rather than the sender calling directly.
pub open spec fn add_lock_sig_outcome(
    e: Entry,
    id: [u8; 32],
    hashlock: [u8; 32],
    timelock: u64,
    signature: [u8; 64],
    ix: SignatureInstruction,
    now: u64,
) -> (Entry, Result<[u8; 32], HTLCError>) {
    if !(e.htlc.claimed is Active) {
        (e, Err(HTLCError::AlreadyClaimed))
    } else if !all_zero(e.htlc.hashlock@) {
        (e, Err(HTLCError::HashlockAlreadySet))
    } else if timelock < now + 900 {
        (e, Err(HTLCError::InvalidTimeLock))
    } else if !sig_ix_valid(ix, e.htlc.sender@, id@, hashlock@, timelock, signature@) {
        (e, Err(HTLCError::SignatureVerificationFailed))
    } else {
        (Entry { htlc: HTLC { hashlock, timelock, ..e.htlc }, ..e }, Ok(id))
    }
}

/// Transition of one entry under `lock_reward`: posts a bonus once, deposits
/// it into the same escrow, and records its grace-window expiry, which must
/// lie strictly between the sampled time and the principal timelock.
pub open spec fn lock_reward_outcome(
    e: Entry,
    caller: [u8; 32],
    reward_timelock: u64,
    reward: u64,
    now: u64,
) -> (Entry, Result<bool, HTLCError>) {
    if !(e.htlc.claimed is Active) {
        (e, Err(HTLCError::AlreadyClaimed))
    } else if caller@ != e.htlc.sender@ {
        (e, Err(HTLCError::UnauthorizedAccess))
    } else if !(reward_timelock < e.htlc.timelock && reward_timelock > now) {
        (e, Err(HTLCError::InvalidRewardTimeLock))
    } else if e.htlc.reward != 0 {
        (e, Err(HTLCError::RewardAlreadyExists))
    } else {
        (
            Entry {
                htlc: HTLC { reward, reward_timelock, ..e.htlc },
                escrow: Some(EscrowAccount { balance: (e.htlc.amount + reward) as u64 }),
            },
            Ok(true),
        )
    }
}

/// The transfers a successful redeem issues: with no
/// reward the receiver is paid the principal; before the reward window
/// expires the receiver is paid and the sender gets the bonus back; after it
/// expires the receiver collects everything when redeeming in person, and
/// otherwise the redeeming solver earns the bonus.
pub open spec fn redeem_payouts(h: HTLC, caller: [u8; 32], now: u64) -> Seq<Payout> {
    if h.reward == 0 {
        seq![Payout { to: h.src_receiver, amount: h.amount }]
    } else if now < h.reward_timelock {
        seq![
            Payout { to: h.src_receiver, amount: h.amount },
            Payout { to: h.sender, amount: h.reward },
        ]
    } else if caller@ == h.src_receiver@ {
        seq![Payout { to: h.src_receiver, amount: (h.amount + h.reward) as u64 }]
    } else {
        seq![
            Payout { to: h.src_receiver, amount: h.amount },
            Payout { to: caller, amount: h.reward },
        ]
    }
}

/// Transition of one entry under `redeem`: on an active record whose set
/// hashlock equals the digest of `secret`, the record turns `Redeemed`,
/// stores the secret, pays out per `redeem_payouts`, and the drained escrow
/// is closed.
pub open spec fn redeem_outcome(e: Entry, caller: [u8; 32], secret: [u8; 32], now: u64) -> (
    Entry,
    Seq<Payout>,
    Result<(), HTLCError>,
) {
    if !(e.htlc.claimed is Active) {
        (e, Seq::empty(), Err(HTLCError::AlreadyClaimed))
    } else if all_zero(e.htlc.hashlock@) {
        (e, Seq::empty(), Err(HTLCError::HashlockNotSet))
    } else if sha256_of(secret@) != e.htlc.hashlock@ {
        (e, Seq::empty(), Err(HTLCError::HashlockNoMatch))
    } else {
        (
            Entry { htlc: HTLC { claimed: ClaimStatus::Redeemed, secret, ..e.htlc }, escrow: None },
            redeem_payouts(e.htlc, caller, now),
            Ok(()),
        )
    }
}

/// Transition of one entry under `refund`: strictly after the timelock on an
/// active record, the record turns `Refunded` and principal plus reward go
/// back to the sender, closing the drained escrow.
pub open spec fn refund_outcome(e: Entry, now: u64) -> (Entry, Seq<Payout>, Result<
    (),
    HTLCError,
>) {
    if !(e.htlc.claimed is Active) {
        (e, Seq::empty(), Err(HTLCError::AlreadyClaimed))
    } else if now <= e.htlc.timelock {
        (e, Seq::empty(), Err(HTLCError::NotPastTimeLock))
    } else {
        (
            Entry { htlc: HTLC { claimed: ClaimStatus::Refunded, ..e.htlc }, escrow: None },
            seq![Payout { to: e.htlc.sender, amount: (e.htlc.amount + e.htlc.reward) as u64 }],
            Ok(()),
        )
    }
}

/// The escrow after releasing `amount`: the balance shrinks, and once the
/// re-read balance is zero the account is closed rather than kept empty.
pub open spec fn escrow_after_release(e: Option<EscrowAccount>, amount: u64) -> Option<
    EscrowAccount,
> {
    match e {
        Some(a) => if a.balance == amount {
            None
        } else {
            Some(EscrowAccount { balance: (a.balance - amount) as u64 })
        },
        None => None,
    }
}

/// Releases `amount` from the escrow to `destination`, recording the payout.
/// The balance is re-read after the transfer and the account is closed when
/// it has been drained to zero.
fn transfer_htlc_out(
    escrow: Option<EscrowAccount>,
    destination: [u8; 32],
    amount: u64,
    payouts: &mut Vec<Payout>,
) -> (r: Option<EscrowAccount>)
    requires
        escrow matches Some(a) && a.balance >= amount,
    ensures
        r == escrow_after_release(escrow, amount),
        final(payouts)@ == old(payouts)@.push((Payout { to: destination, amount })),
{
    let b0: u64 = match &escrow {
        Some(a) => a.balance,
        None => 0,
    };
    let b1 = b0 - amount;
    payouts.push(Payout { to: destination, amount });
    if b1 == 0 {
        None
    } else {
        Some(EscrowAccount { balance: b1 })
    }
}

/// Releases the principal to `destination` and the reward to
/// `reward_destination` out of one escrow, recording both payouts, then
/// re-reads the balance and closes the account when it is drained to zero.
fn transfer_htlc_reward_out(
    escrow: Option<EscrowAccount>,
    destination: [u8; 32],
    reward_destination: [u8; 32],
    amount: u64,
    reward: u64,
    payouts: &mut Vec<Payout>,
) -> (r: Option<EscrowAccount>)
    requires
        escrow matches Some(a) && a.balance >= amount + reward,
    ensures
        r == escrow_after_release(escrow_after_release(escrow, amount), reward),
        final(payouts)@ == old(payouts)@ + seq![
            (Payout { to: destination, amount }),
            (Payout { to: reward_destination, amount: reward }),
        ],
{
    let b0: u64 = match &escrow {
        Some(a) => a.balance,
        None => 0,
    };
    let b1 = b0 - amount;
    let b2 = b1 - reward;
    payouts.push(Payout { to: destination, amount });
    payouts.push(Payout { to: reward_destination, amount: reward });
    proof {
        assert(final(payouts)@ =~= old(payouts)@ + seq![
            (Payout { to: destination, amount }),
            (Payout { to: reward_destination, amount: reward }),
        ]);
    }
    if b2 == 0 {
        None
    } else {
        Some(EscrowAccount { balance: b2 })
    }
}

/// The canonical per-swap state: one entry per id, each backed by its escrow
/// while active. The host keying of records by id is a sequence with unique
/// ids here; every operation samples the wall clock once as `now`.
pub struct HtlcStore {
    entries: Vec<Entry>,
}

impl View for HtlcStore {
    type V = Seq<Entry>;

    closed spec fn view(&self) -> Seq<Entry> {
        self.entries@
    }
}

impl HtlcStore {
    /// Store-level well-formedness, established at creation and preserved by
    /// every operation.
    pub open spec fn wf(&self) -> bool {
        store_wf(self@)
    }

    /// An empty store.
    pub fn new() -> (r: HtlcStore)
        ensures
            r@ == Seq::<Entry>::empty(),
            r.wf(),
    {
        HtlcStore { entries: Vec::new() }
    }

    /// Index of the entry holding `id`, if any.
    fn find_index(&self, id: &[u8; 32]) -> (r: Option<usize>)
        ensures
            match r {
                Some(i) => i as int == find_idx(self@, id@),
                None => find_idx(self@, id@) == -1,
            },
    {
        let n = self.entries.len();
        let mut i: usize = 0;
        while i < n
            invariant
                n == self@.len(),
                0 <= i <= n,
                forall|j: int| 0 <= j < i ==> self@[j].htlc.id@ != id@,
            decreases n - i,
        {
            if bytes32_eq(&self.entries[i].htlc.id, id) {
                proof {
                    lemma_find_idx_first(self@, id@, i as int);
                }
                return Some(i);
            }
            i += 1;
        }
        proof {
            lemma_find_idx_props(self@, id@);
        }
        None
    }

    /// Puts an entry back at the slot it was taken from.
    fn reinsert(&mut self, Ghost(s0): Ghost<Seq<Entry>>, i: usize, entry: Entry)
        requires
            old(self)@ == s0.remove(i as int),
            0 <= i < s0.len(),
        ensures
            final(self)@ == s0.update(i as int, entry),
            entry == s0[i as int] ==> final(self)@ == s0,
    {
        self.entries.insert(i, entry);
        proof {
            assert(self@ =~= s0.update(i as int, entry));
            if entry == s0[i as int] {
                assert(s0.update(i as int, entry) =~= s0);
            }
        }
    }

    /// Binds `hashlock` and a fresh `timelock` onto the active record at
    /// `id`, exactly once: the caller must be the record's sender, the
    /// hashlock must still be unset, and the timelock must clear the grace
    /// period past `now`.
    pub fn add_lock(
        &mut self,
        caller: &[u8; 32],
        id: &[u8; 32],
        hashlock: &[u8; 32],
        timelock: u64,
        now: u64,
    ) -> (r: Result<[u8; 32], HTLCError>)
        requires
            old(self).wf(),
            contains_id(old(self)@, id@),
        ensures
            final(self).wf(),
            contains_id(final(self)@, id@),
            ({
                let (e2, res) = add_lock_outcome(
                    entry_for(old(self)@, id@),
                    *caller,
                    *id,
                    *hashlock,
                    timelock,
                    now,
                );
                &&& r == res
                &&& final(self)@ == old(self)@.update(find_idx(old(self)@, id@), e2)
            }),
            r is Err ==> final(self)@ == old(self)@,
    {
        let ghost s0 = old(self)@;
        proof {
            lemma_find_idx_props(s0, id@);
        }
        let i = self.find_index(id).unwrap();
        let mut entry = self.entries.remove(i);
        let ghost e0 = entry;
        if entry.htlc.claimed != ClaimStatus::Active {
            self.reinsert(Ghost(s0), i, entry);
            return Err(HTLCError::AlreadyClaimed);
        }
        if !bytes32_eq(caller, &entry.htlc.sender) {
            self.reinsert(Ghost(s0), i, entry);
            return Err(HTLCError::UnauthorizedAccess);
        }
        if !is_zero32(&entry.htlc.hashlock) {
            self.reinsert(Ghost(s0), i, entry);
            return Err(HTLCError::HashlockAlreadySet);
        }
        if now > u64::MAX - 900 || timelock < now + 900 {
            self.reinsert(Ghost(s0), i, entry);
            return Err(HTLCError::InvalidTimeLock);
        }
        entry.htlc.hashlock = *hashlock;
        entry.htlc.timelock = timelock;
        proof {
            lemma_update_preserves_wf(s0, i as int, entry);
            lemma_find_idx_update(s0, id@, entry);
        }
        self.reinsert(Ghost(s0), i, entry);
        Ok(*id)
    }

    /// Creates a new record with the hashlock left unset, depositing `amount`
    /// into a fresh escrow atomically with creation; the hash condition can
    /// be decided later through `add_lock` or `add_lock_sig`. Requires a
    /// timelock at least the grace period past `now` and a positive amount.
    pub fn commit(
        &mut self,
        id: &[u8; 32],
        _hop_chains: Vec<String>,
        _hop_assets: Vec<String>,
        _hop_address: Vec<String>,
        dst_chain: String,
        dst_asset: String,
        dst_address: String,
        src_asset: String,
        src_receiver: &[u8; 32],
        timelock: u64,
        amount: u64,
        sender: &[u8; 32],
        token_contract: &[u8; 32],
        now: u64,
    ) -> (r: Result<[u8; 32], HTLCError>)
        requires
            old(self).wf(),
            !contains_id(old(self)@, id@),
        ensures
            final(self).wf(),
            r is Ok <==> creation_error(timelock, amount, now) is None,
            (r matches Err(e) ==> creation_error(timelock, amount, now) == Some(e) && final(self)@ == old(self)@),
            (r matches Ok(rid) ==> rid == *id && final(self)@ == old(self)@.push(
                final(self)@.last(),
            ) && created_entry_matches(
                final(self)@.last(),
                *id,
                dst_address,
                dst_chain,
                dst_asset,
                src_asset,
                *sender,
                *src_receiver,
                Seq::new(32, |i: int| 0u8),
                *token_contract,
                timelock,
                amount,
            ) && contains_id(final(self)@, id@) && entry_for(final(self)@, id@) == final(self)@.last()),
    {
        if now > u64::MAX - 900 || timelock < now + 900 {
            return Err(HTLCError::InvalidTimeLock);
        }
        if amount == 0 {
            return Err(HTLCError::FundsNotSent);
        }
        let htlc = HTLC {
            id: *id,
            dst_address,
            dst_chain,
            dst_asset,
            src_asset,
            sender: *sender,
            src_receiver: *src_receiver,
            hashlock: [0u8; 32],
            secret: [0u8; 32],
            amount,
            timelock,
            reward: 0,
            reward_timelock: 0,
            token_contract: *token_contract,
            claimed: ClaimStatus::Active,
        };
        let entry = Entry { htlc, escrow: Some(EscrowAccount { balance: amount }) };
        proof {
            assert(entry.htlc.hashlock@ =~= Seq::new(32, |i: int| 0u8));
            lemma_push_preserves_wf(self@, entry);
        }
        self.entries.push(entry);
        proof {
            lemma_find_idx_first(self@, id@, self@.len() - 1);
        }
        Ok(*id)
    }

    /// Creates a new record exactly as `commit` does, but with the hashlock
    /// bound at creation. Same validations, same atomic deposit.
    pub fn lock(
        &mut self,
        id: &[u8; 32],
        hashlock: &[u8; 32],
        timelock: u64,
        dst_chain: String,
        dst_address: String,
        dst_asset: String,
        src_asset: String,
        src_receiver: &[u8; 32],
        amount: u64,
        sender: &[u8; 32],
        token_contract: &[u8; 32],
        now: u64,
    ) -> (r: Result<[u8; 32], HTLCError>)
        requires
            old(self).wf(),
            !contains_id(old(self)@, id@),
        ensures
            final(self).wf(),
            r is Ok <==> creation_error(timelock, amount, now) is None,
            (r matches Err(e) ==> creation_error(timelock, amount, now) == Some(e) && final(self)@ == old(self)@),
            (r matches Ok(rid) ==> rid == *id && final(self)@ == old(self)@.push(
                final(self)@.last(),
            ) && created_entry_matches(
                final(self)@.last(),
                *id,
                dst_address,
                dst_chain,
                dst_asset,
                src_asset,
                *sender,
                *src_receiver,
                hashlock@,
                *token_contract,
                timelock,
                amount,
            ) && contains_id(final(self)@, id@) && entry_for(final(self)@, id@) == final(self)@.last()),
    {
        if now > u64::MAX - 900 || timelock < now + 900 {
            return Err(HTLCError::InvalidTimeLock);
        }
        if amount == 0 {
            return Err(HTLCError::FundsNotSent);
        }
        let htlc = HTLC {
            id: *id,
            dst_address,
            dst_chain,
            dst_asset,
            src_asset,
            sender: *sender,
            src_receiver: *src_receiver,
            hashlock: *hashlock,
            secret: [0u8; 32],
            amount,
            timelock,
            reward: 0,
            reward_timelock: 0,
            token_contract: *token_contract,
            claimed: ClaimStatus::Active,
        };
        let entry = Entry { htlc, escrow: Some(EscrowAccount { balance: amount }) };
        proof {
            lemma_push_preserves_wf(self@, entry);
        }
        self.entries.push(entry);
        proof {
            lemma_find_idx_first(self@, id@, self@.len() - 1);
        }
        Ok(*id)
    }

    /// Binds `hashlock` and a fresh `timelock` like `add_lock`, but
    /// authorized by a signature from the record's sender over the canonical
    /// envelope for `(id, hashlock, timelock)`, proven by the co-submitted,
    /// already-executed signature-check instruction; any mismatch anywhere
    /// fails uniformly with `SignatureVerificationFailed`.
    pub fn add_lock_sig(
        &mut self,
        id: &[u8; 32],
        hashlock: &[u8; 32],
        timelock: u64,
        signature: &[u8; 64],
        sig_ix: &SignatureInstruction,
        now: u64,
    ) -> (r: Result<[u8; 32], HTLCError>)
        requires
            old(self).wf(),
            contains_id(old(self)@, id@),
        ensures
            final(self).wf(),
            contains_id(final(self)@, id@),
            ({
                let (e2, res) = add_lock_sig_outcome(
                    entry_for(old(self)@, id@),
                    *id,
                    *hashlock,
                    timelock,
                    *signature,
                    *sig_ix,
                    now,
                );
                &&& r == res
                &&& final(self)@ == old(self)@.update(find_idx(old(self)@, id@), e2)
            }),
            r is Err ==> final(self)@ == old(self)@,
    {
        let ghost s0 = old(self)@;
        proof {
            lemma_find_idx_props(s0, id@);
        }
        let i = self.find_index(id).unwrap();
        let mut entry = self.entries.remove(i);
        if entry.htlc.claimed != ClaimStatus::Active {
            self.reinsert(Ghost(s0), i, entry);
            return Err(HTLCError::AlreadyClaimed);
        }
        if !is_zero32(&entry.htlc.hashlock) {
            self.reinsert(Ghost(s0), i, entry);
            return Err(HTLCError::HashlockAlreadySet);
        }
        if now > u64::MAX - 900 || timelock < now + 900 {
            self.reinsert(Ghost(s0), i, entry);
            return Err(HTLCError::InvalidTimeLock);
        }
        if !verify_sig_instruction(sig_ix, &entry.htlc.sender, id, hashlock, timelock, signature) {
            self.reinsert(Ghost(s0), i, entry);
            return Err(HTLCError::SignatureVerificationFailed);
        }
        entry.htlc.hashlock = *hashlock;
        entry.htlc.timelock = timelock;
        proof {
            lemma_update_preserves_wf(s0, i as int, entry);
            lemma_find_idx_update(s0, id@, entry);
        }
        self.reinsert(Ghost(s0), i, entry);
        Ok(*id)
    }

    /// Posts the one-time solver bonus on the active record at `id`,
    /// depositing `reward` into the record's escrow. The caller must be the
    /// sender, no reward may exist yet, and `reward_timelock` must lie
    /// strictly between `now` and the record's timelock.
    pub fn lock_reward(
        &mut self,
        caller: &[u8; 32],
        id: &[u8; 32],
        reward_timelock: u64,
        reward: u64,
        now: u64,
    ) -> (r: Result<bool, HTLCError>)
        requires
            old(self).wf(),
            contains_id(old(self)@, id@),
            entry_for(old(self)@, id@).htlc.amount + reward <= u64::MAX,
        ensures
            final(self).wf(),
            contains_id(final(self)@, id@),
            ({
                let (e2, res) = lock_reward_outcome(
                    entry_for(old(self)@, id@),
                    *caller,
                    reward_timelock,
                    reward,
                    now,
                );
                &&& r == res
                &&& final(self)@ == old(self)@.update(find_idx(old(self)@, id@), e2)
            }),
            r is Err ==> final(self)@ == old(self)@,
    {
        let ghost s0 = old(self)@;
        proof {
            lemma_find_idx_props(s0, id@);
        }
        let i = self.find_index(id).unwrap();
        let mut entry = self.entries.remove(i);
        if entry.htlc.claimed != ClaimStatus::Active {
            self.reinsert(Ghost(s0), i, entry);
            return Err(HTLCError::AlreadyClaimed);
        }
        if !bytes32_eq(caller, &entry.htlc.sender) {
            self.reinsert(Ghost(s0), i, entry);
            return Err(HTLCError::UnauthorizedAccess);
        }
        if !(reward_timelock < entry.htlc.timelock && reward_timelock > now) {
            self.reinsert(Ghost(s0), i, entry);
            return Err(HTLCError::InvalidRewardTimeLock);
        }
        if entry.htlc.reward != 0 {
            self.reinsert(Ghost(s0), i, entry);
            return Err(HTLCError::RewardAlreadyExists);
        }
        entry.htlc.reward = reward;
        entry.htlc.reward_timelock = reward_timelock;
        let deposited = entry.htlc.amount + reward;
        entry.escrow = Some(EscrowAccount { balance: deposited });
        proof {
            lemma_update_preserves_wf(s0, i as int, entry);
            lemma_find_idx_update(s0, id@, entry);
        }
        self.reinsert(Ghost(s0), i, entry);
        Ok(true)
    }

    /// Settles the active record at `id` as redeemed when the SHA-256 digest
    /// of `secret` equals its set hashlock. Stores the secret, pays out per
    /// the reward branching, and closes the drained escrow. Returns the
    /// transfers issued.
    pub fn redeem(&mut self, caller: &[u8; 32], id: &[u8; 32], secret: &[u8; 32], now: u64) -> (r:
        Result<Vec<Payout>, HTLCError>)
        requires
            old(self).wf(),
            contains_id(old(self)@, id@),
        ensures
            final(self).wf(),
            contains_id(final(self)@, id@),
            ({
                let (e2, pays, res) = redeem_outcome(
                    entry_for(old(self)@, id@),
                    *caller,
                    *secret,
                    now,
                );
                &&& final(self)@ == old(self)@.update(find_idx(old(self)@, id@), e2)
                &&& (r matches Ok(p) ==> res is Ok && p@ == pays)
                &&& (r matches Err(err) ==> res == Err::<(), HTLCError>(err))
            }),
            r is Err ==> final(self)@ == old(self)@,
            r is Ok ==> entry_for(final(self)@, id@).htlc.claimed is Redeemed && entry_for(
                final(self)@,
                id@,
            ).escrow is None,
    {
        let ghost s0 = old(self)@;
        proof {
            lemma_find_idx_props(s0, id@);
        }
        let i = self.find_index(id).unwrap();
        let mut entry = self.entries.remove(i);
        proof {
            assert(entry_wf(s0[i as int]));
        }
        if entry.htlc.claimed != ClaimStatus::Active {
            self.reinsert(Ghost(s0), i, entry);
            return Err(HTLCError::AlreadyClaimed);
        }
        if is_zero32(&entry.htlc.hashlock) {
            self.reinsert(Ghost(s0), i, entry);
            return Err(HTLCError::HashlockNotSet);
        }
        let digest = sha256(secret.as_slice());
        if !bytes32_eq(&digest, &entry.htlc.hashlock) {
            self.reinsert(Ghost(s0), i, entry);
            return Err(HTLCError::HashlockNoMatch);
        }
        entry.htlc.claimed = ClaimStatus::Redeemed;
        entry.htlc.secret = *secret;
        let mut payouts: Vec<Payout> = Vec::new();
        if entry.htlc.reward != 0 {
            if now < entry.htlc.reward_timelock {
                // redeemed within the sender's grace window: the bonus goes
                // back to the sender
                entry.escrow = transfer_htlc_reward_out(
                    entry.escrow,
                    entry.htlc.src_receiver,
                    entry.htlc.sender,
                    entry.htlc.amount,
                    entry.htlc.reward,
                    &mut payouts,
                );
            } else if bytes32_eq(caller, &entry.htlc.src_receiver) {
                // the receiver redeems in person and collects the bonus too
                entry.escrow = transfer_htlc_out(
                    entry.escrow,
                    entry.htlc.src_receiver,
                    entry.htlc.amount + entry.htlc.reward,
                    &mut payouts,
                );
            } else {
                // a solver finished the swap and earns the bonus
                entry.escrow = transfer_htlc_reward_out(
                    entry.escrow,
                    entry.htlc.src_receiver,
                    *caller,
                    entry.htlc.amount,
                    entry.htlc.reward,
                    &mut payouts,
                );
            }
        } else {
            entry.escrow = transfer_htlc_out(
                entry.escrow,
                entry.htlc.src_receiver,
                entry.htlc.amount,
                &mut payouts,
            );
        }
        proof {
            let (e2, pays, res) = redeem_outcome(s0[i as int], *caller, *secret, now);
            assert(entry == e2);
            assert(payouts@ =~= pays);
            lemma_update_preserves_wf(s0, i as int, entry);
            lemma_find_idx_update(s0, id@, entry);
        }
        self.reinsert(Ghost(s0), i, entry);
        Ok(payouts)
    }

    /// Settles the active record at `id` as refunded, strictly after its
    /// timelock: principal plus any posted reward go back to the sender and
    /// the drained escrow is closed. Returns the transfers issued.
    pub fn refund(&mut self, id: &[u8; 32], now: u64) -> (r: Result<Vec<Payout>, HTLCError>)
        requires
            old(self).wf(),
            contains_id(old(self)@, id@),
        ensures
            final(self).wf(),
            contains_id(final(self)@, id@),
            ({
                let (e2, pays, res) = refund_outcome(entry_for(old(self)@, id@), now);
                &&& final(self)@ == old(self)@.update(find_idx(old(self)@, id@), e2)
                &&& (r matches Ok(p) ==> res is Ok && p@ == pays)
                &&& (r matches Err(err) ==> res == Err::<(), HTLCError>(err))
            }),
            r is Err ==> final(self)@ == old(self)@,
            r is Ok ==> entry_for(final(self)@, id@).htlc.claimed is Refunded && entry_for(
                final(self)@,
                id@,
            ).escrow is None,
    {
        let ghost s0 = old(self)@;
        proof {
            lemma_find_idx_props(s0, id@);
        }
        let i = self.find_index(id).unwrap();
        let mut entry = self.entries.remove(i);
        proof {
            assert(entry_wf(s0[i as int]));
        }
        if entry.htlc.claimed != ClaimStatus::Active {
            self.reinsert(Ghost(s0), i, entry);
            return Err(HTLCError::AlreadyClaimed);
        }
        if now <= entry.htlc.timelock {
            self.reinsert(Ghost(s0), i, entry);
            return Err(HTLCError::NotPastTimeLock);
        }
        entry.htlc.claimed = ClaimStatus::Refunded;
        let mut payouts: Vec<Payout> = Vec::new();
        entry.escrow = transfer_htlc_out(
            entry.escrow,
            entry.htlc.sender,
            entry.htlc.amount + entry.htlc.reward,
            &mut payouts,
        );
        proof {
            let (e2, pays, res) = refund_outcome(s0[i as int], now);
            assert(entry == e2);
            assert(payouts@ =~= pays);
            lemma_update_preserves_wf(s0, i as int, entry);
            lemma_find_idx_update(s0, id@, entry);
        }
        self.reinsert(Ghost(s0), i, entry);
        Ok(payouts)
    }

    /// Read-only snapshot of the record at `id`, if any; no mutation.
    #[allow(non_snake_case)]
    pub fn getDetails(&self, id: &[u8; 32]) -> (r: Option<&HTLC>)
        ensures
            match r {
                Some(h) => contains_id(self@, id@) && *h == entry_for(self@, id@).htlc,
                None => !contains_id(self@, id@),
            },
    {
        proof {
            lemma_find_idx_props(self@, id@);
        }
        match self.find_index(id) {
            Some(i) => Some(&self.entries[i].htlc),
            None => None,
        }
    }
}

} // verus!
