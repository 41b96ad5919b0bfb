use vstd::prelude::*;

verus! {

/// Settlement status of a record. `Active` until exactly one terminal
/// transition to `Refunded` or `Redeemed`; terminal states never change.
#[derive(Clone, Copy, Debug, PartialEq, Eq, Structural)]
pub enum ClaimStatus {
    Active,
    Refunded,
    Redeemed,
}

/// One escrow record, keyed by its 32-byte swap id.
///
/// The `dst_*` and `src_asset` fields are routing metadata carried for
/// observability only; no operation reads them.
pub struct HTLC {
    /// 32-byte opaque swap identifier, globally unique, immutable.
    pub id: [u8; 32],
    pub dst_address: String,
    pub dst_chain: String,
    pub dst_asset: String,
    pub src_asset: String,
    /// Depositor: the account that funded the escrow.
    pub sender: [u8; 32],
    /// Intended redeemer of the principal.
    pub src_receiver: [u8; 32],
    /// SHA-256 digest the redeeming secret must match; all-zero means unset.
    pub hashlock: [u8; 32],
    /// Revealed preimage; all-zero until a successful redeem stores it.
    pub secret: [u8; 32],
    /// Principal, strictly positive at creation.
    pub amount: u64,
    /// Absolute expiry (unix seconds) after which the principal is refundable.
    pub timelock: u64,
    /// Solver bonus; 0 means unset.
    pub reward: u64,
    /// Absolute expiry of the bonus grace window; 0 until a reward is posted.
    pub reward_timelock: u64,
    /// Identifier of the custodied asset type.
    pub token_contract: [u8; 32],
    pub claimed: ClaimStatus,
}

/// The custodied token balance backing one record. It exists while the
/// escrow is open; a release that drains it to zero closes it, after which
/// the record holds no escrow at all rather than a zero-balance one.
pub struct EscrowAccount {
    pub balance: u64,
}

/// A record together with its backing escrow (if still open).
pub struct Entry {
    pub htlc: HTLC,
    pub escrow: Option<EscrowAccount>,
}

/// One transfer issued against an escrow: destination account and amount.
#[derive(Clone, Copy, Debug, PartialEq, Eq)]
pub struct Payout {
    pub to: [u8; 32],
    pub amount: u64,
}

/// True of a byte sequence that is entirely zero, the "unset" value of
/// hashlocks and secrets.
pub open spec fn all_zero(s: Seq<u8>) -> bool {
    forall|i: int| 0 <= i < s.len() ==> s[i] == 0u8
}

/// Record-level well-formedness: positive principal, and principal plus
/// reward representable in the 64-bit balance that custody can hold.
pub open spec fn htlc_wf(h: HTLC) -> bool {
    &&& h.amount > 0
    &&& h.amount + h.reward <= u64::MAX
}

/// Entry-level well-formedness: the escrow is open exactly while the record
/// is active, and an open escrow backs the full principal plus reward.
pub open spec fn entry_wf(e: Entry) -> bool {
    &&& htlc_wf(e.htlc)
    &&& (e.htlc.claimed is Active <==> e.escrow is Some)
    &&& (match e.escrow {
        Some(a) => a.balance == e.htlc.amount + e.htlc.reward,
        None => true,
    })
}

} // verus!
