use vstd::prelude::*;

verus! {

/// Typed failures of the escrow state machine. Every precondition violation
/// is one of these; retrying identical inputs against unchanged state fails
/// with the same error again.
#[derive(Clone, Copy, Debug, PartialEq, Eq, Structural)]
pub enum HTLCError {
    /// A creation or hashlock-binding timelock lies less than the minimum
    /// grace period past the sampled wall-clock time.
    InvalidTimeLock,
    /// A reward timelock does not lie strictly between the sampled time and
    /// the record's principal timelock.
    InvalidRewardTimeLock,
    /// A refund was attempted at or before the record's timelock.
    NotPastTimeLock,
    /// A redeem was attempted while the record's hashlock is still unset.
    HashlockNotSet,
    /// The digest of the supplied secret does not equal the hashlock.
    HashlockNoMatch,
    /// A hashlock-binding was attempted on a record whose hashlock is set.
    HashlockAlreadySet,
    /// The record has already been settled by redeem or refund.
    AlreadyClaimed,
    /// A creation was attempted with a zero principal amount.
    FundsNotSent,
    /// The caller is not the party the operation requires.
    UnauthorizedAccess,
    /// A token account does not belong to the record's sender.
    NotSender,
    /// A token account does not belong to the record's receiver.
    NotReceiver,
    /// A token account is not denominated in the record's token.
    WrongToken,
    /// The delegated-signature envelope or its co-submitted signature-check
    /// payload does not match, byte for byte, what the record requires.
    SignatureVerificationFailed,
    /// A reward was already posted on this record.
    RewardAlreadyExists,
}

} // verus!
