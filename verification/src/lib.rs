//! A hashed-timelock escrow (HTLC) state machine for cross-chain atomic
//! swaps: records are created with a deposit, optionally bound to a hashlock
//! (directly or through a delegated signature envelope) and to a solver
//! reward, and settled exactly once by redeem or refund, with the backing
//! escrow drained and closed on settlement.

pub mod encoding;
pub mod errors;
pub mod hashing;
pub mod laws;
pub mod machine;
pub mod sigcheck;
pub mod state;
