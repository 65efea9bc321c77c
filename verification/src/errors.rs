//! The error taxonomy of the escrow service.
//!
//! Every error is terminal for the requested transition: either every state
//! mutation and fund movement of a transition commits, or none does.

use vstd::prelude::*;

verus! {

/// Why a requested transition was rejected.
#[derive(Clone, Copy, Debug, PartialEq, Eq, Structural)]
pub enum P2pError {
    /// An escrow cannot be created over zero tokens.
    InvalidAmount,
    /// The escrow is in the wrong lifecycle stage for the requested action.
    InvalidState,
    /// The caller is not the identity this action is reserved to.
    Unauthorized,
    /// A deadline-gated action was requested before its deadline elapsed.
    TooEarly,
    /// The escrow already has a buyer, so it cannot be taken.
    EscrowAlreadyTaken,
    /// The escrow has no buyer yet, so it cannot be disputed.
    EscrowIsNotTaken,
    /// The dispute was already escalated as far as the protocol permits,
    /// or the same party tried to escalate its own dispute.
    EscrowAlreadyInDispute,
    /// The release authorization presented was forged or malformed.
    SignatureVerificationFailed,
    /// A fee or amount computation exceeded the 64-bit range; the transition
    /// aborts rather than wrap or clamp.
    ArithmeticOverflow,
    /// The fee ledger of the addressed vault holds nothing to withdraw.
    NothingToWithdraw,
    /// No live escrow record carries the requested id.
    EscrowNotFound,
}

} // verus!
