//! Lifecycle events.
//!
//! Each successful transition returns exactly one of these records; the
//! hosting shell emits it, once, after the new state is durable, for external
//! observers such as indexers and notification systems.

use vstd::prelude::*;

verus! {

/// A new escrow was created and its deposit locked in the vault.
#[derive(Clone, Copy, Debug, PartialEq, Eq, Structural)]
pub struct EscrowCreated {
    pub id: u64,
    pub seller: u64,
    pub mint: u64,
    pub amount: u64,
}

/// An open-marketplace escrow was claimed by a buyer.
#[derive(Clone, Copy, Debug, PartialEq, Eq, Structural)]
pub struct EscrowTaken {
    pub id: u64,
    pub seller: u64,
    pub buyer: u64,
    pub mint: u64,
    pub amount: u64,
}

/// The buyer declared the fiat leg of the trade paid.
#[derive(Clone, Copy, Debug, PartialEq, Eq, Structural)]
pub struct MarkEscrowAsPaid {
    pub id: u64,
    pub seller: u64,
    pub buyer: u64,
    pub marked_at: i64,
}

/// The locked tokens were released to the buyer and the escrow destroyed.
#[derive(Clone, Copy, Debug, PartialEq, Eq, Structural)]
pub struct TokensReleased {
    pub id: u64,
    pub seller: u64,
    pub buyer: u64,
    pub mint: u64,
    pub amount: u64,
}

/// The seller cancelled a timed-out escrow and was refunded in full.
#[derive(Clone, Copy, Debug, PartialEq, Eq, Structural)]
pub struct EscrowCancelled {
    pub id: u64,
    pub seller: u64,
    pub mint: u64,
    pub returned_amount: u64,
    pub canceled_at: i64,
}

/// A party opened or escalated a dispute and posted its bond.
#[derive(Clone, Copy, Debug, PartialEq, Eq, Structural)]
pub struct DisputeCreated {
    pub id: u64,
    pub disputant: u64,
    pub disputed_at: i64,
}

/// The operator authority resolved an escalated dispute.
#[derive(Clone, Copy, Debug, PartialEq, Eq, Structural)]
pub struct DisputeResolved {
    pub id: u64,
    pub winner: u64,
    pub resolved_at: i64,
}

} // verus!
