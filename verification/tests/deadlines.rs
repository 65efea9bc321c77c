//! The deadline boundaries: exactly at the deadline a gated transition is
//! rejected; one second past it, it goes through.

use p2p::errors::P2pError;
use p2p::protocol::P2p;

const AUTHORITY: u64 = 9000;
const SELLER: u64 = 11;
const BUYER: u64 = 22;
const MINT: u64 = 7;

#[test]
fn cancel_exactly_at_deadline_is_rejected() {
    let mut p = P2p::initialize(AUTHORITY, 100, 600, 300, 50);
    p.create_escrow(SELLER, BUYER, MINT, 1000, 1_000).unwrap();
    assert_eq!(p.cancel_escrow(SELLER, 0, 1_600), Err(P2pError::TooEarly));
}

#[test]
fn cancel_one_second_past_deadline_succeeds() {
    let mut p = P2p::initialize(AUTHORITY, 100, 600, 300, 50);
    p.create_escrow(SELLER, BUYER, MINT, 1000, 1_000).unwrap();
    assert!(p.cancel_escrow(SELLER, 0, 1_601).is_ok());
}

#[test]
fn dispute_exactly_at_cooldown_is_rejected() {
    let mut p = P2p::initialize(AUTHORITY, 100, 600, 300, 50);
    p.create_escrow(SELLER, BUYER, MINT, 1000, 1_000).unwrap();
    p.mark_escrow_as_paid(BUYER, 0, 2_000).unwrap();
    assert_eq!(p.create_dispute(SELLER, 0, 2_300), Err(P2pError::TooEarly));
}

#[test]
fn dispute_one_second_past_cooldown_succeeds() {
    let mut p = P2p::initialize(AUTHORITY, 100, 600, 300, 50);
    p.create_escrow(SELLER, BUYER, MINT, 1000, 1_000).unwrap();
    p.mark_escrow_as_paid(BUYER, 0, 2_000).unwrap();
    assert!(p.create_dispute(SELLER, 0, 2_301).is_ok());
}

#[test]
fn escalation_cooldown_has_the_same_boundary() {
    let mut p = P2p::initialize(AUTHORITY, 100, 600, 300, 50);
    p.create_escrow(SELLER, BUYER, MINT, 1000, 1_000).unwrap();
    p.mark_escrow_as_paid(BUYER, 0, 2_000).unwrap();
    p.create_dispute(SELLER, 0, 2_301).unwrap();
    // The escalation clock restarts at the dispute's own timestamp.
    assert_eq!(p.create_dispute(BUYER, 0, 2_601), Err(P2pError::TooEarly));
    assert!(p.create_dispute(BUYER, 0, 2_602).is_ok());
}
