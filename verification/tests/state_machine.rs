//! The entity-level methods, driven directly: the cancellation predicate,
//! the dispute transition function and the fee computation.

use p2p::errors::P2pError;
use p2p::escrow::{Escrow, EscrowDisputedBy, EscrowState};
use p2p::global_config::GlobalConfig;

const SELLER: u64 = 11;
const BUYER: u64 = 22;
const STRANGER: u64 = 33;

fn open_escrow(state: EscrowState) -> Escrow {
    Escrow {
        id: 0,
        seller: SELLER,
        buyer: BUYER,
        mint: 7,
        amount: 1000,
        fee: 10,
        state,
        disputed_by: EscrowDisputedBy::Nobody,
        bond_pool: 0,
        bump: 0,
    }
}

fn config(fee_bps: u16) -> GlobalConfig {
    GlobalConfig {
        authority: 9000,
        escrow_count: 0,
        fee_bps,
        fiat_deadline_secs: 600,
        dispute_deadline_secs: 300,
        dispute_fee_escrow: 50,
        available_lamports: 0,
        bump: 0,
    }
}

#[test]
fn can_cancel_only_open_and_only_late() {
    let e = open_escrow(EscrowState::Open(1_000));
    assert!(!e.can_cancel(600, 1_600));
    assert!(e.can_cancel(600, 1_601));
    let paid = open_escrow(EscrowState::FiatPaid(1_000));
    assert!(!paid.can_cancel(600, i64::MAX));
}

#[test]
fn dispute_from_fiat_paid_records_the_party() {
    let mut e = open_escrow(EscrowState::FiatPaid(2_000));
    assert_eq!(e.dispute(300, SELLER, 2_301), Ok(()));
    assert!(matches!(e.state, EscrowState::Dispute(2_301)));
    assert!(matches!(e.disputed_by, EscrowDisputedBy::Seller));

    let mut f = open_escrow(EscrowState::FiatPaid(2_000));
    assert_eq!(f.dispute(300, BUYER, 2_301), Ok(()));
    assert!(matches!(f.disputed_by, EscrowDisputedBy::Buyer));

    let mut g = open_escrow(EscrowState::FiatPaid(2_000));
    assert_eq!(g.dispute(300, STRANGER, 2_301), Err(P2pError::Unauthorized));
    assert_eq!(g.dispute(300, SELLER, 2_300), Err(P2pError::TooEarly));
}

#[test]
fn dispute_escalation_flips_to_the_counterpart_once() {
    let mut e = open_escrow(EscrowState::FiatPaid(2_000));
    e.dispute(300, SELLER, 2_301).unwrap();
    assert_eq!(
        e.dispute(300, SELLER, 9_999),
        Err(P2pError::EscrowAlreadyInDispute)
    );
    assert_eq!(e.dispute(300, BUYER, 2_601), Err(P2pError::TooEarly));
    assert_eq!(e.dispute(300, BUYER, 2_602), Ok(()));
    assert!(matches!(e.state, EscrowState::ReDispute(2_602)));
    assert!(matches!(e.disputed_by, EscrowDisputedBy::Buyer));
    // The cap: nobody can dispute a ReDispute escrow, ever.
    assert_eq!(
        e.dispute(300, SELLER, i64::MAX),
        Err(P2pError::EscrowAlreadyInDispute)
    );
}

#[test]
fn dispute_rejects_open_escrows() {
    let mut e = open_escrow(EscrowState::Open(1_000));
    assert_eq!(
        e.dispute(300, SELLER, i64::MAX),
        Err(P2pError::EscrowIsNotTaken)
    );
    assert!(matches!(e.state, EscrowState::Open(1_000)));
}

#[test]
fn calculate_fee_floors_and_checks_overflow() {
    assert_eq!(config(250).calculate_fee(10_000), Ok(250));
    assert_eq!(config(100).calculate_fee(99), Ok(0));
    assert_eq!(config(0).calculate_fee(u64::MAX), Ok(0));
    // At the full 10000 bps the fee is the whole principal.
    assert_eq!(
        config(10_000).calculate_fee(1_844_674_407_370_955),
        Ok(1_844_674_407_370_955)
    );
    assert_eq!(
        config(10_000).calculate_fee(u64::MAX / 2),
        Err(P2pError::ArithmeticOverflow)
    );
}
