//! Dispute escalation, its cap, the bonds, and authority-driven resolution.

use p2p::errors::P2pError;
use p2p::escrow::{EscrowDisputedBy, EscrowState};
use p2p::protocol::P2p;

const AUTHORITY: u64 = 9000;
const SELLER: u64 = 11;
const BUYER: u64 = 22;
const STRANGER: u64 = 33;
const MINT: u64 = 7;
const BOND: u64 = 50;

/// Drives a fresh escrow of 1000 at 100 bps into `ReDispute`: seller
/// disputes, buyer escalates. Two bonds are posted on the way.
fn escalated() -> P2p {
    let mut p = P2p::initialize(AUTHORITY, 100, 600, 300, BOND);
    p.create_escrow(SELLER, BUYER, MINT, 1000, 1_000).unwrap();
    p.mark_escrow_as_paid(BUYER, 0, 2_000).unwrap();
    p.create_dispute(SELLER, 0, 2_301).unwrap();
    p.create_dispute(BUYER, 0, 2_602).unwrap();
    p
}

#[test]
fn dispute_posts_bond_and_records_disputant() {
    let mut p = P2p::initialize(AUTHORITY, 100, 600, 300, BOND);
    p.create_escrow(SELLER, BUYER, MINT, 1000, 1_000).unwrap();
    p.mark_escrow_as_paid(BUYER, 0, 2_000).unwrap();
    let ev = p.create_dispute(SELLER, 0, 2_301).unwrap();
    assert_eq!(ev.id, 0);
    assert_eq!(ev.disputant, SELLER);
    assert_eq!(ev.disputed_at, 2_301);
    let e = p.get_escrow(0).unwrap();
    assert!(matches!(e.state, EscrowState::Dispute(2_301)));
    assert!(matches!(e.disputed_by, EscrowDisputedBy::Seller));
    assert_eq!(e.bond_pool, BOND);
    assert_eq!(p.dispute_vault_lamports, BOND);
}

#[test]
fn only_the_counterpart_may_escalate() {
    let mut p = P2p::initialize(AUTHORITY, 100, 600, 300, BOND);
    p.create_escrow(SELLER, BUYER, MINT, 1000, 1_000).unwrap();
    p.mark_escrow_as_paid(BUYER, 0, 2_000).unwrap();
    p.create_dispute(SELLER, 0, 2_301).unwrap();
    // The same party cannot escalate its own dispute, however late.
    assert_eq!(
        p.create_dispute(SELLER, 0, 9_999),
        Err(P2pError::EscrowAlreadyInDispute)
    );
    // A stranger cannot either.
    assert_eq!(
        p.create_dispute(STRANGER, 0, 9_999),
        Err(P2pError::EscrowAlreadyInDispute)
    );
    // The counterpart can, and the round flips to them.
    let ev = p.create_dispute(BUYER, 0, 9_999).unwrap();
    assert_eq!(ev.disputant, BUYER);
    let e = p.get_escrow(0).unwrap();
    assert!(matches!(e.state, EscrowState::ReDispute(9_999)));
    assert!(matches!(e.disputed_by, EscrowDisputedBy::Buyer));
    assert_eq!(e.bond_pool, 2 * BOND);
    assert_eq!(p.dispute_vault_lamports, 2 * BOND);
}

#[test]
fn redispute_cannot_be_disputed_by_anyone_at_any_time() {
    let mut p = escalated();
    for caller in [SELLER, BUYER, STRANGER, AUTHORITY] {
        for now in [2_603, 100_000, i64::MAX] {
            assert_eq!(
                p.create_dispute(caller, 0, now),
                Err(P2pError::EscrowAlreadyInDispute)
            );
        }
    }
}

#[test]
fn stranger_cannot_open_a_dispute() {
    let mut p = P2p::initialize(AUTHORITY, 100, 600, 300, BOND);
    p.create_escrow(SELLER, BUYER, MINT, 1000, 1_000).unwrap();
    p.mark_escrow_as_paid(BUYER, 0, 2_000).unwrap();
    assert_eq!(
        p.create_dispute(STRANGER, 0, 2_301),
        Err(P2pError::Unauthorized)
    );
}

#[test]
fn open_escrow_cannot_be_disputed() {
    let mut p = P2p::initialize(AUTHORITY, 100, 600, 300, BOND);
    p.create_escrow(SELLER, BUYER, MINT, 1000, 1_000).unwrap();
    assert_eq!(
        p.create_dispute(SELLER, 0, 99_999),
        Err(P2pError::EscrowIsNotTaken)
    );
}

#[test]
fn resolve_for_buyer_pays_amount_less_fee_and_credits_ledger() {
    let mut p = escalated();
    let (ev, payout) = p.resolve_dispute(AUTHORITY, 0, BUYER, 3_000).unwrap();
    assert_eq!(ev.id, 0);
    assert_eq!(ev.winner, BUYER);
    assert_eq!(ev.resolved_at, 3_000);
    assert_eq!(payout, 990);
    assert!(p.get_escrow(0).is_none());
    assert_eq!(p.get_mint_vault(MINT).unwrap().available_amount, 10);
    // Both bonds are swept to the operator-withdrawable surplus; the
    // lamports stay in the dispute vault until withdrawn.
    assert_eq!(p.config.available_lamports, 2 * BOND);
    assert_eq!(p.dispute_vault_lamports, 2 * BOND);
}

#[test]
fn resolve_for_seller_refunds_the_whole_deposit() {
    let mut p = escalated();
    let (ev, payout) = p.resolve_dispute(AUTHORITY, 0, SELLER, 3_000).unwrap();
    assert_eq!(ev.winner, SELLER);
    assert_eq!(payout, 1_010);
    assert!(p.get_escrow(0).is_none());
    // No fee is kept when the seller wins.
    assert_eq!(p.get_mint_vault(MINT).unwrap().available_amount, 0);
    assert_eq!(p.get_vault_token_account(MINT).unwrap().amount, 0);
    assert_eq!(p.config.available_lamports, 2 * BOND);
}

#[test]
fn resolve_rejects_non_authority_and_non_party_winners() {
    let mut p = escalated();
    assert_eq!(
        p.resolve_dispute(SELLER, 0, SELLER, 3_000),
        Err(P2pError::Unauthorized)
    );
    assert_eq!(
        p.resolve_dispute(AUTHORITY, 0, STRANGER, 3_000),
        Err(P2pError::Unauthorized)
    );
}

#[test]
fn resolve_needs_full_escalation() {
    let mut p = P2p::initialize(AUTHORITY, 100, 600, 300, BOND);
    p.create_escrow(SELLER, BUYER, MINT, 1000, 1_000).unwrap();
    p.mark_escrow_as_paid(BUYER, 0, 2_000).unwrap();
    // FiatPaid is not resolvable.
    assert_eq!(
        p.resolve_dispute(AUTHORITY, 0, BUYER, 3_000),
        Err(P2pError::InvalidState)
    );
    p.create_dispute(SELLER, 0, 2_301).unwrap();
    // A single dispute round is not either: the counterpart still has its
    // chance to contest.
    assert_eq!(
        p.resolve_dispute(AUTHORITY, 0, BUYER, 3_000),
        Err(P2pError::InvalidState)
    );
}
