//! The happy paths of the escrow lifecycle, and the counter/registry rules.

use p2p::errors::P2pError;
use p2p::escrow::EscrowState;
use p2p::protocol::P2p;

const AUTHORITY: u64 = 9000;
const SELLER: u64 = 11;
const BUYER: u64 = 22;
const MINT: u64 = 7;

#[test]
fn create_mark_release_pays_buyer_and_credits_fee() {
    // fee_bps = 100 on amount 1000: fee 10, deposit 1010, payout 990.
    let mut p = P2p::initialize(AUTHORITY, 100, 600, 300, 50);
    let (created, deposit) = p.create_escrow(SELLER, BUYER, MINT, 1000, 1_000).unwrap();
    assert_eq!(created.id, 0);
    assert_eq!(created.seller, SELLER);
    assert_eq!(created.mint, MINT);
    assert_eq!(created.amount, 1000);
    assert_eq!(deposit, 1010);
    assert_eq!(p.get_vault_token_account(MINT).unwrap().amount, 1010);

    let marked = p.mark_escrow_as_paid(BUYER, 0, 1_100).unwrap();
    assert_eq!(marked.id, 0);
    assert_eq!(marked.buyer, BUYER);
    assert_eq!(marked.marked_at, 1_100);
    assert!(matches!(
        p.get_escrow(0).unwrap().state,
        EscrowState::FiatPaid(1_100)
    ));

    let (released, payout) = p.release_tokens_in_escrow(0, true).unwrap();
    assert_eq!(released.id, 0);
    assert_eq!(released.seller, SELLER);
    assert_eq!(released.buyer, BUYER);
    assert_eq!(released.amount, 1000);
    assert_eq!(payout, 990);

    // The record is destroyed in the same step as the payout.
    assert!(p.get_escrow(0).is_none());
    // The fee ledger is credited with exactly the fee.
    assert_eq!(p.get_mint_vault(MINT).unwrap().available_amount, 10);
    // 1010 in, 990 out: 20 stay in custody, 10 of them withdrawable.
    let ata = p.get_vault_token_account(MINT).unwrap();
    assert_eq!(ata.amount, 20);
    assert_eq!(ata.surplus, 10);
}

#[test]
fn cancel_after_deadline_refunds_deposit_in_full() {
    let mut p = P2p::initialize(AUTHORITY, 100, 600, 300, 50);
    p.create_escrow(SELLER, BUYER, MINT, 1000, 1_000).unwrap();
    let cancelled = p.cancel_escrow(SELLER, 0, 1_601).unwrap();
    assert_eq!(cancelled.id, 0);
    assert_eq!(cancelled.seller, SELLER);
    assert_eq!(cancelled.returned_amount, 1010);
    assert_eq!(cancelled.canceled_at, 1_601);
    assert!(p.get_escrow(0).is_none());
    // No fee is kept on cancellation: everything leaves custody.
    assert_eq!(p.get_mint_vault(MINT).unwrap().available_amount, 0);
    assert_eq!(p.get_vault_token_account(MINT).unwrap().amount, 0);
    assert_eq!(p.get_vault_token_account(MINT).unwrap().surplus, 0);
}

#[test]
fn dispute_before_cooldown_is_too_early() {
    let mut p = P2p::initialize(AUTHORITY, 100, 600, 300, 50);
    p.create_escrow(SELLER, BUYER, MINT, 1000, 1_000).unwrap();
    p.mark_escrow_as_paid(BUYER, 0, 2_000).unwrap();
    assert_eq!(p.create_dispute(SELLER, 0, 2_100), Err(P2pError::TooEarly));
    // The rejection left the escrow untouched.
    assert!(matches!(
        p.get_escrow(0).unwrap().state,
        EscrowState::FiatPaid(2_000)
    ));
}

#[test]
fn ids_come_from_the_counter_and_are_never_reused() {
    let mut p = P2p::initialize(AUTHORITY, 100, 600, 300, 50);
    assert_eq!(p.config.escrow_count, 0);
    let (a, _) = p.create_escrow(SELLER, BUYER, MINT, 1000, 1_000).unwrap();
    let (b, _) = p.create_escrow(SELLER, BUYER, MINT, 2000, 1_000).unwrap();
    assert_eq!(a.id, 0);
    assert_eq!(b.id, 1);
    assert_eq!(p.config.escrow_count, 2);
    // Destroying a record never frees its id.
    p.cancel_escrow(SELLER, 0, 9_999).unwrap();
    let (c, _) = p.create_escrow(SELLER, BUYER, MINT, 3000, 1_000).unwrap();
    assert_eq!(c.id, 2);
    assert_eq!(p.config.escrow_count, 3);
}

#[test]
fn no_transition_succeeds_after_terminal_release() {
    let mut p = P2p::initialize(AUTHORITY, 100, 600, 300, 50);
    p.create_escrow(SELLER, BUYER, MINT, 1000, 1_000).unwrap();
    p.mark_escrow_as_paid(BUYER, 0, 1_100).unwrap();
    p.release_tokens_in_escrow(0, true).unwrap();
    assert_eq!(
        p.mark_escrow_as_paid(BUYER, 0, 1_200),
        Err(P2pError::EscrowNotFound)
    );
    assert_eq!(
        p.cancel_escrow(SELLER, 0, 99_999),
        Err(P2pError::EscrowNotFound)
    );
    assert_eq!(
        p.release_tokens_in_escrow(0, true),
        Err(P2pError::EscrowNotFound)
    );
    assert_eq!(
        p.create_dispute(SELLER, 0, 99_999),
        Err(P2pError::EscrowNotFound)
    );
    assert_eq!(
        p.resolve_dispute(AUTHORITY, 0, BUYER, 99_999),
        Err(P2pError::EscrowNotFound)
    );
    assert_eq!(p.take_escrow(BUYER, 0), Err(P2pError::EscrowNotFound));
}

#[test]
fn fee_arithmetic_at_250_bps() {
    // fee_bps = 250, amount = 10_000: fee 250, payout 9_750, ledger 250.
    let mut p = P2p::initialize(AUTHORITY, 250, 600, 300, 50);
    let (_, deposit) = p.create_escrow(SELLER, BUYER, MINT, 10_000, 1_000).unwrap();
    assert_eq!(deposit, 10_250);
    assert_eq!(p.get_escrow(0).unwrap().fee, 250);
    p.mark_escrow_as_paid(BUYER, 0, 1_100).unwrap();
    let (_, payout) = p.release_tokens_in_escrow(0, true).unwrap();
    assert_eq!(payout, 9_750);
    assert_eq!(p.get_mint_vault(MINT).unwrap().available_amount, 250);
}

#[test]
fn fee_rounds_down() {
    // 100 bps of 99 is 0.99, floored to 0.
    let mut p = P2p::initialize(AUTHORITY, 100, 600, 300, 50);
    let (_, deposit) = p.create_escrow(SELLER, BUYER, MINT, 99, 1_000).unwrap();
    assert_eq!(deposit, 99);
    assert_eq!(p.get_escrow(0).unwrap().fee, 0);
}
