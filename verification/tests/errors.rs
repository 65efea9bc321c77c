//! Each rejection, on an input that provokes exactly it.

use p2p::errors::P2pError;
use p2p::protocol::P2p;

const AUTHORITY: u64 = 9000;
const SELLER: u64 = 11;
const BUYER: u64 = 22;
const STRANGER: u64 = 33;
const MINT: u64 = 7;

#[test]
fn create_rejects_zero_amount() {
    let mut p = P2p::initialize(AUTHORITY, 100, 600, 300, 50);
    assert_eq!(
        p.create_escrow(SELLER, BUYER, MINT, 0, 1_000),
        Err(P2pError::InvalidAmount)
    );
}

#[test]
fn create_rejects_fee_product_overflow() {
    let mut p = P2p::initialize(AUTHORITY, 10_000, 600, 300, 50);
    assert_eq!(
        p.create_escrow(SELLER, BUYER, MINT, u64::MAX / 2, 1_000),
        Err(P2pError::ArithmeticOverflow)
    );
}

#[test]
fn create_rejects_deposit_overflow() {
    // fee_bps = 1 on u64::MAX: the product fits, but principal + fee does
    // not.
    let mut p = P2p::initialize(AUTHORITY, 1, 600, 300, 50);
    assert_eq!(
        p.create_escrow(SELLER, BUYER, MINT, u64::MAX, 1_000),
        Err(P2pError::ArithmeticOverflow)
    );
}

#[test]
fn mark_paid_rejects_non_buyer() {
    let mut p = P2p::initialize(AUTHORITY, 100, 600, 300, 50);
    p.create_escrow(SELLER, BUYER, MINT, 1000, 1_000).unwrap();
    assert_eq!(
        p.mark_escrow_as_paid(STRANGER, 0, 1_100),
        Err(P2pError::Unauthorized)
    );
    assert_eq!(
        p.mark_escrow_as_paid(SELLER, 0, 1_100),
        Err(P2pError::Unauthorized)
    );
}

#[test]
fn mark_paid_rejects_wrong_state() {
    let mut p = P2p::initialize(AUTHORITY, 100, 600, 300, 50);
    p.create_escrow(SELLER, BUYER, MINT, 1000, 1_000).unwrap();
    p.mark_escrow_as_paid(BUYER, 0, 1_100).unwrap();
    assert_eq!(
        p.mark_escrow_as_paid(BUYER, 0, 1_200),
        Err(P2pError::InvalidState)
    );
}

#[test]
fn cancel_rejects_non_seller_and_wrong_state() {
    let mut p = P2p::initialize(AUTHORITY, 100, 600, 300, 50);
    p.create_escrow(SELLER, BUYER, MINT, 1000, 1_000).unwrap();
    assert_eq!(
        p.cancel_escrow(BUYER, 0, 99_999),
        Err(P2pError::Unauthorized)
    );
    p.mark_escrow_as_paid(BUYER, 0, 1_100).unwrap();
    // Once the fiat leg is declared paid the seller cannot cancel any more.
    assert_eq!(
        p.cancel_escrow(SELLER, 0, 99_999),
        Err(P2pError::InvalidState)
    );
}

#[test]
fn release_rejects_wrong_state_and_bad_signature() {
    let mut p = P2p::initialize(AUTHORITY, 100, 600, 300, 50);
    p.create_escrow(SELLER, BUYER, MINT, 1000, 1_000).unwrap();
    assert_eq!(
        p.release_tokens_in_escrow(0, true),
        Err(P2pError::InvalidState)
    );
    p.mark_escrow_as_paid(BUYER, 0, 1_100).unwrap();
    assert_eq!(
        p.release_tokens_in_escrow(0, false),
        Err(P2pError::SignatureVerificationFailed)
    );
    // A failed check released nothing.
    assert!(p.get_escrow(0).is_some());
    assert_eq!(p.get_vault_token_account(MINT).unwrap().amount, 1010);
}

#[test]
fn take_rejects_taken_escrow() {
    let mut p = P2p::initialize(AUTHORITY, 100, 600, 300, 50);
    // An open-marketplace escrow starts with no buyer.
    p.create_escrow(SELLER, 0, MINT, 1000, 1_000).unwrap();
    // Until taken, nobody can mark it paid.
    assert_eq!(
        p.mark_escrow_as_paid(BUYER, 0, 1_050),
        Err(P2pError::Unauthorized)
    );
    let taken = p.take_escrow(BUYER, 0).unwrap();
    assert_eq!(taken.buyer, BUYER);
    assert_eq!(taken.seller, SELLER);
    assert_eq!(taken.amount, 1000);
    assert_eq!(
        p.take_escrow(STRANGER, 0),
        Err(P2pError::EscrowAlreadyTaken)
    );
    // The taker is now the buyer in every later transition.
    assert!(p.mark_escrow_as_paid(BUYER, 0, 1_100).is_ok());
}

#[test]
fn withdraw_rejects_non_authority_and_empty_ledgers() {
    let mut p = P2p::initialize(AUTHORITY, 100, 600, 300, 50);
    assert_eq!(p.withdraw_spl(STRANGER, MINT), Err(P2pError::Unauthorized));
    // No vault exists for the asset yet.
    assert_eq!(
        p.withdraw_spl(AUTHORITY, MINT),
        Err(P2pError::NothingToWithdraw)
    );
    // A vault exists but nothing has accrued.
    p.create_escrow(SELLER, BUYER, MINT, 1000, 1_000).unwrap();
    assert_eq!(
        p.withdraw_spl(AUTHORITY, MINT),
        Err(P2pError::NothingToWithdraw)
    );
}

#[test]
fn update_config_rejects_non_authority() {
    let mut p = P2p::initialize(AUTHORITY, 100, 600, 300, 50);
    assert_eq!(
        p.update_global_config(STRANGER, None, Some(200), None, None, None),
        Err(P2pError::Unauthorized)
    );
    assert_eq!(p.config.fee_bps, 100);
}
