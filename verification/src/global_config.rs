//! Process-wide parameters and the monotonically increasing escrow counter.

use vstd::arithmetic::div_mod::{lemma_div_is_ordered, lemma_div_multiples_vanish};
use vstd::arithmetic::mul::lemma_mul_inequality;
use vstd::prelude::*;

use crate::errors::P2pError;

verus! {

/// The denominator of a basis-points fee rate: 10000 bps is the whole.
pub const BPS_DENOMINATOR: u64 = 10000;

/// The fee owed on a principal of `amount` at a rate of `fee_bps` basis
/// points: `floor(amount * fee_bps / 10000)`.
pub open spec fn spec_fee(amount: u64, fee_bps: u16) -> int {
    amount * fee_bps / (BPS_DENOMINATOR as int)
}

/// A fee at a rate of at most 10000 bps never exceeds the principal.
pub proof fn lemma_fee_le_amount(amount: u64, fee_bps: u16)
    requires
        fee_bps <= BPS_DENOMINATOR,
    ensures
        0 <= spec_fee(amount, fee_bps) <= amount,
{
    lemma_mul_inequality(fee_bps as int, BPS_DENOMINATOR as int, amount as int);
    lemma_div_is_ordered(
        amount * fee_bps,
        (BPS_DENOMINATOR as int) * (amount as int),
        BPS_DENOMINATOR as int,
    );
    lemma_div_multiples_vanish(amount as int, BPS_DENOMINATOR as int);
    assert(amount * fee_bps == (fee_bps as int) * (amount as int))
        by (nonlinear_arith);
}

/// Process-wide configuration, owned by the operator authority, plus the
/// global escrow counter. A single record of this type exists per deployment.
#[derive(Clone, Copy, Debug, PartialEq, Eq, Structural)]
pub struct GlobalConfig {
    /// The identity permitted to update this record, resolve disputes and
    /// withdraw fees.
    pub authority: u64,
    /// The id the next created escrow will carry; incremented on every
    /// create and never reused.
    pub escrow_count: u64,
    /// The basis-points fee taken on every trade; at most 10000.
    pub fee_bps: u16,
    /// How long a seller must wait, after creating an escrow that was never
    /// marked paid, before cancelling it unilaterally.
    pub fiat_deadline_secs: i64,
    /// The cooldown before a dispute may be opened or escalated.
    pub dispute_deadline_secs: i64,
    /// The bond, in the chain's native unit, a disputant must post.
    pub dispute_fee_escrow: u64,
    /// Bond surplus from resolved disputes, withdrawable by the operator.
    pub available_lamports: u64,
    /// Address-derivation nonce of the hosting shell; not consulted here.
    pub bump: u8,
}

impl GlobalConfig {
    /// The fee owed on `amount` at the configured rate, or
    /// `ArithmeticOverflow` when the 64-bit intermediate product would
    /// overflow. The fee is never clamped or wrapped.
    pub fn calculate_fee(&self, amount: u64) -> (r: Result<u64, P2pError>)
        ensures
            match r {
                Ok(fee) => amount * self.fee_bps <= u64::MAX && fee == spec_fee(amount, self.fee_bps),
                Err(e) => amount * self.fee_bps > u64::MAX && e == P2pError::ArithmeticOverflow,
            },
    {
        proof {
            assert((amount as int) * (self.fee_bps as int) <= (u64::MAX as int) * (u16::MAX as int))
                by (nonlinear_arith)
                requires
                    amount <= u64::MAX,
                    self.fee_bps <= u16::MAX,
            ;
        }
        let product: u128 = (amount as u128) * (self.fee_bps as u128);
        if product > u64::MAX as u128 {
            Err(P2pError::ArithmeticOverflow)
        } else {
            let fee: u128 = product / (BPS_DENOMINATOR as u128);
            assert(fee <= u64::MAX);
            Ok(fee as u64)
        }
    }

    /// Advances the escrow counter past a freshly assigned id.
    pub fn increment_escrow_count(&mut self)
        requires
            old(self).escrow_count < u64::MAX,
        ensures
            *final(self) == (GlobalConfig { escrow_count: (old(self).escrow_count + 1) as u64, ..*old(self) }),
    {
        self.escrow_count = self.escrow_count + 1;
    }

    /// Credits forfeited dispute bonds to the operator-withdrawable surplus.
    pub fn add_available_lamports(&mut self, amount: u64)
        requires
            old(self).available_lamports + amount <= u64::MAX,
        ensures
            *final(self) == (GlobalConfig {
                available_lamports: (old(self).available_lamports + amount) as u64,
                ..*old(self)
            }),
    {
        self.available_lamports = self.available_lamports + amount;
    }
}

} // verus!
