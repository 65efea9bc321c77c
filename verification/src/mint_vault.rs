//! Per-asset custodial records: the fee ledger and the token account.

use vstd::prelude::*;

verus! {

/// The fee ledger of one asset: operator revenue accrued in that asset and
/// not yet withdrawn. One record exists per traded asset, created lazily on
/// the first escrow over it and shared by all escrows of that asset.
#[derive(Clone, Copy, Debug, PartialEq, Eq, Structural)]
pub struct MintVault {
    /// The asset this ledger accounts for.
    pub mint: u64,
    /// Accumulated fee revenue, withdrawable by the operator; only grows on
    /// release or buyer-favouring resolution, and drops to zero on
    /// withdrawal.
    pub available_amount: u64,
    /// Guards the lazy-create path against re-initialization; always true
    /// for a stored record.
    pub is_initialized: bool,
    /// Address-derivation nonce of the hosting shell; not consulted here.
    pub bump: u8,
}

/// The custodial token account of one asset: every token the service holds
/// in that asset, whoever it is owed to. Created together with the asset's
/// `MintVault`.
#[derive(Clone, Copy, Debug, PartialEq, Eq, Structural)]
pub struct VaultTokenAccount {
    /// The asset held.
    pub mint: u64,
    /// The balance: all live deposits, plus the withdrawable fee ledger,
    /// plus the surplus below.
    pub amount: u64,
    /// Tokens that remain in custody but are attributable to no live escrow
    /// and to no ledger: the buyer-side fee that a release or a
    /// buyer-favouring resolution keeps back without crediting it anywhere
    /// withdrawable.
    pub surplus: u64,
}

impl MintVault {
    /// Credits freshly earned fee revenue to the withdrawable ledger.
    pub fn add_available_amount(&mut self, amount: u64)
        requires
            old(self).available_amount + amount <= u64::MAX,
        ensures
            *final(self) == (MintVault {
                available_amount: (old(self).available_amount + amount) as u64,
                ..*old(self)
            }),
    {
        self.available_amount = self.available_amount + amount;
    }
}

} // verus!
