//! The escrow service as one injectable state object: the global
//! configuration, the registry of live escrows, the per-asset custodial
//! records and the dispute-bond vault, together with every lifecycle
//! transition.
//!
//! The transitions are pure: the shell authenticates the caller, reads the
//! clock and checks signatures, then calls a transition with plain values;
//! on success it executes the returned fund movement and emits the returned
//! event, exactly once. All amounts a transition reports are computed here,
//! from the stored records, never from caller-supplied values.

use vstd::pervasive::{unreached, VecAdditionalExecFns};
use vstd::prelude::*;

use crate::errors::P2pError;
use crate::escrow::{dispute_outcome, past_deadline, Escrow, EscrowDisputedBy, EscrowState, UNSET_IDENTITY};
use crate::events;
use crate::global_config::{lemma_fee_le_amount, spec_fee, GlobalConfig, BPS_DENOMINATOR};
use crate::mint_vault::{MintVault, VaultTokenAccount};
use crate::sums::{
    lemma_sum_by_element_bound, lemma_sum_by_nonneg, lemma_sum_by_push, lemma_sum_by_remove,
    lemma_sum_by_update, lemma_sum_by_zero, sum_by,
};

verus! {

/// The locked deposit an escrow accounts for in its mint's custody: the
/// principal plus the fee, both fixed at creation.
pub open spec fn locked_of(mint: u64) -> spec_fn(Escrow) -> int {
    |e: Escrow| if e.mint == mint { e.amount + e.fee } else { 0 }
}

/// The dispute bonds an escrow accounts for in the bond vault.
pub open spec fn bond_of() -> spec_fn(Escrow) -> int {
    |e: Escrow| e.bond_pool as int
}

/// The whole escrow service. The fields are plain data; obtain a value
/// through [`P2p::initialize`] and mutate it only through the transition
/// methods, which preserve [`P2p::wf`].
pub struct P2p {
    /// Process-wide parameters and the escrow counter.
    pub config: GlobalConfig,
    /// Every live escrow; a record is pushed on create and removed on any
    /// terminal transition.
    pub escrows: Vec<Escrow>,
    /// One fee ledger per traded asset, created lazily.
    pub vaults: Vec<MintVault>,
    /// The custodial token account of each traded asset, aligned index by
    /// index with `vaults`.
    pub vault_atas: Vec<VaultTokenAccount>,
    /// The balance of the dispute-bond vault, in the chain's native unit.
    pub dispute_vault_lamports: u64,
}

impl P2p {
    /// Whether some live escrow carries `id`.
    pub open spec fn has_live(self, id: u64) -> bool {
        exists|i: int| 0 <= i < self.escrows@.len() && self.escrows@[i].id == id
    }

    /// The index of the live escrow carrying `id`.
    pub open spec fn live_index(self, id: u64) -> int {
        choose|i: int| 0 <= i < self.escrows@.len() && self.escrows@[i].id == id
    }

    /// The live escrow carrying `id`.
    pub open spec fn live_escrow(self, id: u64) -> Escrow {
        self.escrows@[self.live_index(id)]
    }

    /// Whether the asset `mint` has custodial records yet.
    pub open spec fn has_vault(self, mint: u64) -> bool {
        exists|i: int| 0 <= i < self.vaults@.len() && self.vaults@[i].mint == mint
    }

    /// The shared index of `mint`'s fee ledger and token account.
    pub open spec fn vault_index(self, mint: u64) -> int {
        choose|i: int| 0 <= i < self.vaults@.len() && self.vaults@[i].mint == mint
    }

    /// The fee ledger of `mint`.
    pub open spec fn spec_vault(self, mint: u64) -> MintVault {
        self.vaults@[self.vault_index(mint)]
    }

    /// The custodial token account of `mint`.
    pub open spec fn spec_ata(self, mint: u64) -> VaultTokenAccount {
        self.vault_atas@[self.vault_index(mint)]
    }

    /// The deposits locked for live escrows of `mint`, summed.
    pub open spec fn locked_for_mint(self, mint: u64) -> int {
        sum_by(self.escrows@, locked_of(mint))
    }

    /// Every dispute bond posted against a live escrow, summed.
    pub open spec fn bonds_total(self) -> int {
        sum_by(self.escrows@, bond_of())
    }

    /// No two live escrows share an id.
    pub open spec fn ids_unique(self) -> bool {
        forall|i: int, j: int|
            0 <= i < j < self.escrows@.len()
                ==> (#[trigger] self.escrows@[i].id) != (#[trigger] self.escrows@[j].id)
    }

    /// The local well-formedness of one live escrow record.
    pub open spec fn escrow_ok(self, e: Escrow) -> bool {
        &&& e.id < self.config.escrow_count
        &&& e.seller != UNSET_IDENTITY
        &&& e.amount > 0
        &&& e.fee <= e.amount
        &&& e.amount + e.fee <= u64::MAX
        &&& self.has_vault(e.mint)
        &&& (e.state matches EscrowState::Open(_) || e.state matches EscrowState::FiatPaid(_))
            ==> e.bond_pool == 0
    }

    /// Every live escrow record is well formed.
    pub open spec fn escrows_ok(self) -> bool {
        forall|i: int| 0 <= i < self.escrows@.len() ==> self.escrow_ok(#[trigger] self.escrows@[i])
    }

    /// Fee ledgers and token accounts pair up, one aligned pair per asset.
    pub open spec fn vaults_aligned(self) -> bool {
        &&& self.vaults@.len() == self.vault_atas@.len()
        &&& forall|i: int|
            0 <= i < self.vaults@.len()
                ==> (#[trigger] self.vaults@[i]).is_initialized
                    && self.vault_atas@[i].mint == self.vaults@[i].mint
        &&& forall|i: int, j: int|
            0 <= i < j < self.vaults@.len()
                ==> (#[trigger] self.vaults@[i].mint) != (#[trigger] self.vaults@[j].mint)
    }

    /// Conservation of tokens, per asset: the custodial balance is exactly
    /// the deposits of the live escrows, plus the withdrawable fee ledger,
    /// plus the recorded surplus. No transition creates or loses custody
    /// tokens.
    pub open spec fn tokens_conserved(self) -> bool {
        forall|i: int|
            0 <= i < self.vault_atas@.len()
                ==> (#[trigger] self.vault_atas@[i]).amount == self.locked_for_mint(
                    self.vault_atas@[i].mint,
                ) + self.vaults@[i].available_amount + self.vault_atas@[i].surplus
    }

    /// Conservation of dispute bonds: the bond vault holds exactly the
    /// bonds posted against live escrows plus the operator-withdrawable
    /// surplus swept from resolved ones.
    pub open spec fn lamports_conserved(self) -> bool {
        self.dispute_vault_lamports == self.bonds_total() + self.config.available_lamports
    }

    /// The invariant of the whole service; established by
    /// [`P2p::initialize`] and preserved by every transition.
    pub open spec fn wf(self) -> bool {
        &&& self.config.fee_bps <= BPS_DENOMINATOR
        &&& self.ids_unique()
        &&& self.escrows_ok()
        &&& self.vaults_aligned()
        &&& self.tokens_conserved()
        &&& self.lamports_conserved()
    }

    /// The record `create_escrow` would append: a fresh `Open` escrow under
    /// the next id, its fee fixed from the rate currently in force.
    pub open spec fn created_escrow(
        self,
        creator: u64,
        buyer: u64,
        mint: u64,
        amount: u64,
        now: i64,
    ) -> Escrow {
        Escrow {
            id: self.config.escrow_count,
            seller: creator,
            buyer,
            mint,
            amount,
            fee: spec_fee(amount, self.config.fee_bps) as u64,
            state: EscrowState::Open(now),
            disputed_by: EscrowDisputedBy::Nobody,
            bond_pool: 0,
            bump: 0,
        }
    }

    /// The inputs on which `create_escrow` aborts with `ArithmeticOverflow`:
    /// the fee product, the deposit, the escrow counter or the custodial
    /// balance would leave the 64-bit range.
    pub open spec fn create_overflow(self, mint: u64, amount: u64) -> bool {
        ||| amount * self.config.fee_bps > u64::MAX
        ||| amount + spec_fee(amount, self.config.fee_bps) > u64::MAX
        ||| self.config.escrow_count == u64::MAX
        ||| (self.has_vault(mint) && self.spec_ata(mint).amount + amount + spec_fee(
            amount,
            self.config.fee_bps,
        ) > u64::MAX)
    }

    /// Whether `other` is the very same service state.
    pub open spec fn same_state(self, other: P2p) -> bool {
        &&& self.config == other.config
        &&& self.escrows@ == other.escrows@
        &&& self.vaults@ == other.vaults@
        &&& self.vault_atas@ == other.vault_atas@
        &&& self.dispute_vault_lamports == other.dispute_vault_lamports
    }

    /// Finds the registry index of the live escrow carrying `id`.
    fn find_escrow_index(&self, id: u64) -> (r: Option<usize>)
        requires
            self.wf(),
        ensures
            match r {
                Some(i) => self.has_live(id) && self.live_index(id) == i as int,
                None => !self.has_live(id),
            },
    {
        let n = self.escrows.len();
        let mut i: usize = 0;
        while i < n
            invariant
                self.wf(),
                n == self.escrows@.len(),
                i <= n,
                forall|k: int| 0 <= k < i ==> (#[trigger] self.escrows@[k].id) != id,
            decreases n - i,
        {
            if self.escrows[i].id == id {
                proof {
                    assert(self.has_live(id));
                    let j = self.live_index(id);
                    assert(0 <= j < self.escrows@.len() && self.escrows@[j].id == id);
                    if j < i as int {
                        assert(self.escrows@[j].id != self.escrows@[i as int].id);
                    }
                    if (i as int) < j {
                        assert(self.escrows@[i as int].id != self.escrows@[j].id);
                    }
                }
                return Some(i);
            }
            i = i + 1;
        }
        None
    }

    /// Finds the shared index of `mint`'s fee ledger and token account.
    fn find_vault_index(&self, mint: u64) -> (r: Option<usize>)
        requires
            self.wf(),
        ensures
            match r {
                Some(i) => self.has_vault(mint) && self.vault_index(mint) == i as int,
                None => !self.has_vault(mint),
            },
    {
        let n = self.vaults.len();
        let mut i: usize = 0;
        while i < n
            invariant
                self.wf(),
                n == self.vaults@.len(),
                i <= n,
                forall|k: int| 0 <= k < i ==> (#[trigger] self.vaults@[k].mint) != mint,
            decreases n - i,
        {
            if self.vaults[i].mint == mint {
                proof {
                    assert(self.has_vault(mint));
                    let j = self.vault_index(mint);
                    assert(0 <= j < self.vaults@.len() && self.vaults@[j].mint == mint);
                    if j < i as int {
                        assert(self.vaults@[j].mint != self.vaults@[i as int].mint);
                    }
                    if (i as int) < j {
                        assert(self.vaults@[i as int].mint != self.vaults@[j].mint);
                    }
                }
                return Some(i);
            }
            i = i + 1;
        }
        None
    }

    /// Sets up the service: the configuration singleton with the given
    /// parameters, a zeroed escrow counter, and no escrows, vaults or bonds
    /// yet.
    pub fn initialize(
        authority: u64,
        fee_bps: u16,
        fiat_deadline_secs: i64,
        dispute_deadline_secs: i64,
        dispute_fee_escrow: u64,
    ) -> (r: P2p)
        requires
            fee_bps <= BPS_DENOMINATOR,
        ensures
            r.wf(),
            r.config == (GlobalConfig {
                authority,
                escrow_count: 0,
                fee_bps,
                fiat_deadline_secs,
                dispute_deadline_secs,
                dispute_fee_escrow,
                available_lamports: 0,
                bump: 0,
            }),
            r.escrows@ == Seq::<Escrow>::empty(),
            r.vaults@ == Seq::<MintVault>::empty(),
            r.vault_atas@ == Seq::<VaultTokenAccount>::empty(),
            r.dispute_vault_lamports == 0,
    {
        let r = P2p {
            config: GlobalConfig {
                authority,
                escrow_count: 0,
                fee_bps,
                fiat_deadline_secs,
                dispute_deadline_secs,
                dispute_fee_escrow,
                available_lamports: 0,
                bump: 0,
            },
            escrows: Vec::new(),
            vaults: Vec::new(),
            vault_atas: Vec::new(),
            dispute_vault_lamports: 0,
        };
        proof {
            assert(r.escrows@ =~= Seq::<Escrow>::empty());
            assert(r.bonds_total() == 0);
        }
        r
    }

    /// Creates an escrow: locks the seller's deposit of `amount` plus the
    /// fee in the custodial vault of `mint` (creating the vault lazily on
    /// the first trade of that asset), records the trade under the next
    /// global id in state `Open(now)`, and advances the counter.
    ///
    /// `buyer` may be `UNSET_IDENTITY` for an open-marketplace escrow to be
    /// taken later. On success the shell must move the returned deposit
    /// amount from `creator` into the vault of `mint` and emit the returned
    /// event.
    pub fn create_escrow(
        &mut self,
        creator: u64,
        buyer: u64,
        mint: u64,
        amount: u64,
        now: i64,
    ) -> (r: Result<(events::EscrowCreated, u64), P2pError>)
        requires
            old(self).wf(),
            creator != UNSET_IDENTITY,
        ensures
            final(self).wf(),
            r == Err::<(events::EscrowCreated, u64), P2pError>(P2pError::InvalidAmount) <==> amount
                == 0,
            r == Err::<(events::EscrowCreated, u64), P2pError>(P2pError::ArithmeticOverflow) <==> (
            amount != 0 && old(self).create_overflow(mint, amount)),
            r is Ok <==> (amount != 0 && !old(self).create_overflow(mint, amount)),
            r is Err ==> final(self).same_state(*old(self)),
            r is Ok ==> ({
                let e = old(self).created_escrow(creator, buyer, mint, amount, now);
                let deposit = amount + e.fee;
                &&& final(self).escrows@ == old(self).escrows@.push(e)
                &&& final(self).config == (GlobalConfig {
                    escrow_count: (old(self).config.escrow_count + 1) as u64,
                    ..old(self).config
                })
                &&& final(self).dispute_vault_lamports == old(self).dispute_vault_lamports
                &&& (if old(self).has_vault(mint) {
                    let vi = old(self).vault_index(mint);
                    let ata = old(self).vault_atas@[vi];
                    final(self).vaults@ == old(self).vaults@ && final(self).vault_atas@ == old(
                        self,
                    ).vault_atas@.update(
                        vi,
                        VaultTokenAccount {
                            mint: ata.mint,
                            amount: (ata.amount + deposit) as u64,
                            surplus: ata.surplus,
                        },
                    )
                } else {
                    final(self).vaults@ == old(self).vaults@.push(
                        MintVault { mint, available_amount: 0, is_initialized: true, bump: 0 },
                    ) && final(self).vault_atas@ == old(self).vault_atas@.push(
                        VaultTokenAccount { mint, amount: deposit as u64, surplus: 0 },
                    )
                })
                &&& r == Ok::<(events::EscrowCreated, u64), P2pError>(
                    (
                        events::EscrowCreated { id: e.id, seller: creator, mint, amount },
                        deposit as u64,
                    ),
                )
            }),
    {
        if amount == 0 {
            return Err(P2pError::InvalidAmount);
        }
        let fee = match self.config.calculate_fee(amount) {
            Ok(f) => f,
            Err(e) => {
                return Err(e);
            },
        };
        if amount > u64::MAX - fee {
            return Err(P2pError::ArithmeticOverflow);
        }
        let deposit = amount + fee;
        if self.config.escrow_count == u64::MAX {
            return Err(P2pError::ArithmeticOverflow);
        }
        let vi_opt = self.find_vault_index(mint);
        if let Some(vi) = vi_opt {
            proof {
                assert(0 <= self.vault_index(mint) < self.vaults@.len());
            }
            let bal = self.vault_atas[vi].amount;
            if bal > u64::MAX - deposit {
                return Err(P2pError::ArithmeticOverflow);
            }
        }
        let ghost pre = *self;
        let id = self.config.escrow_count;
        let e = Escrow {
            id,
            seller: creator,
            buyer,
            mint,
            amount,
            fee,
            state: EscrowState::Open(now),
            disputed_by: EscrowDisputedBy::Nobody,
            bond_pool: 0,
            bump: 0,
        };
        proof {
            lemma_fee_le_amount(amount, self.config.fee_bps);
        }
        self.escrows.push(e);
        self.config.increment_escrow_count();
        match vi_opt {
            Some(vi) => {
                let ata = self.vault_atas[vi];
                self.vault_atas.set(
                    vi,
                    VaultTokenAccount {
                        mint: ata.mint,
                        amount: ata.amount + deposit,
                        surplus: ata.surplus,
                    },
                );
                proof {
                    lemma_create_existing_vault(pre, *self, e, vi as int);
                }
            },
            None => {
                self.vaults.push(
                    MintVault { mint, available_amount: 0, is_initialized: true, bump: 0 },
                );
                self.vault_atas.push(VaultTokenAccount { mint, amount: deposit, surplus: 0 });
                proof {
                    lemma_create_new_vault(pre, *self, e);
                }
            },
        }
        Ok((events::EscrowCreated { id, seller: creator, mint, amount }, deposit))
    }

    /// Claims an open-marketplace escrow: fixes `taker` as the buyer of an
    /// escrow whose buyer was unset. No funds move.
    pub fn take_escrow(&mut self, taker: u64, escrow_id: u64) -> (r: Result<
        events::EscrowTaken,
        P2pError,
    >)
        requires
            old(self).wf(),
            taker != UNSET_IDENTITY,
        ensures
            final(self).wf(),
            r == Err::<events::EscrowTaken, P2pError>(P2pError::EscrowNotFound) <==> !old(
                self,
            ).has_live(escrow_id),
            r == Err::<events::EscrowTaken, P2pError>(P2pError::EscrowAlreadyTaken) <==> (old(
                self,
            ).has_live(escrow_id) && old(self).live_escrow(escrow_id).buyer != UNSET_IDENTITY),
            r is Ok <==> (old(self).has_live(escrow_id) && old(self).live_escrow(escrow_id).buyer
                == UNSET_IDENTITY),
            r is Err ==> final(self).same_state(*old(self)),
            r is Ok ==> ({
                let e = old(self).live_escrow(escrow_id);
                &&& final(self).escrows@ == old(self).escrows@.update(
                    old(self).live_index(escrow_id),
                    Escrow { buyer: taker, ..e },
                )
                &&& final(self).config == old(self).config
                &&& final(self).vaults@ == old(self).vaults@
                &&& final(self).vault_atas@ == old(self).vault_atas@
                &&& final(self).dispute_vault_lamports == old(self).dispute_vault_lamports
                &&& r == Ok::<events::EscrowTaken, P2pError>(
                    events::EscrowTaken {
                        id: escrow_id,
                        seller: e.seller,
                        buyer: taker,
                        mint: e.mint,
                        amount: e.amount,
                    },
                )
            }),
    {
        let i = match self.find_escrow_index(escrow_id) {
            Some(i) => i,
            None => {
                return Err(P2pError::EscrowNotFound);
            },
        };
        proof {
            assert(0 <= self.live_index(escrow_id) < self.escrows@.len());
        }
        let e = self.escrows[i];
        if e.buyer != UNSET_IDENTITY {
            return Err(P2pError::EscrowAlreadyTaken);
        }
        let ghost pre = *self;
        let e2 = Escrow {
            id: e.id,
            seller: e.seller,
            buyer: taker,
            mint: e.mint,
            amount: e.amount,
            fee: e.fee,
            state: e.state,
            disputed_by: e.disputed_by,
            bond_pool: e.bond_pool,
            bump: e.bump,
        };
        self.escrows.set(i, e2);
        proof {
            assert(pre.escrow_ok(pre.escrows@[i as int]));
            lemma_wf_after_escrow_update(pre, *self, i as int, e2);
            assert(e2 == (Escrow { buyer: taker, ..e }));
        }
        Ok(
            events::EscrowTaken {
                id: escrow_id,
                seller: e.seller,
                buyer: taker,
                mint: e.mint,
                amount: e.amount,
            },
        )
    }

    /// Records the buyer's declaration that the fiat leg was paid: moves an
    /// `Open` escrow to `FiatPaid(now)`. Only the escrow's buyer may do
    /// this. No funds move.
    pub fn mark_escrow_as_paid(&mut self, caller: u64, escrow_id: u64, now: i64) -> (r: Result<
        events::MarkEscrowAsPaid,
        P2pError,
    >)
        requires
            old(self).wf(),
            caller != UNSET_IDENTITY,
        ensures
            final(self).wf(),
            r == Err::<events::MarkEscrowAsPaid, P2pError>(P2pError::EscrowNotFound) <==> !old(
                self,
            ).has_live(escrow_id),
            r == Err::<events::MarkEscrowAsPaid, P2pError>(P2pError::Unauthorized) <==> (old(
                self,
            ).has_live(escrow_id) && caller != old(self).live_escrow(escrow_id).buyer),
            r == Err::<events::MarkEscrowAsPaid, P2pError>(P2pError::InvalidState) <==> (old(
                self,
            ).has_live(escrow_id) && caller == old(self).live_escrow(escrow_id).buyer && !(old(
                self,
            ).live_escrow(escrow_id).state matches EscrowState::Open(_))),
            r is Ok <==> (old(self).has_live(escrow_id) && caller == old(self).live_escrow(
                escrow_id,
            ).buyer && old(self).live_escrow(escrow_id).state matches EscrowState::Open(_)),
            r is Err ==> final(self).same_state(*old(self)),
            r is Ok ==> ({
                let e = old(self).live_escrow(escrow_id);
                &&& final(self).escrows@ == old(self).escrows@.update(
                    old(self).live_index(escrow_id),
                    Escrow { state: EscrowState::FiatPaid(now), ..e },
                )
                &&& final(self).config == old(self).config
                &&& final(self).vaults@ == old(self).vaults@
                &&& final(self).vault_atas@ == old(self).vault_atas@
                &&& final(self).dispute_vault_lamports == old(self).dispute_vault_lamports
                &&& r == Ok::<events::MarkEscrowAsPaid, P2pError>(
                    events::MarkEscrowAsPaid {
                        id: escrow_id,
                        seller: e.seller,
                        buyer: e.buyer,
                        marked_at: now,
                    },
                )
            }),
    {
        let i = match self.find_escrow_index(escrow_id) {
            Some(i) => i,
            None => {
                return Err(P2pError::EscrowNotFound);
            },
        };
        proof {
            assert(0 <= self.live_index(escrow_id) < self.escrows@.len());
        }
        let e = self.escrows[i];
        if caller != e.buyer {
            return Err(P2pError::Unauthorized);
        }
        if !(matches!(e.state, EscrowState::Open(_))) {
            return Err(P2pError::InvalidState);
        }
        let ghost pre = *self;
        let e2 = Escrow {
            id: e.id,
            seller: e.seller,
            buyer: e.buyer,
            mint: e.mint,
            amount: e.amount,
            fee: e.fee,
            state: EscrowState::FiatPaid(now),
            disputed_by: e.disputed_by,
            bond_pool: e.bond_pool,
            bump: e.bump,
        };
        self.escrows.set(i, e2);
        proof {
            assert(pre.escrow_ok(pre.escrows@[i as int]));
            lemma_wf_after_escrow_update(pre, *self, i as int, e2);
            assert(e2 == (Escrow { state: EscrowState::FiatPaid(now), ..e }));
        }
        Ok(
            events::MarkEscrowAsPaid {
                id: escrow_id,
                seller: e.seller,
                buyer: e.buyer,
                marked_at: now,
            },
        )
    }

    /// Cancels a timed-out escrow: only the seller, only from `Open`, and
    /// only strictly after the fiat deadline has run out. The escrow is
    /// destroyed and, in the same step, its whole deposit — principal plus
    /// fee, the event's `returned_amount` — leaves custody back to the
    /// seller; no fee is kept.
    pub fn cancel_escrow(&mut self, caller: u64, escrow_id: u64, now: i64) -> (r: Result<
        events::EscrowCancelled,
        P2pError,
    >)
        requires
            old(self).wf(),
        ensures
            final(self).wf(),
            r == Err::<events::EscrowCancelled, P2pError>(P2pError::EscrowNotFound) <==> !old(
                self,
            ).has_live(escrow_id),
            r == Err::<events::EscrowCancelled, P2pError>(P2pError::Unauthorized) <==> (old(
                self,
            ).has_live(escrow_id) && caller != old(self).live_escrow(escrow_id).seller),
            r == Err::<events::EscrowCancelled, P2pError>(P2pError::InvalidState) <==> (old(
                self,
            ).has_live(escrow_id) && caller == old(self).live_escrow(escrow_id).seller && !(old(
                self,
            ).live_escrow(escrow_id).state matches EscrowState::Open(_))),
            r == Err::<events::EscrowCancelled, P2pError>(P2pError::TooEarly) <==> (old(
                self,
            ).has_live(escrow_id) && caller == old(self).live_escrow(escrow_id).seller && (old(
                self,
            ).live_escrow(escrow_id).state matches EscrowState::Open(t) && !past_deadline(
                now,
                t,
                old(self).config.fiat_deadline_secs,
            ))),
            r is Ok <==> (old(self).has_live(escrow_id) && caller == old(self).live_escrow(
                escrow_id,
            ).seller && (old(self).live_escrow(escrow_id).state matches EscrowState::Open(t)
                && past_deadline(now, t, old(self).config.fiat_deadline_secs))),
            r is Err ==> final(self).same_state(*old(self)),
            r is Ok ==> ({
                let e = old(self).live_escrow(escrow_id);
                let vi = old(self).vault_index(e.mint);
                let ata = old(self).vault_atas@[vi];
                let total = e.amount + e.fee;
                &&& final(self).escrows@ == old(self).escrows@.remove(
                    old(self).live_index(escrow_id),
                )
                &&& final(self).vaults@ == old(self).vaults@
                &&& final(self).vault_atas@ == old(self).vault_atas@.update(
                    vi,
                    VaultTokenAccount {
                        mint: ata.mint,
                        amount: (ata.amount - total) as u64,
                        surplus: ata.surplus,
                    },
                )
                &&& final(self).config == old(self).config
                &&& final(self).dispute_vault_lamports == old(self).dispute_vault_lamports
                &&& r == Ok::<events::EscrowCancelled, P2pError>(
                    events::EscrowCancelled {
                        id: escrow_id,
                        seller: e.seller,
                        mint: e.mint,
                        returned_amount: total as u64,
                        canceled_at: now,
                    },
                )
            }),
    {
        let i = match self.find_escrow_index(escrow_id) {
            Some(i) => i,
            None => {
                return Err(P2pError::EscrowNotFound);
            },
        };
        proof {
            assert(0 <= self.live_index(escrow_id) < self.escrows@.len());
            assert(self.escrow_ok(self.escrows@[i as int]));
        }
        let e = self.escrows[i];
        if caller != e.seller {
            return Err(P2pError::Unauthorized);
        }
        if !(matches!(e.state, EscrowState::Open(_))) {
            return Err(P2pError::InvalidState);
        }
        if !e.can_cancel(self.config.fiat_deadline_secs, now) {
            return Err(P2pError::TooEarly);
        }
        let vi = match self.find_vault_index(e.mint) {
            Some(vi) => vi,
            None => {
                return unreached();
            },
        };
        proof {
            assert(0 <= self.vault_index(e.mint) < self.vaults@.len());
            lemma_vault_covers_escrow(*self, i as int, vi as int);
        }
        let ghost pre = *self;
        let total = e.amount + e.fee;
        let ata = self.vault_atas[vi];
        self.vault_atas.set(
            vi,
            VaultTokenAccount { mint: ata.mint, amount: ata.amount - total, surplus: ata.surplus },
        );
        let _removed = self.escrows.remove(i);
        proof {
            assert(pre.vaults@.update(vi as int, pre.vaults@[vi as int]) =~= pre.vaults@);
            assert(pre.vaults@[vi as int] == (MintVault {
                mint: pre.vaults@[vi as int].mint,
                available_amount: (pre.vaults@[vi as int].available_amount + 0u64) as u64,
                is_initialized: pre.vaults@[vi as int].is_initialized,
                bump: pre.vaults@[vi as int].bump,
            }));
            assert(pre.escrows@[i as int].bond_pool == 0);
            assert(self.config == (GlobalConfig {
                available_lamports: (pre.config.available_lamports
                    + pre.escrows@[i as int].bond_pool) as u64,
                ..pre.config
            }));
            lemma_wf_after_escrow_close(pre, *self, i as int, vi as int, 0, 0);
        }
        Ok(
            events::EscrowCancelled {
                id: escrow_id,
                seller: e.seller,
                mint: e.mint,
                returned_amount: total,
                canceled_at: now,
            },
        )
    }

    /// Opens or escalates a dispute, per [`Escrow::dispute`]'s rules, and
    /// makes the disputant post the configured bond into the dispute vault.
    /// From `ReDispute` this fails with `EscrowAlreadyInDispute` regardless
    /// of caller or time: two rounds are the cap, then arbitration is
    /// mandatory. On success the shell must move the configured bond from
    /// the disputant into the dispute vault and emit the returned event.
    pub fn create_dispute(&mut self, disputant: u64, escrow_id: u64, now: i64) -> (r: Result<
        events::DisputeCreated,
        P2pError,
    >)
        requires
            old(self).wf(),
            disputant != UNSET_IDENTITY,
        ensures
            final(self).wf(),
            r == Err::<events::DisputeCreated, P2pError>(P2pError::EscrowNotFound) <==> !old(
                self,
            ).has_live(escrow_id),
            old(self).has_live(escrow_id) && (old(self).live_escrow(
                escrow_id,
            ).state matches EscrowState::ReDispute(_)) ==> r == Err::<
                events::DisputeCreated,
                P2pError,
            >(P2pError::EscrowAlreadyInDispute),
            r is Err ==> final(self).same_state(*old(self)),
            old(self).has_live(escrow_id) ==> (match dispute_outcome(
                old(self).live_escrow(escrow_id),
                old(self).config.dispute_deadline_secs,
                disputant,
                now,
            ) {
                Err(err) => r == Err::<events::DisputeCreated, P2pError>(err),
                Ok(e2) => {
                    let bond = old(self).config.dispute_fee_escrow;
                    if old(self).dispute_vault_lamports + bond > u64::MAX {
                        r == Err::<events::DisputeCreated, P2pError>(P2pError::ArithmeticOverflow)
                    } else {
                        &&& r == Ok::<events::DisputeCreated, P2pError>(
                            events::DisputeCreated { id: escrow_id, disputant, disputed_at: now },
                        )
                        &&& final(self).escrows@ == old(self).escrows@.update(
                            old(self).live_index(escrow_id),
                            Escrow { bond_pool: (e2.bond_pool + bond) as u64, ..e2 },
                        )
                        &&& final(self).dispute_vault_lamports == old(self).dispute_vault_lamports
                            + bond
                        &&& final(self).config == old(self).config
                        &&& final(self).vaults@ == old(self).vaults@
                        &&& final(self).vault_atas@ == old(self).vault_atas@
                    }
                },
            }),
    {
        let i = match self.find_escrow_index(escrow_id) {
            Some(i) => i,
            None => {
                return Err(P2pError::EscrowNotFound);
            },
        };
        proof {
            assert(0 <= self.live_index(escrow_id) < self.escrows@.len());
            assert(self.escrow_ok(self.escrows@[i as int]));
        }
        let mut e = self.escrows[i];
        let ghost pre = *self;
        match e.dispute(self.config.dispute_deadline_secs, disputant, now) {
            Err(err) => {
                return Err(err);
            },
            Ok(()) => {},
        }
        let bond = self.config.dispute_fee_escrow;
        if self.dispute_vault_lamports > u64::MAX - bond {
            return Err(P2pError::ArithmeticOverflow);
        }
        proof {
            lemma_bond_vault_covers_escrow(pre, i as int);
        }
        let e2 = Escrow {
            id: e.id,
            seller: e.seller,
            buyer: e.buyer,
            mint: e.mint,
            amount: e.amount,
            fee: e.fee,
            state: e.state,
            disputed_by: e.disputed_by,
            bond_pool: e.bond_pool + bond,
            bump: e.bump,
        };
        self.escrows.set(i, e2);
        self.dispute_vault_lamports = self.dispute_vault_lamports + bond;
        proof {
            assert(e2.state matches EscrowState::Dispute(_) || e2.state matches EscrowState::ReDispute(_));
            lemma_wf_after_escrow_update(pre, *self, i as int, e2);
        }
        Ok(events::DisputeCreated { id: escrow_id, disputant, disputed_at: now })
    }

    /// Releases a `FiatPaid` escrow on the strength of the seller's
    /// signature over the canonical release message; `sig_ok` is the
    /// shell's verdict on that signature, and a failed check releases
    /// nothing. The escrow is destroyed and, in the same step, the buyer is
    /// paid the principal less the fee — the returned amount — while the
    /// fee is credited to the asset's withdrawable ledger; a second fee's
    /// worth of the deposit stays in custody as unattributed surplus.
    pub fn release_tokens_in_escrow(&mut self, escrow_id: u64, sig_ok: bool) -> (r: Result<
        (events::TokensReleased, u64),
        P2pError,
    >)
        requires
            old(self).wf(),
        ensures
            final(self).wf(),
            r == Err::<(events::TokensReleased, u64), P2pError>(P2pError::EscrowNotFound) <==> !old(
                self,
            ).has_live(escrow_id),
            r == Err::<(events::TokensReleased, u64), P2pError>(P2pError::InvalidState) <==> (old(
                self,
            ).has_live(escrow_id) && !(old(self).live_escrow(
                escrow_id,
            ).state matches EscrowState::FiatPaid(_))),
            r == Err::<(events::TokensReleased, u64), P2pError>(
                P2pError::SignatureVerificationFailed,
            ) <==> (old(self).has_live(escrow_id) && (old(self).live_escrow(
                escrow_id,
            ).state matches EscrowState::FiatPaid(_)) && !sig_ok),
            r is Ok <==> (old(self).has_live(escrow_id) && (old(self).live_escrow(
                escrow_id,
            ).state matches EscrowState::FiatPaid(_)) && sig_ok),
            r is Err ==> final(self).same_state(*old(self)),
            r is Ok ==> ({
                let e = old(self).live_escrow(escrow_id);
                let vi = old(self).vault_index(e.mint);
                let vlt = old(self).vaults@[vi];
                let ata = old(self).vault_atas@[vi];
                let payout = e.amount - e.fee;
                &&& final(self).escrows@ == old(self).escrows@.remove(
                    old(self).live_index(escrow_id),
                )
                &&& final(self).vaults@ == old(self).vaults@.update(
                    vi,
                    MintVault {
                        mint: vlt.mint,
                        available_amount: (vlt.available_amount + e.fee) as u64,
                        is_initialized: vlt.is_initialized,
                        bump: vlt.bump,
                    },
                )
                &&& final(self).vault_atas@ == old(self).vault_atas@.update(
                    vi,
                    VaultTokenAccount {
                        mint: ata.mint,
                        amount: (ata.amount - payout) as u64,
                        surplus: (ata.surplus + e.fee) as u64,
                    },
                )
                &&& final(self).config == old(self).config
                &&& final(self).dispute_vault_lamports == old(self).dispute_vault_lamports
                &&& r == Ok::<(events::TokensReleased, u64), P2pError>(
                    (
                        events::TokensReleased {
                            id: escrow_id,
                            seller: e.seller,
                            buyer: e.buyer,
                            mint: e.mint,
                            amount: e.amount,
                        },
                        payout as u64,
                    ),
                )
            }),
    {
        let i = match self.find_escrow_index(escrow_id) {
            Some(i) => i,
            None => {
                return Err(P2pError::EscrowNotFound);
            },
        };
        proof {
            assert(0 <= self.live_index(escrow_id) < self.escrows@.len());
            assert(self.escrow_ok(self.escrows@[i as int]));
        }
        let e = self.escrows[i];
        if !(matches!(e.state, EscrowState::FiatPaid(_))) {
            return Err(P2pError::InvalidState);
        }
        if !sig_ok {
            return Err(P2pError::SignatureVerificationFailed);
        }
        let vi = match self.find_vault_index(e.mint) {
            Some(vi) => vi,
            None => {
                return unreached();
            },
        };
        proof {
            assert(0 <= self.vault_index(e.mint) < self.vaults@.len());
            lemma_vault_covers_escrow(*self, i as int, vi as int);
            let f = locked_of(e.mint);
            assert forall|x: Escrow| #[trigger] f(x) >= 0 by {}
            lemma_sum_by_element_bound(self.escrows@, f, i as int);
            assert(self.vault_atas@[vi as int].surplus + e.fee <= u64::MAX);
        }
        let ghost pre = *self;
        let payout = e.amount - e.fee;
        let mut vlt = self.vaults[vi];
        let ata = self.vault_atas[vi];
        vlt.add_available_amount(e.fee);
        self.vaults.set(vi, vlt);
        self.vault_atas.set(
            vi,
            VaultTokenAccount {
                mint: ata.mint,
                amount: ata.amount - payout,
                surplus: ata.surplus + e.fee,
            },
        );
        let _removed = self.escrows.remove(i);
        proof {
            assert(pre.escrows@[i as int].bond_pool == 0);
            assert(self.config == (GlobalConfig {
                available_lamports: (pre.config.available_lamports
                    + pre.escrows@[i as int].bond_pool) as u64,
                ..pre.config
            }));
            lemma_wf_after_escrow_close(pre, *self, i as int, vi as int, e.fee, e.fee);
        }
        Ok(
            (
                events::TokensReleased {
                    id: escrow_id,
                    seller: e.seller,
                    buyer: e.buyer,
                    mint: e.mint,
                    amount: e.amount,
                },
                payout,
            ),
        )
    }

    /// Resolves an escalated dispute: only the operator authority, only
    /// from `ReDispute`, and only in favour of one of the two parties. The
    /// escrow is destroyed and, in the same step, the winner is paid — the
    /// buyer the principal less the fee (with the fee credited to the
    /// ledger), the seller the whole deposit back — and the escrow's bond
    /// pool is returned to the operator-withdrawable lamport surplus. The
    /// returned amount is what the shell must pay the winner.
    pub fn resolve_dispute(&mut self, caller: u64, escrow_id: u64, to: u64, now: i64) -> (r: Result<
        (events::DisputeResolved, u64),
        P2pError,
    >)
        requires
            old(self).wf(),
        ensures
            final(self).wf(),
            r == Err::<(events::DisputeResolved, u64), P2pError>(P2pError::Unauthorized) <==> (
            caller != old(self).config.authority || (old(self).has_live(escrow_id) && (old(
                self,
            ).live_escrow(escrow_id).state matches EscrowState::ReDispute(_)) && to != old(
                self,
            ).live_escrow(escrow_id).buyer && to != old(self).live_escrow(escrow_id).seller)),
            r == Err::<(events::DisputeResolved, u64), P2pError>(P2pError::EscrowNotFound) <==> (
            caller == old(self).config.authority && !old(self).has_live(escrow_id)),
            r == Err::<(events::DisputeResolved, u64), P2pError>(P2pError::InvalidState) <==> (
            caller == old(self).config.authority && old(self).has_live(escrow_id) && !(old(
                self,
            ).live_escrow(escrow_id).state matches EscrowState::ReDispute(_))),
            r is Ok <==> (caller == old(self).config.authority && old(self).has_live(escrow_id)
                && (old(self).live_escrow(escrow_id).state matches EscrowState::ReDispute(_)) && (to
                == old(self).live_escrow(escrow_id).buyer || to == old(self).live_escrow(
                escrow_id,
            ).seller)),
            r is Err ==> final(self).same_state(*old(self)),
            r is Ok ==> ({
                let e = old(self).live_escrow(escrow_id);
                let vi = old(self).vault_index(e.mint);
                let vlt = old(self).vaults@[vi];
                let ata = old(self).vault_atas@[vi];
                let to_buyer = to == e.buyer;
                let payout = if to_buyer {
                    e.amount - e.fee
                } else {
                    e.amount + e.fee
                };
                &&& final(self).escrows@ == old(self).escrows@.remove(
                    old(self).live_index(escrow_id),
                )
                &&& final(self).vaults@ == old(self).vaults@.update(
                    vi,
                    MintVault {
                        mint: vlt.mint,
                        available_amount: if to_buyer {
                            (vlt.available_amount + e.fee) as u64
                        } else {
                            vlt.available_amount
                        },
                        is_initialized: vlt.is_initialized,
                        bump: vlt.bump,
                    },
                )
                &&& final(self).vault_atas@ == old(self).vault_atas@.update(
                    vi,
                    VaultTokenAccount {
                        mint: ata.mint,
                        amount: (ata.amount - payout) as u64,
                        surplus: if to_buyer {
                            (ata.surplus + e.fee) as u64
                        } else {
                            ata.surplus
                        },
                    },
                )
                &&& final(self).config == (GlobalConfig {
                    available_lamports: (old(self).config.available_lamports
                        + e.bond_pool) as u64,
                    ..old(self).config
                })
                &&& final(self).dispute_vault_lamports == old(self).dispute_vault_lamports
                &&& r == Ok::<(events::DisputeResolved, u64), P2pError>(
                    (
                        events::DisputeResolved { id: escrow_id, winner: to, resolved_at: now },
                        payout as u64,
                    ),
                )
            }),
    {
        if caller != self.config.authority {
            return Err(P2pError::Unauthorized);
        }
        let i = match self.find_escrow_index(escrow_id) {
            Some(i) => i,
            None => {
                return Err(P2pError::EscrowNotFound);
            },
        };
        proof {
            assert(0 <= self.live_index(escrow_id) < self.escrows@.len());
            assert(self.escrow_ok(self.escrows@[i as int]));
        }
        let e = self.escrows[i];
        if !(matches!(e.state, EscrowState::ReDispute(_))) {
            return Err(P2pError::InvalidState);
        }
        if to != e.buyer && to != e.seller {
            return Err(P2pError::Unauthorized);
        }
        let vi = match self.find_vault_index(e.mint) {
            Some(vi) => vi,
            None => {
                return unreached();
            },
        };
        proof {
            assert(0 <= self.vault_index(e.mint) < self.vaults@.len());
            lemma_vault_covers_escrow(*self, i as int, vi as int);
            lemma_bond_vault_covers_escrow(*self, i as int);
            let f = locked_of(e.mint);
            assert forall|x: Escrow| #[trigger] f(x) >= 0 by {}
            lemma_sum_by_element_bound(self.escrows@, f, i as int);
            assert(self.vault_atas@[vi as int].surplus + e.fee <= u64::MAX);
        }
        let ghost pre = *self;
        let mut vlt = self.vaults[vi];
        let ata = self.vault_atas[vi];
        let to_buyer = to == e.buyer;
        let payout = if to_buyer {
            e.amount - e.fee
        } else {
            e.amount + e.fee
        };
        if to_buyer {
            vlt.add_available_amount(e.fee);
        }
        self.vaults.set(vi, vlt);
        self.vault_atas.set(
            vi,
            VaultTokenAccount {
                mint: ata.mint,
                amount: ata.amount - payout,
                surplus: if to_buyer {
                    ata.surplus + e.fee
                } else {
                    ata.surplus
                },
            },
        );
        self.config.add_available_lamports(e.bond_pool);
        let _removed = self.escrows.remove(i);
        proof {
            if to_buyer {
                lemma_wf_after_escrow_close(pre, *self, i as int, vi as int, e.fee, e.fee);
            } else {
                assert(self.vaults@[vi as int] == (MintVault {
                    mint: pre.vaults@[vi as int].mint,
                    available_amount: (pre.vaults@[vi as int].available_amount + 0u64) as u64,
                    is_initialized: pre.vaults@[vi as int].is_initialized,
                    bump: pre.vaults@[vi as int].bump,
                }));
                lemma_wf_after_escrow_close(pre, *self, i as int, vi as int, 0, 0);
            }
        }
        Ok((events::DisputeResolved { id: escrow_id, winner: to, resolved_at: now }, payout))
    }

    /// Withdraws the whole accrued fee ledger of one asset to the operator:
    /// only the authority, and only when the ledger is nonzero. The ledger
    /// drops to zero and, in the same atomic step, the returned amount
    /// leaves custody to the authority.
    pub fn withdraw_spl(&mut self, caller: u64, mint: u64) -> (r: Result<u64, P2pError>)
        requires
            old(self).wf(),
        ensures
            final(self).wf(),
            r == Err::<u64, P2pError>(P2pError::Unauthorized) <==> caller != old(
                self,
            ).config.authority,
            r == Err::<u64, P2pError>(P2pError::NothingToWithdraw) <==> (caller == old(
                self,
            ).config.authority && (!old(self).has_vault(mint) || old(self).spec_vault(
                mint,
            ).available_amount == 0)),
            r is Ok <==> (caller == old(self).config.authority && old(self).has_vault(mint) && old(
                self,
            ).spec_vault(mint).available_amount > 0),
            r is Err ==> final(self).same_state(*old(self)),
            r is Ok ==> ({
                let vi = old(self).vault_index(mint);
                let vlt = old(self).vaults@[vi];
                let ata = old(self).vault_atas@[vi];
                &&& r == Ok::<u64, P2pError>(vlt.available_amount)
                &&& final(self).vaults@ == old(self).vaults@.update(
                    vi,
                    MintVault {
                        mint: vlt.mint,
                        available_amount: 0,
                        is_initialized: vlt.is_initialized,
                        bump: vlt.bump,
                    },
                )
                &&& final(self).vault_atas@ == old(self).vault_atas@.update(
                    vi,
                    VaultTokenAccount {
                        mint: ata.mint,
                        amount: (ata.amount - vlt.available_amount) as u64,
                        surplus: ata.surplus,
                    },
                )
                &&& final(self).escrows@ == old(self).escrows@
                &&& final(self).config == old(self).config
                &&& final(self).dispute_vault_lamports == old(self).dispute_vault_lamports
            }),
    {
        if caller != self.config.authority {
            return Err(P2pError::Unauthorized);
        }
        let vi = match self.find_vault_index(mint) {
            Some(vi) => vi,
            None => {
                return Err(P2pError::NothingToWithdraw);
            },
        };
        proof {
            assert(0 <= self.vault_index(mint) < self.vaults@.len());
        }
        let vlt = self.vaults[vi];
        if vlt.available_amount == 0 {
            return Err(P2pError::NothingToWithdraw);
        }
        proof {
            let m = self.vaults@[vi as int].mint;
            let f = locked_of(m);
            assert forall|x: Escrow| #[trigger] f(x) >= 0 by {}
            lemma_sum_by_nonneg(self.escrows@, f);
        }
        let ghost pre = *self;
        let ata = self.vault_atas[vi];
        let amount = vlt.available_amount;
        self.vaults.set(
            vi,
            MintVault {
                mint: vlt.mint,
                available_amount: 0,
                is_initialized: vlt.is_initialized,
                bump: vlt.bump,
            },
        );
        self.vault_atas.set(
            vi,
            VaultTokenAccount { mint: ata.mint, amount: ata.amount - amount, surplus: ata.surplus },
        );
        proof {
            lemma_wf_after_ledger_withdrawal(pre, *self, vi as int);
        }
        Ok(amount)
    }

    /// Updates the configuration: only the current authority; each `Some`
    /// parameter replaces its field, each `None` leaves it alone. The
    /// counter and the lamport surplus are untouched, and escrows created
    /// earlier keep the fee fixed at their creation.
    pub fn update_global_config(
        &mut self,
        caller: u64,
        authority: Option<u64>,
        fee_bps: Option<u16>,
        fiat_deadline_secs: Option<i64>,
        dispute_deadline_secs: Option<i64>,
        dispute_fee_escrow: Option<u64>,
    ) -> (r: Result<(), P2pError>)
        requires
            old(self).wf(),
            fee_bps matches Some(f) ==> f <= BPS_DENOMINATOR,
        ensures
            final(self).wf(),
            r == Err::<(), P2pError>(P2pError::Unauthorized) <==> caller != old(
                self,
            ).config.authority,
            r is Ok <==> caller == old(self).config.authority,
            r is Err ==> final(self).same_state(*old(self)),
            r is Ok ==> ({
                &&& final(self).config == (GlobalConfig {
                    authority: match authority {
                        Some(a) => a,
                        None => old(self).config.authority,
                    },
                    fee_bps: match fee_bps {
                        Some(f) => f,
                        None => old(self).config.fee_bps,
                    },
                    fiat_deadline_secs: match fiat_deadline_secs {
                        Some(d) => d,
                        None => old(self).config.fiat_deadline_secs,
                    },
                    dispute_deadline_secs: match dispute_deadline_secs {
                        Some(d) => d,
                        None => old(self).config.dispute_deadline_secs,
                    },
                    dispute_fee_escrow: match dispute_fee_escrow {
                        Some(b) => b,
                        None => old(self).config.dispute_fee_escrow,
                    },
                    ..old(self).config
                })
                &&& final(self).escrows@ == old(self).escrows@
                &&& final(self).vaults@ == old(self).vaults@
                &&& final(self).vault_atas@ == old(self).vault_atas@
                &&& final(self).dispute_vault_lamports == old(self).dispute_vault_lamports
            }),
    {
        if caller != self.config.authority {
            return Err(P2pError::Unauthorized);
        }
        let ghost pre = *self;
        if let Some(a) = authority {
            self.config.authority = a;
        }
        if let Some(f) = fee_bps {
            self.config.fee_bps = f;
        }
        if let Some(d) = fiat_deadline_secs {
            self.config.fiat_deadline_secs = d;
        }
        if let Some(d) = dispute_deadline_secs {
            self.config.dispute_deadline_secs = d;
        }
        if let Some(b) = dispute_fee_escrow {
            self.config.dispute_fee_escrow = b;
        }
        proof {
            assert(self.escrows@ == pre.escrows@);
            assert(self.vaults@ == pre.vaults@);
            assert(self.config.escrow_count == pre.config.escrow_count);
            assert forall|k: int| 0 <= k < self.escrows@.len() implies self.escrow_ok(
                #[trigger] self.escrows@[k],
            ) by {
                assert(pre.escrow_ok(pre.escrows@[k]));
                let m = pre.escrows@[k].mint;
                let w = pre.vault_index(m);
                assert(0 <= w < pre.vaults@.len() && pre.vaults@[w].mint == m);
                assert(self.vaults@[w].mint == m);
                assert(self.has_vault(m));
            }
            assert(self.tokens_conserved()) by {
                assert(pre.tokens_conserved());
            }
        }
        Ok(())
    }

    /// Looks up a live escrow by id; `None` once it reached a terminal
    /// transition (or never existed), after which no transition on the id
    /// can succeed.
    pub fn get_escrow(&self, escrow_id: u64) -> (r: Option<Escrow>)
        requires
            self.wf(),
        ensures
            match r {
                Some(e) => self.has_live(escrow_id) && e == self.live_escrow(escrow_id),
                None => !self.has_live(escrow_id),
            },
    {
        match self.find_escrow_index(escrow_id) {
            Some(i) => {
                proof {
                    assert(0 <= self.live_index(escrow_id) < self.escrows@.len());
                }
                Some(self.escrows[i])
            },
            None => None,
        }
    }

    /// Looks up the fee ledger of an asset; `None` before the first escrow
    /// over it.
    pub fn get_mint_vault(&self, mint: u64) -> (r: Option<MintVault>)
        requires
            self.wf(),
        ensures
            match r {
                Some(v) => self.has_vault(mint) && v == self.spec_vault(mint),
                None => !self.has_vault(mint),
            },
    {
        match self.find_vault_index(mint) {
            Some(i) => {
                proof {
                    assert(0 <= self.vault_index(mint) < self.vaults@.len());
                }
                Some(self.vaults[i])
            },
            None => None,
        }
    }

    /// Looks up the custodial token account of an asset; `None` before the
    /// first escrow over it.
    pub fn get_vault_token_account(&self, mint: u64) -> (r: Option<VaultTokenAccount>)
        requires
            self.wf(),
        ensures
            match r {
                Some(a) => self.has_vault(mint) && a == self.spec_ata(mint),
                None => !self.has_vault(mint),
            },
    {
        match self.find_vault_index(mint) {
            Some(i) => {
                proof {
                    assert(0 <= self.vault_index(mint) < self.vaults@.len());
                }
                Some(self.vault_atas[i])
            },
            None => None,
        }
    }
}

/// Monotonic ids: every live escrow's id lies strictly below the global
/// counter. `create_escrow` assigns the counter's prior value and then
/// advances it, and no transition ever lowers it, so an id is never reused,
/// even after its escrow's record is deleted.
pub proof fn lemma_live_ids_below_count(p: P2p, i: int)
    requires
        p.wf(),
        0 <= i < p.escrows@.len(),
    ensures
        p.escrows@[i].id < p.config.escrow_count,
{
    assert(p.escrow_ok(p.escrows@[i]));
}

/// No double-release: a terminal transition removes the one record that
/// carries its id, and what remains holds the id nowhere, so every later
/// transition on that id is refused — each transition's contract maps a
/// missing id to `EscrowNotFound` — and, the counter never having moved
/// backwards, the id is never assigned again either.
pub proof fn lemma_no_record_after_removal(p: P2p, id: u64, s2: Seq<Escrow>)
    requires
        p.wf(),
        p.has_live(id),
        s2 == p.escrows@.remove(p.live_index(id)),
    ensures
        forall|k: int| 0 <= k < s2.len() ==> (#[trigger] s2[k]).id != id,
{
    let i = p.live_index(id);
    assert(0 <= i < p.escrows@.len() && p.escrows@[i].id == id);
    p.escrows@.remove_ensures(i);
    assert forall|k: int| 0 <= k < s2.len() implies (#[trigger] s2[k]).id != id by {
        let k2 = if k < i {
            k
        } else {
            k + 1
        };
        assert(s2[k] == p.escrows@[k2]);
        if k2 < i {
            assert(p.escrows@[k2].id != p.escrows@[i].id);
        } else {
            assert(p.escrows@[i].id != p.escrows@[k2].id);
        }
    }
}

/// Zeroing one asset's fee ledger and taking the same amount out of its
/// custodial balance preserves the service invariant.
proof fn lemma_wf_after_ledger_withdrawal(pre: P2p, post: P2p, vi: int)
    requires
        pre.wf(),
        0 <= vi < pre.vaults@.len(),
        post.escrows@ == pre.escrows@,
        post.config == pre.config,
        post.dispute_vault_lamports == pre.dispute_vault_lamports,
        pre.vault_atas@[vi].amount >= pre.vaults@[vi].available_amount,
        post.vaults@ == pre.vaults@.update(
            vi,
            MintVault {
                mint: pre.vaults@[vi].mint,
                available_amount: 0,
                is_initialized: pre.vaults@[vi].is_initialized,
                bump: pre.vaults@[vi].bump,
            },
        ),
        post.vault_atas@ == pre.vault_atas@.update(
            vi,
            VaultTokenAccount {
                mint: pre.vault_atas@[vi].mint,
                amount: (pre.vault_atas@[vi].amount
                    - pre.vaults@[vi].available_amount) as u64,
                surplus: pre.vault_atas@[vi].surplus,
            },
        ),
    ensures
        post.wf(),
{
    assert forall|k: int| 0 <= k < post.vaults@.len() implies #[trigger] post.vaults@[k].mint
        == pre.vaults@[k].mint by {}
    assert forall|m: u64| pre.has_vault(m) implies post.has_vault(m) by {
        let w = pre.vault_index(m);
        assert(post.vaults@[w].mint == m);
    }
    assert forall|k: int| 0 <= k < post.escrows@.len() implies post.escrow_ok(
        #[trigger] post.escrows@[k],
    ) by {
        assert(pre.escrow_ok(pre.escrows@[k]));
    }
    assert(post.vaults_aligned());
    assert forall|k: int| 0 <= k < post.vault_atas@.len() implies (
    #[trigger] post.vault_atas@[k]).amount == post.locked_for_mint(post.vault_atas@[k].mint)
        + post.vaults@[k].available_amount + post.vault_atas@[k].surplus by {
        assert(pre.vault_atas@[k].amount == pre.locked_for_mint(pre.vault_atas@[k].mint)
            + pre.vaults@[k].available_amount + pre.vault_atas@[k].surplus);
    }
    assert(post.lamports_conserved());
}

/// Conservation, read at one escrow: the custody backing a live escrow is
/// present in full. Its asset's token account holds at least the escrow's
/// locked deposit — principal plus fee — on top of the whole withdrawable
/// fee ledger, so a terminal transition can always pay out what it owes.
pub proof fn lemma_vault_covers_escrow(p: P2p, i: int, vi: int)
    requires
        p.wf(),
        0 <= i < p.escrows@.len(),
        0 <= vi < p.vaults@.len(),
        p.vaults@[vi].mint == p.escrows@[i].mint,
    ensures
        p.vault_atas@[vi].amount >= p.escrows@[i].amount + p.escrows@[i].fee
            + p.vaults@[vi].available_amount,
{
    let m = p.escrows@[i].mint;
    let f = locked_of(m);
    assert forall|x: Escrow| #[trigger] f(x) >= 0 by {}
    lemma_sum_by_element_bound(p.escrows@, f, i);
    assert(f(p.escrows@[i]) == p.escrows@[i].amount + p.escrows@[i].fee);
    assert(p.vault_atas@[vi].mint == m);
    assert(p.vault_atas@[vi].amount == p.locked_for_mint(m) + p.vaults@[vi].available_amount
        + p.vault_atas@[vi].surplus);
}

/// Conservation, read at one bond pool: the dispute-bond vault holds at
/// least this escrow's posted bonds on top of the operator-withdrawable
/// surplus, so sweeping the pool on resolution can never overflow the
/// surplus.
pub proof fn lemma_bond_vault_covers_escrow(p: P2p, i: int)
    requires
        p.wf(),
        0 <= i < p.escrows@.len(),
    ensures
        p.dispute_vault_lamports >= p.escrows@[i].bond_pool + p.config.available_lamports,
{
    let f = bond_of();
    assert forall|x: Escrow| #[trigger] f(x) >= 0 by {}
    lemma_sum_by_element_bound(p.escrows@, f, i);
}

/// A terminal transition — cancel, release or resolution — removes one
/// escrow and settles its locked deposit: `fee_credit` of it goes to the
/// asset's withdrawable fee ledger, `surplus_add` stays in custody
/// unattributed, the rest leaves the vault to the recipient; the escrow's
/// bond pool is swept to the operator surplus. The service invariant is
/// preserved.
proof fn lemma_wf_after_escrow_close(
    pre: P2p,
    post: P2p,
    i: int,
    vi: int,
    fee_credit: u64,
    surplus_add: u64,
)
    requires
        pre.wf(),
        0 <= i < pre.escrows@.len(),
        0 <= vi < pre.vaults@.len(),
        pre.vaults@[vi].mint == pre.escrows@[i].mint,
        fee_credit + surplus_add <= pre.escrows@[i].amount + pre.escrows@[i].fee,
        pre.vaults@[vi].available_amount + fee_credit <= u64::MAX,
        pre.vault_atas@[vi].surplus + surplus_add <= u64::MAX,
        pre.config.available_lamports + pre.escrows@[i].bond_pool <= u64::MAX,
        post.escrows@ == pre.escrows@.remove(i),
        post.vaults@ == pre.vaults@.update(
            vi,
            MintVault {
                mint: pre.vaults@[vi].mint,
                available_amount: (pre.vaults@[vi].available_amount + fee_credit) as u64,
                is_initialized: pre.vaults@[vi].is_initialized,
                bump: pre.vaults@[vi].bump,
            },
        ),
        post.vault_atas@ == pre.vault_atas@.update(
            vi,
            VaultTokenAccount {
                mint: pre.vault_atas@[vi].mint,
                amount: (pre.vault_atas@[vi].amount - (pre.escrows@[i].amount
                    + pre.escrows@[i].fee - fee_credit - surplus_add)) as u64,
                surplus: (pre.vault_atas@[vi].surplus + surplus_add) as u64,
            },
        ),
        post.config == (GlobalConfig {
            available_lamports: (pre.config.available_lamports
                + pre.escrows@[i].bond_pool) as u64,
            ..pre.config
        }),
        post.dispute_vault_lamports == pre.dispute_vault_lamports,
    ensures
        post.wf(),
{
    let e = pre.escrows@[i];
    let n = pre.escrows@.len() as int;
    assert(pre.escrow_ok(e));
    lemma_vault_covers_escrow(pre, i, vi);
    pre.escrows@.remove_ensures(i);
    assert(post.escrows@.len() == n - 1);
    assert forall|a: int, b: int| 0 <= a < b < post.escrows@.len() implies (
    #[trigger] post.escrows@[a].id) != (#[trigger] post.escrows@[b].id) by {
        let a2 = if a < i { a } else { a + 1 };
        let b2 = if b < i { b } else { b + 1 };
        assert(post.escrows@[a] == pre.escrows@[a2]);
        assert(post.escrows@[b] == pre.escrows@[b2]);
        assert(pre.escrows@[a2].id != pre.escrows@[b2].id);
    }
    // The mint of every custodial pair is untouched, so vault existence is
    // unchanged.
    assert forall|k: int| 0 <= k < post.vaults@.len() implies #[trigger] post.vaults@[k].mint
        == pre.vaults@[k].mint by {}
    assert forall|m: u64| pre.has_vault(m) implies post.has_vault(m) by {
        let w = pre.vault_index(m);
        assert(post.vaults@[w].mint == m);
    }
    assert forall|k: int| 0 <= k < post.escrows@.len() implies post.escrow_ok(
        #[trigger] post.escrows@[k],
    ) by {
        let k2 = if k < i { k } else { k + 1 };
        assert(post.escrows@[k] == pre.escrows@[k2]);
        assert(pre.escrow_ok(pre.escrows@[k2]));
    }
    assert(post.vaults_aligned());
    assert forall|k: int| 0 <= k < post.vault_atas@.len() implies (
    #[trigger] post.vault_atas@[k]).amount == post.locked_for_mint(post.vault_atas@[k].mint)
        + post.vaults@[k].available_amount + post.vault_atas@[k].surplus by {
        let mk = post.vault_atas@[k].mint;
        lemma_sum_by_remove(pre.escrows@, locked_of(mk), i);
        if k != vi {
            assert(pre.vaults@[k].mint != pre.vaults@[vi].mint);
            assert(pre.vault_atas@[k].mint == pre.vaults@[k].mint);
            assert(locked_of(mk)(e) == 0);
        } else {
            assert(mk == e.mint);
            assert(locked_of(mk)(e) == e.amount + e.fee);
        }
    }
    lemma_sum_by_remove(pre.escrows@, bond_of(), i);
    assert(post.lamports_conserved());
}

/// Replacing one live escrow record in place, without touching its id,
/// parties' stake or asset, preserves the service invariant; the bond vault
/// moves in step with the record's bond pool.
proof fn lemma_wf_after_escrow_update(pre: P2p, post: P2p, i: int, e2: Escrow)
    requires
        pre.wf(),
        0 <= i < pre.escrows@.len(),
        e2.id == pre.escrows@[i].id,
        e2.seller == pre.escrows@[i].seller,
        e2.mint == pre.escrows@[i].mint,
        e2.amount == pre.escrows@[i].amount,
        e2.fee == pre.escrows@[i].fee,
        (e2.state matches EscrowState::Open(_) || e2.state matches EscrowState::FiatPaid(_))
            ==> e2.bond_pool == 0,
        post.escrows@ == pre.escrows@.update(i, e2),
        post.config == pre.config,
        post.vaults@ == pre.vaults@,
        post.vault_atas@ == pre.vault_atas@,
        post.dispute_vault_lamports == pre.dispute_vault_lamports + e2.bond_pool
            - pre.escrows@[i].bond_pool,
    ensures
        post.wf(),
{
    assert(pre.escrow_ok(pre.escrows@[i]));
    assert forall|a: int, b: int| 0 <= a < b < post.escrows@.len() implies (
    #[trigger] post.escrows@[a].id) != (#[trigger] post.escrows@[b].id) by {
        assert(pre.escrows@[a].id != pre.escrows@[b].id);
    }
    assert forall|k: int| 0 <= k < post.escrows@.len() implies post.escrow_ok(
        #[trigger] post.escrows@[k],
    ) by {
        assert(pre.escrow_ok(pre.escrows@[k]));
    }
    assert(post.vaults_aligned());
    assert forall|k: int| 0 <= k < post.vault_atas@.len() implies (
    #[trigger] post.vault_atas@[k]).amount == post.locked_for_mint(post.vault_atas@[k].mint)
        + post.vaults@[k].available_amount + post.vault_atas@[k].surplus by {
        let mk = post.vault_atas@[k].mint;
        lemma_sum_by_update(pre.escrows@, locked_of(mk), i, e2);
        assert(locked_of(mk)(e2) == locked_of(mk)(pre.escrows@[i]));
    }
    lemma_sum_by_update(pre.escrows@, bond_of(), i, e2);
    assert(post.lamports_conserved());
}

/// `create_escrow`, when the traded asset already has custodial records,
/// preserves the service invariant.
proof fn lemma_create_existing_vault(pre: P2p, post: P2p, e: Escrow, vi: int)
    requires
        pre.wf(),
        e.seller != UNSET_IDENTITY,
        e.amount > 0,
        e.fee <= e.amount,
        e.amount + e.fee <= u64::MAX,
        e.id == pre.config.escrow_count,
        pre.config.escrow_count < u64::MAX,
        e.bond_pool == 0,
        0 <= vi < pre.vaults@.len(),
        pre.vaults@[vi].mint == e.mint,
        pre.vault_atas@[vi].amount + e.amount + e.fee <= u64::MAX,
        post.escrows@ == pre.escrows@.push(e),
        post.config == (GlobalConfig {
            escrow_count: (pre.config.escrow_count + 1) as u64,
            ..pre.config
        }),
        post.vaults@ == pre.vaults@,
        post.vault_atas@ == pre.vault_atas@.update(
            vi,
            VaultTokenAccount {
                mint: pre.vault_atas@[vi].mint,
                amount: (pre.vault_atas@[vi].amount + e.amount + e.fee) as u64,
                surplus: pre.vault_atas@[vi].surplus,
            },
        ),
        post.dispute_vault_lamports == pre.dispute_vault_lamports,
    ensures
        post.wf(),
{
    let n = pre.escrows@.len();
    assert forall|i: int, j: int| 0 <= i < j < post.escrows@.len() implies (
    #[trigger] post.escrows@[i].id) != (#[trigger] post.escrows@[j].id) by {
        if j == n {
            assert(pre.escrow_ok(pre.escrows@[i]));
        }
    }
    assert forall|i: int| 0 <= i < post.escrows@.len() implies post.escrow_ok(
        #[trigger] post.escrows@[i],
    ) by {
        if i < n {
            assert(pre.escrow_ok(pre.escrows@[i]));
        } else {
            assert(post.escrows@[i] == e);
            assert(pre.has_vault(e.mint));
        }
        assert(pre.has_vault(post.escrows@[i].mint) == post.has_vault(post.escrows@[i].mint));
    }
    assert(post.vaults_aligned());
    assert forall|k: int| 0 <= k < post.vault_atas@.len() implies (
    #[trigger] post.vault_atas@[k]).amount == post.locked_for_mint(post.vault_atas@[k].mint)
        + post.vaults@[k].available_amount + post.vault_atas@[k].surplus by {
        let mk = post.vault_atas@[k].mint;
        lemma_sum_by_push(pre.escrows@, locked_of(mk), e);
        if k != vi {
            assert(pre.vaults@[k].mint != pre.vaults@[vi].mint);
            assert(pre.vault_atas@[k].mint == pre.vaults@[k].mint);
            assert(locked_of(mk)(e) == 0);
        }
    }
    lemma_sum_by_push(pre.escrows@, bond_of(), e);
    assert(post.lamports_conserved());
}

/// `create_escrow`, when it creates the asset's custodial records lazily,
/// preserves the service invariant.
proof fn lemma_create_new_vault(pre: P2p, post: P2p, e: Escrow)
    requires
        pre.wf(),
        e.seller != UNSET_IDENTITY,
        e.amount > 0,
        e.fee <= e.amount,
        e.amount + e.fee <= u64::MAX,
        e.id == pre.config.escrow_count,
        pre.config.escrow_count < u64::MAX,
        e.bond_pool == 0,
        !pre.has_vault(e.mint),
        post.escrows@ == pre.escrows@.push(e),
        post.config == (GlobalConfig {
            escrow_count: (pre.config.escrow_count + 1) as u64,
            ..pre.config
        }),
        post.vaults@ == pre.vaults@.push(
            MintVault { mint: e.mint, available_amount: 0, is_initialized: true, bump: 0 },
        ),
        post.vault_atas@ == pre.vault_atas@.push(
            VaultTokenAccount { mint: e.mint, amount: (e.amount + e.fee) as u64, surplus: 0 },
        ),
        post.dispute_vault_lamports == pre.dispute_vault_lamports,
    ensures
        post.wf(),
{
    let n = pre.escrows@.len();
    let vn = pre.vaults@.len();
    assert forall|i: int, j: int| 0 <= i < j < post.escrows@.len() implies (
    #[trigger] post.escrows@[i].id) != (#[trigger] post.escrows@[j].id) by {
        if j == n {
            assert(pre.escrow_ok(pre.escrows@[i]));
        }
    }
    // No live escrow trades e.mint yet: each one's asset has custodial
    // records, which e.mint lacks.
    assert forall|i: int| 0 <= i < n implies (#[trigger] pre.escrows@[i]).mint != e.mint by {
        assert(pre.escrow_ok(pre.escrows@[i]));
    }
    assert forall|i: int| 0 <= i < post.escrows@.len() implies post.escrow_ok(
        #[trigger] post.escrows@[i],
    ) by {
        if i < n {
            assert(pre.escrow_ok(pre.escrows@[i]));
            let m = pre.escrows@[i].mint;
            let w = pre.vault_index(m);
            assert(0 <= w < vn && pre.vaults@[w].mint == m);
            assert(post.vaults@[w].mint == m);
            assert(post.has_vault(m));
        } else {
            assert(post.escrows@[i] == e);
            assert(post.vaults@[vn as int].mint == e.mint);
            assert(post.has_vault(e.mint));
        }
    }
    assert forall|i: int, j: int| 0 <= i < j < post.vaults@.len() implies (
    #[trigger] post.vaults@[i].mint) != (#[trigger] post.vaults@[j].mint) by {
        if j == vn {
            if post.vaults@[i].mint == e.mint {
                assert(pre.has_vault(e.mint));
            }
        }
    }
    assert(post.vaults_aligned());
    assert forall|k: int| 0 <= k < post.vault_atas@.len() implies (
    #[trigger] post.vault_atas@[k]).amount == post.locked_for_mint(post.vault_atas@[k].mint)
        + post.vaults@[k].available_amount + post.vault_atas@[k].surplus by {
        let mk = post.vault_atas@[k].mint;
        lemma_sum_by_push(pre.escrows@, locked_of(mk), e);
        if k < vn {
            assert(pre.vault_atas@[k].mint == pre.vaults@[k].mint);
            if mk == e.mint {
                assert(pre.has_vault(e.mint));
            }
            assert(locked_of(mk)(e) == 0);
        } else {
            assert(mk == e.mint);
            assert forall|i: int| 0 <= i < n implies locked_of(mk)(#[trigger] pre.escrows@[i])
                == 0 by {}
            lemma_sum_by_zero(pre.escrows@, locked_of(mk));
        }
    }
    lemma_sum_by_push(pre.escrows@, bond_of(), e);
    assert(post.lamports_conserved());
}

} // verus!
