//! The per-trade escrow record and its pure lifecycle transitions.

use vstd::prelude::*;

use crate::errors::P2pError;

verus! {

/// The identity that marks an escrow whose buyer is not yet fixed. Real
/// party identities are nonzero.
pub const UNSET_IDENTITY: u64 = 0;

/// Where an escrow stands in its lifecycle. Each stage carries the timestamp
/// at which it was entered, so the deadline that gates the next transition is
/// always unambiguous.
#[derive(Clone, Copy, Debug, PartialEq, Eq, Structural)]
pub enum EscrowState {
    /// Created and funded; awaiting the buyer's fiat payment.
    Open(i64),
    /// The buyer declared the fiat leg paid; awaiting release or dispute.
    FiatPaid(i64),
    /// One party disputed; the counterpart may escalate once.
    Dispute(i64),
    /// Escalated as far as permitted; only arbitration exits this stage.
    ReDispute(i64),
}

/// Which party escalated the current dispute round.
#[derive(Clone, Copy, Debug, PartialEq, Eq, Structural)]
pub enum EscrowDisputedBy {
    Nobody,
    Seller,
    Buyer,
}

/// Whether `now` lies strictly beyond the deadline that opened at
/// `entered` and lasts `window` seconds. Exactly at the deadline the
/// answer is still no.
pub open spec fn past_deadline(now: i64, entered: i64, window: i64) -> bool {
    now > entered + window
}

/// The deadline boundary: a transition guarded by a deadline is refused
/// exactly at `entered + window` and permitted one second later. Both the
/// seller's cancellation deadline and the dispute cooldowns behave so.
pub proof fn lemma_deadline_boundary(entered: i64, window: i64)
    requires
        i64::MIN <= entered + window,
        entered + window + 1 <= i64::MAX,
    ensures
        !past_deadline((entered + window) as i64, entered, window),
        past_deadline((entered + window + 1) as i64, entered, window),
{
}

/// Compares `now` against `entered + window` without overflowing, by doing
/// the arithmetic in 128 bits.
pub fn deadline_passed(now: i64, entered: i64, window: i64) -> (r: bool)
    ensures
        r == past_deadline(now, entered, window),
{
    (now as i128) > (entered as i128) + (window as i128)
}

/// One trade: an amount of one asset locked in custody pending an off-chain
/// fiat payment. Created on `create_escrow`, destroyed on any terminal
/// transition (release, cancel, resolution).
#[derive(Clone, Copy, Debug, PartialEq, Eq, Structural)]
pub struct Escrow {
    /// Unique, assigned from the global escrow counter at creation.
    pub id: u64,
    /// The party that deposited the tokens and is owed the fiat payment.
    pub seller: u64,
    /// The party promised the tokens; `UNSET_IDENTITY` until taken.
    pub buyer: u64,
    /// The asset under trade.
    pub mint: u64,
    /// The principal, excluding the fee, that the buyer is promised.
    pub amount: u64,
    /// The fee on this trade, fixed at creation from the fee rate then in
    /// force; the seller deposits `amount + fee`.
    pub fee: u64,
    /// The lifecycle stage, carrying its entry timestamp.
    pub state: EscrowState,
    /// Who escalated the current dispute round.
    pub disputed_by: EscrowDisputedBy,
    /// The dispute bonds posted against this escrow so far, in the chain's
    /// native unit; swept to the operator surplus on resolution.
    pub bond_pool: u64,
    /// Address-derivation nonce of the hosting shell; not consulted here.
    pub bump: u8,
}

/// What `Escrow::dispute` does: the complete dispute transition function,
/// from the current record, the cooldown, the disputant and the time to
/// either the updated record or the exact rejection.
pub open spec fn dispute_outcome(
    e: Escrow,
    dispute_deadline_secs: i64,
    disputant: u64,
    now: i64,
) -> Result<Escrow, P2pError> {
    match e.state {
        EscrowState::Open(_) => Err(P2pError::EscrowIsNotTaken),
        EscrowState::ReDispute(_) => Err(P2pError::EscrowAlreadyInDispute),
        EscrowState::FiatPaid(t) => {
            if !past_deadline(now, t, dispute_deadline_secs) {
                Err(P2pError::TooEarly)
            } else if disputant == e.seller {
                Ok(Escrow {
                    state: EscrowState::Dispute(now),
                    disputed_by: EscrowDisputedBy::Seller,
                    ..e
                })
            } else if disputant == e.buyer {
                Ok(Escrow {
                    state: EscrowState::Dispute(now),
                    disputed_by: EscrowDisputedBy::Buyer,
                    ..e
                })
            } else {
                Err(P2pError::Unauthorized)
            }
        },
        EscrowState::Dispute(t) => {
            if !past_deadline(now, t, dispute_deadline_secs) {
                Err(P2pError::TooEarly)
            } else if disputant == e.seller && e.disputed_by == EscrowDisputedBy::Buyer {
                Ok(Escrow {
                    state: EscrowState::ReDispute(now),
                    disputed_by: EscrowDisputedBy::Seller,
                    ..e
                })
            } else if disputant == e.buyer && e.disputed_by == EscrowDisputedBy::Seller {
                Ok(Escrow {
                    state: EscrowState::ReDispute(now),
                    disputed_by: EscrowDisputedBy::Buyer,
                    ..e
                })
            } else {
                Err(P2pError::EscrowAlreadyInDispute)
            }
        },
    }
}

impl Escrow {
    /// Whether the seller may cancel now: only an `Open` escrow, and only
    /// strictly after its fiat deadline has run out.
    pub fn can_cancel(&self, fiat_deadline_secs: i64, now: i64) -> (r: bool)
        ensures
            r == (self.state matches EscrowState::Open(t) && past_deadline(now, t, fiat_deadline_secs)),
    {
        if let EscrowState::Open(t) = self.state {
            deadline_passed(now, t, fiat_deadline_secs)
        } else {
            false
        }
    }

    /// Opens or escalates a dispute on this escrow.
    ///
    /// From `FiatPaid`, once the cooldown has elapsed, either party may open
    /// a dispute; from `Dispute`, only the counterpart of the current
    /// disputant may escalate, once more after a fresh cooldown. A
    /// `ReDispute` escrow can never be disputed again, by anybody, at any
    /// time: arbitration is mandatory from there. An `Open` escrow cannot be
    /// disputed at all.
    pub fn dispute(&mut self, dispute_deadline_secs: i64, disputant: u64, now: i64) -> (r: Result<
        (),
        P2pError,
    >)
        ensures
            match dispute_outcome(*old(self), dispute_deadline_secs, disputant, now) {
                Ok(e2) => r is Ok && *final(self) == e2,
                Err(err) => r == Err::<(), P2pError>(err) && *final(self) == *old(self),
            },
            old(self).state matches EscrowState::ReDispute(_)
                ==> r == Err::<(), P2pError>(P2pError::EscrowAlreadyInDispute),
    {
        match self.state {
            EscrowState::Open(_) => Err(P2pError::EscrowIsNotTaken),
            EscrowState::ReDispute(_) => Err(P2pError::EscrowAlreadyInDispute),
            EscrowState::FiatPaid(t) => {
                if !deadline_passed(now, t, dispute_deadline_secs) {
                    Err(P2pError::TooEarly)
                } else if disputant == self.seller {
                    self.disputed_by = EscrowDisputedBy::Seller;
                    self.state = EscrowState::Dispute(now);
                    Ok(())
                } else if disputant == self.buyer {
                    self.disputed_by = EscrowDisputedBy::Buyer;
                    self.state = EscrowState::Dispute(now);
                    Ok(())
                } else {
                    Err(P2pError::Unauthorized)
                }
            },
            EscrowState::Dispute(t) => {
                if !deadline_passed(now, t, dispute_deadline_secs) {
                    Err(P2pError::TooEarly)
                } else if disputant == self.seller
                    && matches!(self.disputed_by, EscrowDisputedBy::Buyer) {
                    self.disputed_by = EscrowDisputedBy::Seller;
                    self.state = EscrowState::ReDispute(now);
                    Ok(())
                } else if disputant == self.buyer
                    && matches!(self.disputed_by, EscrowDisputedBy::Seller) {
                    self.disputed_by = EscrowDisputedBy::Buyer;
                    self.state = EscrowState::ReDispute(now);
                    Ok(())
                } else {
                    Err(P2pError::EscrowAlreadyInDispute)
                }
            },
        }
    }
}

} // verus!
