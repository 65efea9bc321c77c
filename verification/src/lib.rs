//! A peer-to-peer escrow service for trading fungible tokens against an
//! off-chain fiat payment, with fee collection and third-party dispute
//! arbitration.
//!
//! The library is the core of the service: the escrow lifecycle state machine
//! and its custody and fee accounting. It decides, for every caller and every
//! current state, whether a requested transition (create, take, mark-paid,
//! release, cancel, dispute, resolve, withdraw) is legal, what funds move as a
//! result, and what the resulting state is. Everything else — account wiring,
//! the token-transfer primitive, signature checking, reading the clock,
//! persistence — is the hosting shell's concern: the shell authenticates
//! callers, supplies the current time and the outcome of signature checks as
//! plain values, executes the fund movements each transition returns, and
//! emits the returned lifecycle events.
//!
//! Identities (party addresses) and asset identifiers reach the library as
//! plain `u64` keys chosen injectively by the shell; the zero identity marks
//! an escrow whose buyer is not yet fixed.

pub mod errors;
pub mod escrow;
pub mod events;
pub mod global_config;
pub mod mint_vault;
pub mod protocol;
pub mod release_auth;
pub mod sums;
