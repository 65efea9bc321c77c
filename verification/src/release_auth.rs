//! The canonical release-authorization message.
//!
//! Releasing an escrow's tokens is authorized by the *seller's* signature —
//! a stated design decision: the seller's signature over a message that
//! binds the specific escrow is the buyer's proof of authorization, and
//! anyone may then submit the release. The message is a deterministic byte
//! string: a fixed ASCII prefix, `approve_release:`, followed by the
//! escrow's unique id in eight little-endian bytes. The shell builds the
//! message with [`release_message`], checks the presented signature against
//! the escrow's seller with its signature scheme, and hands the verdict to
//! the state machine as a plain boolean.

use vstd::bytes::{spec_u64_to_le_bytes, u64_to_le_bytes};
use vstd::prelude::*;

verus! {

/// The fixed ASCII prefix of the release message: `approve_release:`.
pub open spec fn release_prefix() -> Seq<u8> {
    seq![
        0x61u8, 0x70u8, 0x70u8, 0x72u8, 0x6fu8, 0x76u8, 0x65u8, 0x5fu8,
        0x72u8, 0x65u8, 0x6cu8, 0x65u8, 0x61u8, 0x73u8, 0x65u8, 0x3au8,
    ]
}

/// The canonical message whose seller signature authorizes releasing the
/// escrow with the given id: the fixed prefix, then the id in little-endian
/// bytes.
pub open spec fn release_message_spec(escrow_id: u64) -> Seq<u8> {
    release_prefix() + spec_u64_to_le_bytes(escrow_id)
}

/// Builds the canonical release-authorization message for an escrow id.
pub fn release_message(escrow_id: u64) -> (r: Vec<u8>)
    ensures
        r@ == release_message_spec(escrow_id),
        r@.len() == 24,
{
    let mut msg: Vec<u8> = Vec::new();
    msg.push(0x61);
    msg.push(0x70);
    msg.push(0x70);
    msg.push(0x72);
    msg.push(0x6f);
    msg.push(0x76);
    msg.push(0x65);
    msg.push(0x5f);
    msg.push(0x72);
    msg.push(0x65);
    msg.push(0x6c);
    msg.push(0x65);
    msg.push(0x61);
    msg.push(0x73);
    msg.push(0x65);
    msg.push(0x3a);
    assert(msg@ =~= release_prefix());
    let mut id_bytes = u64_to_le_bytes(escrow_id);
    msg.append(&mut id_bytes);
    msg
}

} // verus!
