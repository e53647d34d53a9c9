//! Events, emitted through the `sol_log_data` syscall: an 8-byte event
//! discriminator (sha256("event:<Name>")[..8]) followed by the
//! borsh-encoded fields, so indexers can subscribe via `Program data:` logs.
//!
//! All three events share the same body: `{ did_account, subject, version }`.

use vstd::prelude::*;

use crate::bytes::{push_bytes, push_u64, u64_le};
use crate::ix::Instruction;

verus! {

pub const DID_INITIALIZED: [u8; 8] = [125, 40, 26, 220, 241, 180, 151, 84];

pub const DID_MODIFIED: [u8; 8] = [127, 241, 158, 225, 33, 224, 88, 208];

pub const DID_DEACTIVATED: [u8; 8] = [6, 124, 31, 30, 191, 92, 197, 57];

/// The bytes of one event: discriminator + did_account + subject + version.
pub open spec fn spec_event(
    discriminator: Seq<u8>,
    did_account: Seq<u8>,
    subject: Seq<u8>,
    version: u64,
) -> Seq<u8> {
    discriminator + did_account + subject + u64_le(version)
}

/// The 80 bytes that `emit` logs for one event.
pub fn event_data(
    discriminator: &[u8; 8],
    did_account: &[u8; 32],
    subject: &[u8; 32],
    version: u64,
) -> (buf: Vec<u8>)
    ensures
        buf@ == spec_event(discriminator@, did_account@, subject@, version),
        buf@.len() == 80,
{
    let mut buf: Vec<u8> = Vec::new();
    push_bytes(&mut buf, discriminator.as_slice());
    push_bytes(&mut buf, did_account.as_slice());
    push_bytes(&mut buf, subject.as_slice());
    push_u64(&mut buf, version);
    proof {
        crate::bytes::lemma_u64_le(version);
    }
    buf
}

/// The event an instruction emits: `DidInitialized` for a creation,
/// `DidDeactivated` for a deactivation, `DidModified` for any other edit.
pub open spec fn spec_event_for(ix: Instruction) -> [u8; 8] {
    match ix {
        Instruction::Initialize | Instruction::InitializeOwned => DID_INITIALIZED,
        Instruction::Deactivate => DID_DEACTIVATED,
        _ => DID_MODIFIED,
    }
}

/// The discriminator of the event `ix` emits.
pub fn event_for(ix: Instruction) -> (d: [u8; 8])
    ensures
        d == spec_event_for(ix),
{
    match ix {
        Instruction::Initialize | Instruction::InitializeOwned => DID_INITIALIZED,
        Instruction::Deactivate => DID_DEACTIVATED,
        _ => DID_MODIFIED,
    }
}

} // verus!
