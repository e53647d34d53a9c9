//! The accounts an instruction receives, as the plain values that the
//! registry's checks read, and the checks shared by the instructions.
//!
//! ABI:
//!   realloc-family instructions: [payer, authority, did_account, system_program]
//!   set_verification_method_flags: [authority, did_account]
//!   initialize: [payer, did_account, system_program]
//!   initialize_owned: [payer, authority, did_account, system_program]

use vstd::prelude::*;

use crate::address::{
    create_program_address, created_address, registry_id, seeds_view, registry_program_id, system_id,
    system_program_id,
};
use crate::error::RegistryError;
use crate::state::{bytes_eq, ACCOUNT_DISCRIMINATOR, BASE_SPACE, DID_SEED, OFF_BUMP, OFF_SUBJECT};

verus! {

/// One account handed to an instruction: its address, owner, balance,
/// signer and writable flags, and data.
#[derive(Clone, Debug)]
pub struct Account {
    pub address: [u8; 32],
    pub owner: [u8; 32],
    pub lamports: u64,
    pub is_signer: bool,
    pub is_writable: bool,
    pub data: Vec<u8>,
}

/// The payer funds rent growth and receives shrink refunds: signer + writable.
pub open spec fn spec_check_payer(payer: Account) -> Result<(), RegistryError> {
    if !payer.is_signer {
        Err(RegistryError::MissingRequiredSignature)
    } else if !payer.is_writable {
        Err(RegistryError::Immutable)
    } else {
        Ok(())
    }
}

/// The payer funds rent growth and receives shrink refunds: signer + writable.
pub fn check_payer(payer: &Account) -> (r: Result<(), RegistryError>)
    ensures
        r == spec_check_payer(*payer),
{
    if !payer.is_signer {
        return Err(RegistryError::MissingRequiredSignature);
    }
    if !payer.is_writable {
        return Err(RegistryError::Immutable);
    }
    Ok(())
}

pub open spec fn spec_check_authority_signer(authority: Account) -> Result<(), RegistryError> {
    if !authority.is_signer {
        Err(RegistryError::MissingRequiredSignature)
    } else {
        Ok(())
    }
}

/// The authority must sign the transaction.
pub fn check_authority_signer(authority: &Account) -> (r: Result<(), RegistryError>)
    ensures
        r == spec_check_authority_signer(*authority),
{
    if !authority.is_signer {
        return Err(RegistryError::MissingRequiredSignature);
    }
    Ok(())
}

pub open spec fn spec_check_system_program(system_program: Account) -> Result<(), RegistryError> {
    if system_program.address@ != system_id() {
        Err(RegistryError::IncorrectProgramId)
    } else {
        Ok(())
    }
}

/// The system program account must be the system program.
pub fn check_system_program(system_program: &Account) -> (r: Result<(), RegistryError>)
    ensures
        r == spec_check_system_program(*system_program),
{
    let id = system_program_id();
    if !bytes_eq(system_program.address.as_slice(), id.as_slice()) {
        return Err(RegistryError::IncorrectProgramId);
    }
    Ok(())
}

/// The seeds of the DID account of `subject` with bump `bump`.
pub open spec fn did_seeds(subject: Seq<u8>, bump: u8) -> Seq<Seq<u8>> {
    seq![DID_SEED@, subject, seq![bump]]
}

/// What loading an existing `DidAccount` decides: writable, owned by this
/// program, carrying the `DidAccount` discriminator, at the PDA
/// ["bio-did", subject] with the stored bump. On success, the subject.
pub open spec fn spec_verify_did_account(a: Account) -> Result<Seq<u8>, RegistryError> {
    let d = a.data@;
    if !a.is_writable {
        Err(RegistryError::Immutable)
    } else if a.owner@ != registry_id() {
        Err(RegistryError::InvalidAccountOwner)
    } else if d.len() < BASE_SPACE || d.subrange(0, 8) != ACCOUNT_DISCRIMINATOR@ {
        Err(RegistryError::InvalidAccountData)
    } else {
        let subject = d.subrange(OFF_SUBJECT as int, OFF_SUBJECT + 32);
        match created_address(did_seeds(subject, d[OFF_BUMP as int]), registry_id()) {
            Some(pda) => if pda == a.address@ {
                Ok(subject)
            } else {
                Err(RegistryError::InvalidSeeds)
            },
            None => Err(RegistryError::InvalidSeeds),
        }
    }
}

/// Copies 32 bytes out of `data` at `off`.
pub fn copy_32(data: &[u8], off: usize) -> (r: [u8; 32])
    requires
        off + 32 <= data@.len(),
    ensures
        r@ == data@.subrange(off as int, off + 32),
{
    let mut out = [0u8; 32];
    let n = data.len();
    let mut i: usize = 0;
    while i < 32
        invariant
            i <= 32,
            n == data@.len(),
            off + 32 <= data@.len(),
            out@.len() == 32,
            forall|j: int| 0 <= j < i ==> out@[j] == data@[off + j],
        decreases 32 - i,
    {
        out[i] = data[off + i];
        i = i + 1;
    }
    assert(out@ =~= data@.subrange(off as int, off + 32));
    out
}

/// Loads an existing `DidAccount`: writable, owned by this program, carrying
/// the `DidAccount` discriminator, at the PDA ["bio-did", subject] with the
/// stored bump. Returns the subject key (needed for events).
pub fn verify_did_account(did_account: &Account) -> (r: Result<[u8; 32], RegistryError>)
    ensures
        match spec_verify_did_account(*did_account) {
            Ok(subject) => r is Ok && r->Ok_0@ == subject,
            Err(e) => r == Err::<[u8; 32], RegistryError>(e),
        },
{
    if !did_account.is_writable {
        return Err(RegistryError::Immutable);
    }
    let id = registry_program_id();
    if !bytes_eq(did_account.owner.as_slice(), id.as_slice()) {
        return Err(RegistryError::InvalidAccountOwner);
    }
    let data = did_account.data.as_slice();
    if data.len() < BASE_SPACE || !bytes_eq(&data[0..8], ACCOUNT_DISCRIMINATOR.as_slice()) {
        return Err(RegistryError::InvalidAccountData);
    }
    let subject = copy_32(data, OFF_SUBJECT);
    let bump = [data[OFF_BUMP]];
    let seeds: [&[u8]; 3] = [DID_SEED.as_slice(), subject.as_slice(), bump.as_slice()];
    let seed_list = seeds.as_slice();
    proof {
        assert(seed_list@ == seeds@);
        assert(seeds@[0]@ == DID_SEED@);
        assert(seeds@[1]@ == subject@);
        assert(seeds@[2]@ =~= seq![data@[OFF_BUMP as int]]);
        assert(seeds_view(seed_list) =~= did_seeds(subject@, data@[OFF_BUMP as int]));
    }
    match create_program_address(seed_list, &id) {
        Some(expected) => {
            if !bytes_eq(did_account.address.as_slice(), expected.as_slice()) {
                return Err(RegistryError::InvalidSeeds);
            }
        },
        None => return Err(RegistryError::InvalidSeeds),
    }
    Ok(subject)
}

} // verus!
