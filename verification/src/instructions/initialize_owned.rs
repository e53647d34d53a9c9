//! Materialize a DID whose subject is derived by the program instead of
//! being an Ed25519 key: `subject = find_program_address(["bio-did-owned",
//! authority, nonce_le])`. The address is off the curve, so no keypair can
//! ever stand behind it and the DID has no generative document; the signing
//! authority's key becomes its protected `#default` verification method.
//!
//! One signature creates a DID the signer controls, which is how a wallet
//! names a dataset, paper or claim it owns and pays for. Because the
//! authority must sign, nobody can register an owned DID in someone else's
//! name, and distinct authorities can never collide on a nonce.
//!
//! ABI: [payer, authority, did_account, system_program]; args: nonce u64 LE.

use vstd::prelude::*;

use crate::accounts::{
    check_authority_signer, check_payer, check_system_program, spec_check_authority_signer,
    spec_check_payer, spec_check_system_program, Account,
};
use crate::address::{found_address, registry_id};
use crate::bytes::{get_u64, le_u64};
use crate::error::RegistryError;
use crate::instructions::initialize::{check_fresh_did_account, spec_fresh_did_account, Creation};
use crate::instructions::shared::after_check;
use crate::state::{owned_subject, owned_subject_seeds};

verus! {

/// What `initialize_owned` decides: on success, the subject it derives and
/// the bump of the new account. Where no address derives from the seeds
/// (which takes a one in 2^256 chance per bump), it fails with
/// `InvalidSeeds`.
pub open spec fn spec_initialize_owned(accounts: Seq<Account>, args: Seq<u8>) -> Result<
    (Seq<u8>, u8),
    RegistryError,
> {
    if accounts.len() < 4 {
        Err(RegistryError::NotEnoughAccountKeys)
    } else {
        after_check(
            spec_check_authority_signer(accounts[1]),
            if args.len() != 8 {
                Err(RegistryError::InvalidInstructionData)
            } else {
                match found_address(
                    owned_subject_seeds(accounts[1].address@, le_u64(args)),
                    registry_id(),
                ) {
                    None => Err(RegistryError::InvalidSeeds),
                    Some((subject, _)) => after_check(
                        spec_check_payer(accounts[0]),
                        after_check(
                            spec_check_system_program(accounts[3]),
                            if !accounts[2].is_writable {
                                Err(RegistryError::Immutable)
                            } else {
                                match spec_fresh_did_account(accounts[2], subject) {
                                    Ok(bump) => Ok((subject, bump)),
                                    Err(e) => Err(e),
                                }
                            },
                        ),
                    ),
                }
            },
        )
    }
}

/// Initialize an owned DID: validates the authority, the nonce and the
/// accounts, and returns what the new account is created for, with the
/// authority's key as its first method.
pub fn process(accounts: &[Account], args: &[u8]) -> (r: Result<Creation, RegistryError>)
    ensures
        match spec_initialize_owned(accounts@, args@) {
            Ok((subject, bump)) => r is Ok && r->Ok_0.subject@ == subject && r->Ok_0.authority@
                == accounts@[1].address@ && r->Ok_0.bump == bump,
            Err(e) => r is Err && r->Err_0 == e,
        },
{
    if accounts.len() < 4 {
        return Err(RegistryError::NotEnoughAccountKeys);
    }
    check_authority_signer(&accounts[1])?;
    if args.len() != 8 {
        return Err(RegistryError::InvalidInstructionData);
    }
    let nonce = get_u64(args, 0);
    assert(args@.subrange(0, 8) =~= args@);
    let authority = accounts[1].address;
    let subject = match owned_subject(&authority, nonce) {
        Some(a) => a,
        None => return Err(RegistryError::InvalidSeeds),
    };
    check_payer(&accounts[0])?;
    check_system_program(&accounts[3])?;
    if !accounts[2].is_writable {
        return Err(RegistryError::Immutable);
    }
    let bump = check_fresh_did_account(&accounts[2], &subject)?;
    Ok(Creation { subject, authority, bump })
}

} // verus!
