//! Discard a key buffer and refund its rent to the payer. Only the authority
//! the buffer is bound to may close it. The DID account is not involved, so
//! an abandoned upload can be reclaimed even after the DID was deactivated
//! or the authority was rotated out.
//!
//! ABI: [payer, authority, key_buffer]

use vstd::prelude::*;

use crate::accounts::{
    check_authority_signer, check_payer, spec_check_authority_signer, spec_check_payer, Account,
};
use crate::error::RegistryError;
use crate::instructions::shared::after_check;
use crate::key_buffer::{spec_verify_key_buffer, verify_key_buffer};

verus! {

/// What `close_key_buffer` decides. The instruction takes no arguments.
pub open spec fn spec_close_key_buffer(accounts: Seq<Account>, args: Seq<u8>) -> Result<
    (),
    RegistryError,
> {
    if accounts.len() < 3 {
        Err(RegistryError::NotEnoughAccountKeys)
    } else {
        after_check(
            spec_check_payer(accounts[0]),
            after_check(
                spec_check_authority_signer(accounts[1]),
                after_check(
                    spec_verify_key_buffer(accounts[2], accounts[1].address@, None),
                    if args.len() != 0 {
                        Err(RegistryError::InvalidInstructionData)
                    } else {
                        Ok(())
                    },
                ),
            ),
        )
    }
}

/// Close a key buffer: validates the payer, the authority and the buffer;
/// on success the buffer's lamports go to the payer.
pub fn process(accounts: &[Account], args: &[u8]) -> (r: Result<(), RegistryError>)
    ensures
        r == spec_close_key_buffer(accounts@, args@),
{
    if accounts.len() < 3 {
        return Err(RegistryError::NotEnoughAccountKeys);
    }
    check_payer(&accounts[0])?;
    check_authority_signer(&accounts[1])?;
    verify_key_buffer(&accounts[2], &accounts[1].address, None)?;
    if args.len() != 0 {
        return Err(RegistryError::InvalidInstructionData);
    }
    Ok(())
}

} // verus!
