//! Open a key buffer: a staging account for a verification method whose key
//! does not fit in one transaction (ML-DSA-87 is 2592 bytes; a transaction
//! is 1232). Everything that can be checked without the key material is
//! checked here, so an upload that cannot succeed fails before any chunk is
//! sent. The buffer is funded by the payer and bound to the signing
//! authority: only that key may write, finish, or close it.
//!
//! ABI: [payer, authority, did_account, key_buffer, system_program]

use vstd::prelude::*;

use crate::accounts::{
    check_authority_signer, check_payer, check_system_program, spec_check_authority_signer,
    spec_check_payer, spec_check_system_program, spec_verify_did_account, verify_did_account,
    Account,
};
use crate::address::{
    find_program_address, found_address, registry_id, registry_program_id, seeds_view, system_id,
    system_program_id,
};
use crate::error::{require, DidError, RegistryError};
use crate::instructions::shared::{
    after_check, ix_read_str, ix_read_u16, ix_read_u32, ix_read_u8, parse_document, read_u16_at,
    require_consumed, str_at,
};
use crate::key_buffer::{kb_initial, key_buffer_initial_data, KEY_BUFFER_SEED};
use crate::model::{decode_document, doc_of, Document};
use crate::rules::{authority_rule, fragment_used, lemma_authority_bridge, lemma_fragment_free_bridge};
use crate::state::{
    bytes_eq, expected_key_len, flags_allowed, read_u32_at, require_authority,
    require_fragment_free, spec_expected_key_len, spec_valid_fragment, valid_fragment,
    validate_vm_flags, ACCOUNT_DISCRIMINATOR, MAX_VERIFICATION_METHODS, OFF_SECTIONS,
    VM_FLAG_PROTECTED,
};

verus! {

/// The arguments: `fragment: String, method_type: u8, flags: u16,
/// key_len: u32`, exactly, with a known method type.
pub open spec fn spec_key_buffer_args(args: Seq<u8>) -> Result<(Seq<u8>, u8, u16, u32), RegistryError> {
    match str_at(args, 0) {
        None => Err(RegistryError::InvalidInstructionData),
        Some((fragment, o1)) => if o1 >= args.len() {
            Err(RegistryError::InvalidInstructionData)
        } else {
            match read_u16_at(args, o1 + 1) {
                None => Err(RegistryError::InvalidInstructionData),
                Some(flags) => match read_u32_at(args, o1 + 3) {
                    None => Err(RegistryError::InvalidInstructionData),
                    Some(key_len) => if o1 + 7 != args.len() || spec_expected_key_len(
                        args[o1],
                    ) is None {
                        Err(RegistryError::InvalidInstructionData)
                    } else {
                        Ok((fragment, args[o1], flags, key_len))
                    },
                },
            }
        },
    }
}

/// When a document lets `signer` stage a method: the rules of adding a
/// method that do not need the key bytes. A protected method must carry
/// the signer's own 32-byte key, which a larger key can never satisfy.
pub open spec fn key_buffer_rule(
    doc: Document,
    signer: Seq<u8>,
    fragment: Seq<u8>,
    method_type: u8,
    flags: u16,
    key_len: u32,
) -> Result<(), RegistryError> {
    match authority_rule(doc, signer) {
        Err(e) => Err(e),
        Ok(_) => if doc.verification_methods.len() >= MAX_VERIFICATION_METHODS {
            Err(RegistryError::Domain(DidError::TooManyVerificationMethods))
        } else if !spec_valid_fragment(fragment) {
            Err(RegistryError::Domain(DidError::InvalidFragment))
        } else if fragment_used(doc, fragment) {
            Err(RegistryError::Domain(DidError::FragmentAlreadyInUse))
        } else if spec_expected_key_len(method_type) != Some(key_len as usize) {
            Err(RegistryError::Domain(DidError::InvalidKeyLength))
        } else if !flags_allowed(method_type, flags) {
            Err(RegistryError::Domain(DidError::InvalidFlags))
        } else if flags & VM_FLAG_PROTECTED != 0 && key_len != 32 {
            Err(RegistryError::Domain(DidError::ProtectedVerificationMethod))
        } else {
            Ok(())
        },
    }
}

/// The seeds of a buffer's address, before the bump.
pub open spec fn key_buffer_base_seeds(did_account: Seq<u8>, authority: Seq<u8>) -> Seq<Seq<u8>> {
    seq![KEY_BUFFER_SEED@, did_account, authority]
}

/// What `create_key_buffer` decides: on success, the buffer's bump and its
/// initial content.
pub open spec fn spec_create_key_buffer(accounts: Seq<Account>, args: Seq<u8>) -> Result<
    (u8, Seq<u8>),
    RegistryError,
> {
    if accounts.len() < 5 {
        Err(RegistryError::NotEnoughAccountKeys)
    } else {
        let did = accounts[2];
        let kb = accounts[3];
        let signer = accounts[1].address@;
        after_check(
            spec_check_payer(accounts[0]),
            after_check(
                spec_check_authority_signer(accounts[1]),
                after_check(
                    spec_check_system_program(accounts[4]),
                    match spec_verify_did_account(did) {
                        Err(e) => Err(e),
                        Ok(_) => if !kb.is_writable {
                            Err(RegistryError::Immutable)
                        } else {
                            match spec_key_buffer_args(args) {
                                Err(e) => Err(e),
                                Ok((fragment, method_type, flags, key_len)) => match decode_document(
                                    did.data@,
                                ) {
                                    None => Err(RegistryError::InvalidAccountData),
                                    Some(doc) => match key_buffer_rule(
                                        doc,
                                        signer,
                                        fragment,
                                        method_type,
                                        flags,
                                        key_len,
                                    ) {
                                        Err(e) => Err(e),
                                        Ok(_) => match found_address(
                                            key_buffer_base_seeds(did.address@, signer),
                                            registry_id(),
                                        ) {
                                            None => Err(RegistryError::InvalidSeeds),
                                            Some((pda, bump)) => if pda != kb.address@ {
                                                Err(RegistryError::InvalidSeeds)
                                            } else if kb.owner@ != system_id() || kb.data@.len()
                                                != 0 {
                                                // One buffer per authority and DID at a time.
                                                Err(RegistryError::AccountAlreadyInitialized)
                                            } else {
                                                Ok(
                                                    (
                                                        bump,
                                                        kb_initial(
                                                            did.address@,
                                                            signer,
                                                            bump,
                                                            method_type,
                                                            flags,
                                                            key_len,
                                                            fragment,
                                                        ),
                                                    ),
                                                )
                                            },
                                        },
                                    },
                                },
                            }
                        },
                    },
                ),
            ),
        )
    }
}

/// What a new buffer is created with: the bump of its address and its
/// initial content (its size is the content's length).
#[derive(Clone, Debug)]
pub struct KeyBufferCreation {
    pub bump: u8,
    pub data: Vec<u8>,
}

/// Reads the arguments: fragment, method type, flags and key length.
pub fn read_key_buffer_args<'a>(args: &'a [u8]) -> (r: Result<(&'a [u8], u8, u16, u32), RegistryError>)
    ensures
        match spec_key_buffer_args(args@) {
            Ok((f, t, fl, k)) => r is Ok && r->Ok_0.0@ == f && r->Ok_0.1 == t && r->Ok_0.2 == fl
                && r->Ok_0.3 == k,
            Err(e) => r is Err && r->Err_0 == e,
        },
{
    // Borsh args: fragment: String, method_type: u8, flags: u16, key_len: u32
    let mut off: usize = 0;
    let fragment = ix_read_str(args, &mut off)?;
    let method_type = ix_read_u8(args, &mut off)?;
    let flags = ix_read_u16(args, &mut off)?;
    let key_len = ix_read_u32(args, &mut off)?;
    require_consumed(args, off)?;
    if expected_key_len(method_type).is_none() {
        return Err(RegistryError::InvalidInstructionData);
    }
    Ok((fragment, method_type, flags, key_len))
}

/// Applies the rules of staging a method of `key_len` key bytes for the
/// document that `data` holds, on behalf of `signer`.
pub fn create_key_buffer_rule(
    data: &[u8],
    signer: &[u8; 32],
    fragment: &[u8],
    method_type: u8,
    flags: u16,
    key_len: u32,
) -> (r: Result<(), RegistryError>)
    requires
        data@.len() >= OFF_SECTIONS,
    ensures
        match decode_document(data@) {
            None => r == Err::<(), RegistryError>(RegistryError::InvalidAccountData),
            Some(doc) => r == key_buffer_rule(doc, signer@, fragment@, method_type, flags, key_len),
        },
{
    let s = parse_document(data)?;
    proof {
        lemma_authority_bridge(data@, s, signer@);
        lemma_fragment_free_bridge(data@, s, fragment@);
    }
    require_authority(data, &s, signer)?;
    require(s.vm_count < MAX_VERIFICATION_METHODS, DidError::TooManyVerificationMethods)?;
    require(valid_fragment(fragment), DidError::InvalidFragment)?;
    require_fragment_free(data, &s, fragment)?;
    let fits = match expected_key_len(method_type) {
        Some(n) => key_len as u64 == n as u64,
        None => false,
    };
    require(fits, DidError::InvalidKeyLength)?;
    validate_vm_flags(method_type, flags)?;
    // A protected method must carry the signer's own 32 byte key, which
    // a larger key can never satisfy when the buffer is finished.
    if flags & VM_FLAG_PROTECTED != 0 {
        require(key_len == 32, DidError::ProtectedVerificationMethod)?;
    }
    Ok(())
}

/// Create a key buffer: validates the accounts, the arguments and the
/// rules, and returns the buffer's bump and initial content.
pub fn process(accounts: &[Account], args: &[u8]) -> (r: Result<KeyBufferCreation, RegistryError>)
    ensures
        match spec_create_key_buffer(accounts@, args@) {
            Ok((bump, data)) => r is Ok && r->Ok_0.bump == bump && r->Ok_0.data@ == data,
            Err(e) => r is Err && r->Err_0 == e,
        },
{
    if accounts.len() < 5 {
        return Err(RegistryError::NotEnoughAccountKeys);
    }
    check_payer(&accounts[0])?;
    check_authority_signer(&accounts[1])?;
    check_system_program(&accounts[4])?;
    verify_did_account(&accounts[2])?;
    let did = &accounts[2];
    let kb = &accounts[3];
    if !kb.is_writable {
        return Err(RegistryError::Immutable);
    }
    let (fragment, method_type, flags, key_len) = read_key_buffer_args(args)?;
    let signer = &accounts[1].address;
    create_key_buffer_rule(did.data.as_slice(), signer, fragment, method_type, flags, key_len)?;
    proof {
        assert(decode_document(did.data@) is Some);
    }

    let id = registry_program_id();
    let seeds: [&[u8]; 3] = [KEY_BUFFER_SEED.as_slice(), did.address.as_slice(), signer.as_slice()];
    let seed_list = seeds.as_slice();
    proof {
        assert(seed_list@ == seeds@);
        assert(seeds_view(seed_list) =~= key_buffer_base_seeds(did.address@, signer@));
    }
    let (pda, bump) = match find_program_address(seed_list, &id) {
        Some(found) => found,
        None => return Err(RegistryError::InvalidSeeds),
    };
    if !bytes_eq(kb.address.as_slice(), pda.as_slice()) {
        return Err(RegistryError::InvalidSeeds);
    }
    // One buffer per authority and DID at a time.
    let system = system_program_id();
    if !bytes_eq(kb.owner.as_slice(), system.as_slice()) || kb.data.len() != 0 {
        return Err(RegistryError::AccountAlreadyInitialized);
    }
    let data = key_buffer_initial_data(&did.address, signer, bump, method_type, flags, key_len, fragment);
    Ok(KeyBufferCreation { bump, data })
}

} // verus!
