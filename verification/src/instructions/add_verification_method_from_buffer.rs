//! Append the verification method staged in a complete key buffer to the
//! DID account, then close the buffer and refund its rent to the payer.
//! The rules of `add_verification_method` apply unchanged, evaluated
//! against the DID's state now rather than when the buffer was opened.
//!
//! ABI: [payer, authority, did_account, key_buffer, system_program]

use vstd::prelude::*;

use crate::accounts::{
    check_authority_signer, check_payer, check_system_program, spec_check_authority_signer,
    spec_check_payer, spec_check_system_program, spec_verify_did_account, verify_did_account,
    Account,
};
use crate::error::{DidError, RegistryError};
use crate::instructions::add_verification_method::{add_vm_rule, add_vm_to, with_vm};
use crate::instructions::shared::{after_check, Update};
use crate::key_buffer::{
    kb_flags, kb_fragment, kb_key, kb_key_len, kb_written, read_key_buffer,
    spec_verify_key_buffer, verify_key_buffer, KB_OFF_METHOD_TYPE,
};
use crate::model::{decode_document, ser_document, Document, VerificationMethod};
use crate::state::{expected_key_len, spec_expected_key_len, ACCOUNT_DISCRIMINATOR, OFF_SECTIONS};

verus! {

/// The method a buffer stages.
pub open spec fn staged_method(kb: Seq<u8>) -> VerificationMethod {
    VerificationMethod {
        fragment: kb_fragment(kb),
        method_type: kb[KB_OFF_METHOD_TYPE as int],
        flags: kb_flags(kb),
        key: kb_key(kb),
    }
}

/// What adding a staged method decides over the document: the buffer must
/// hold the whole key, the key type must be known, then the rules of
/// adding a method apply.
pub open spec fn spec_vm_from_buffer(doc: Document, signer: Seq<u8>, written: u32, vm: VerificationMethod) -> Result<
    (),
    RegistryError,
> {
    if written != vm.key.len() {
        Err(RegistryError::Domain(DidError::KeyBufferIncomplete))
    } else if spec_expected_key_len(vm.method_type) is None {
        Err(RegistryError::InvalidInstructionData)
    } else {
        add_vm_rule(doc, signer, vm)
    }
}

/// What `add_verification_method_from_buffer` decides: on success, the
/// subject and the document the DID account holds afterwards (before
/// `touch`). The instruction takes no arguments; the buffer is closed
/// afterwards.
pub open spec fn spec_add_verification_method_from_buffer(
    accounts: Seq<Account>,
    args: Seq<u8>,
) -> Result<(Seq<u8>, Document), RegistryError> {
    if accounts.len() < 5 {
        Err(RegistryError::NotEnoughAccountKeys)
    } else {
        let kb = accounts[3].data@;
        match after_check(
            spec_check_payer(accounts[0]),
            after_check(
                spec_check_authority_signer(accounts[1]),
                after_check(spec_check_system_program(accounts[4]), spec_verify_did_account(accounts[2])),
            ),
        ) {
            Err(e) => Err(e),
            Ok(subject) => after_check(
                spec_verify_key_buffer(accounts[3], accounts[1].address@, Some(accounts[2].address@)),
                if args.len() != 0 {
                    Err(RegistryError::InvalidInstructionData)
                } else {
                    match decode_document(accounts[2].data@) {
                        None => if kb_written(kb) != kb_key_len(kb) {
                            Err(RegistryError::Domain(DidError::KeyBufferIncomplete))
                        } else if spec_expected_key_len(kb[KB_OFF_METHOD_TYPE as int]) is None {
                            Err(RegistryError::InvalidInstructionData)
                        } else {
                            Err(RegistryError::InvalidAccountData)
                        },
                        Some(doc) => match spec_vm_from_buffer(
                            doc,
                            accounts[1].address@,
                            kb_written(kb),
                            staged_method(kb),
                        ) {
                            Err(e) => Err(e),
                            Ok(_) => Ok((subject, with_vm(doc, staged_method(kb)))),
                        },
                    }
                },
            ),
        }
    }
}

/// Applies the rules of adding the staged method (`written` of its key's
/// bytes received, `key` the key) to the document that `data` holds, on
/// behalf of `signer`; on success, the serialization of the document with
/// the method appended.
pub fn add_vm_from_buffer_to(
    data: &[u8],
    signer: &[u8; 32],
    fragment: &[u8],
    method_type: u8,
    flags: u16,
    written: u32,
    key: &[u8],
) -> (r: Result<Vec<u8>, RegistryError>)
    requires
        data@.len() >= OFF_SECTIONS,
        data@.subrange(0, 8) == ACCOUNT_DISCRIMINATOR@,
    ensures
        ({
            let vm = VerificationMethod { fragment: fragment@, method_type, flags, key: key@ };
            if written != key@.len() {
                r == Err::<Vec<u8>, RegistryError>(
                    RegistryError::Domain(DidError::KeyBufferIncomplete),
                )
            } else if spec_expected_key_len(method_type) is None {
                r == Err::<Vec<u8>, RegistryError>(RegistryError::InvalidInstructionData)
            } else {
                match decode_document(data@) {
                    None => r == Err::<Vec<u8>, RegistryError>(RegistryError::InvalidAccountData),
                    Some(doc) => match add_vm_rule(doc, signer@, vm) {
                        Err(e) => r == Err::<Vec<u8>, RegistryError>(e),
                        Ok(_) => r is Ok && r->Ok_0@ == ser_document(with_vm(doc, vm)),
                    },
                }
            }
        }),
{
    if written as u64 != key.len() as u64 {
        return Err(RegistryError::Domain(DidError::KeyBufferIncomplete));
    }
    if expected_key_len(method_type).is_none() {
        return Err(RegistryError::InvalidInstructionData);
    }
    add_vm_to(data, signer, fragment, method_type, flags, key)
}

/// Add the method staged in a key buffer: validates the accounts, the
/// buffer and the rules, and returns the DID account's new content.
pub fn process(accounts: &[Account], args: &[u8]) -> (r: Result<Update, RegistryError>)
    ensures
        match spec_add_verification_method_from_buffer(accounts@, args@) {
            Ok((subject, doc)) => r is Ok && r->Ok_0.subject@ == subject && r->Ok_0.data@
                == ser_document(doc),
            Err(e) => r is Err && r->Err_0 == e,
        },
{
    if accounts.len() < 5 {
        return Err(RegistryError::NotEnoughAccountKeys);
    }
    check_payer(&accounts[0])?;
    check_authority_signer(&accounts[1])?;
    check_system_program(&accounts[4])?;
    let subject = verify_did_account(&accounts[2])?;
    let did = &accounts[2];
    let signer = &accounts[1].address;
    verify_key_buffer(&accounts[3], signer, Some(&did.address))?;
    if args.len() != 0 {
        return Err(RegistryError::InvalidInstructionData);
    }
    let kb = read_key_buffer(accounts[3].data.as_slice());
    let data = add_vm_from_buffer_to(
        did.data.as_slice(),
        signer,
        kb.fragment,
        kb.method_type,
        kb.flags,
        kb.written,
        kb.key,
    )?;
    Ok(Update { subject, data })
}

} // verus!
