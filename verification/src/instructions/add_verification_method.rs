//! Add a verification method (authority required). The account grows by
//! the entry's exact size, funded by the payer.

use vstd::prelude::*;

use crate::accounts::Account;
use crate::bytes::{push_bytes, push_u32, u32_le};
use crate::error::{require, DidError, RegistryError};
use crate::instructions::shared::{
    check_mutation_accounts, ix_read_len_prefixed, ix_read_str, ix_read_u16, ix_read_u8,
    parse_document, read_u16_at, require_consumed, spec_mutation_accounts, str_at, Update,
};
use crate::model::{
    decode_document, doc_of, lemma_decoded_pieces, lemma_decoded_prefix, lemma_ser_vms_push,
    push_vm, ser_controllers, ser_document, ser_head, ser_service_section, ser_vm, ser_vms, sections_shape, Document, VerificationMethod,
};
use crate::rules::{authority_rule, fragment_used, lemma_authority_bridge, lemma_fragment_free_bridge};
use crate::state::{
    bytes_eq, expected_key_len, flags_allowed, lp_at, require_authority, require_fragment_free,
    spec_expected_key_len, spec_valid_fragment, valid_fragment, validate_vm_flags,
    Sections, ACCOUNT_DISCRIMINATOR, MAX_VERIFICATION_METHODS, OFF_SECTIONS, VM_FLAG_PROTECTED,
};

verus! {

/// The method that the arguments describe. Borsh args:
/// `VerificationMethod { fragment: String, method_type: u8, flags: u16,
/// key_data: Vec<u8> }`, with nothing after them, and a known method type.
pub open spec fn spec_vm_args(args: Seq<u8>) -> Result<VerificationMethod, RegistryError> {
    match str_at(args, 0) {
        None => Err(RegistryError::InvalidInstructionData),
        Some((fragment, o1)) => if o1 >= args.len() {
            Err(RegistryError::InvalidInstructionData)
        } else {
            match read_u16_at(args, o1 + 1) {
                None => Err(RegistryError::InvalidInstructionData),
                Some(flags) => match lp_at(args, o1 + 3) {
                    None => Err(RegistryError::InvalidInstructionData),
                    Some((key, end)) => if end != args.len() || spec_expected_key_len(
                        args[o1],
                    ) is None {
                        Err(RegistryError::InvalidInstructionData)
                    } else {
                        Ok(VerificationMethod { fragment, method_type: args[o1], flags, key })
                    },
                },
            }
        },
    }
}

/// When a document accepts a new method `vm` signed by `signer`: the signer
/// is an authority, there is room, the fragment is well formed and unused,
/// the key fits its type, the flags fit the key type, and a protected
/// method is the signer's own key.
pub open spec fn add_vm_rule(doc: Document, signer: Seq<u8>, vm: VerificationMethod) -> Result<
    (),
    RegistryError,
> {
    match authority_rule(doc, signer) {
        Err(e) => Err(e),
        Ok(_) => if doc.verification_methods.len() >= MAX_VERIFICATION_METHODS {
            Err(RegistryError::Domain(DidError::TooManyVerificationMethods))
        } else if !spec_valid_fragment(vm.fragment) {
            Err(RegistryError::Domain(DidError::InvalidFragment))
        } else if fragment_used(doc, vm.fragment) {
            Err(RegistryError::Domain(DidError::FragmentAlreadyInUse))
        } else if spec_expected_key_len(vm.method_type) != Some(vm.key.len() as usize) {
            Err(RegistryError::Domain(DidError::InvalidKeyLength))
        } else if !flags_allowed(vm.method_type, vm.flags) {
            Err(RegistryError::Domain(DidError::InvalidFlags))
        } else if vm.flags & VM_FLAG_PROTECTED != 0 && vm.key != signer {
            Err(RegistryError::Domain(DidError::ProtectedVerificationMethod))
        } else {
            Ok(())
        },
    }
}

/// The document with `vm` appended to its verification methods.
pub open spec fn with_vm(doc: Document, vm: VerificationMethod) -> Document {
    Document { verification_methods: doc.verification_methods.push(vm), ..doc }
}

/// What `add_verification_method` decides: on success, the subject and
/// the document the account holds afterwards (before `touch`).
pub open spec fn spec_add_verification_method(accounts: Seq<Account>, args: Seq<u8>) -> Result<
    (Seq<u8>, Document),
    RegistryError,
> {
    match spec_mutation_accounts(accounts) {
        Err(e) => Err(e),
        Ok(subject) => match spec_vm_args(args) {
            Err(e) => Err(e),
            Ok(vm) => match decode_document(accounts[2].data@) {
                None => Err(RegistryError::InvalidAccountData),
                Some(doc) => match add_vm_rule(doc, accounts[1].address@, vm) {
                    Err(e) => Err(e),
                    Ok(_) => Ok((subject, with_vm(doc, vm))),
                },
            },
        },
    }
}

/// Reads the arguments: fragment, method type, flags and key.
pub fn read_vm_args<'a>(args: &'a [u8]) -> (r: Result<(&'a [u8], u8, u16, &'a [u8]), RegistryError>)
    ensures
        match spec_vm_args(args@) {
            Ok(vm) => r is Ok && r->Ok_0.0@ == vm.fragment && r->Ok_0.1 == vm.method_type
                && r->Ok_0.2 == vm.flags && r->Ok_0.3@ == vm.key,
            Err(e) => r == Err::<(&[u8], u8, u16, &[u8]), RegistryError>(e),
        },
{
    // Borsh args: VerificationMethod { fragment, method_type, flags, key_data }
    let mut off: usize = 0;
    let fragment = ix_read_str(args, &mut off)?;
    let method_type = ix_read_u8(args, &mut off)?;
    let flags = ix_read_u16(args, &mut off)?;
    let key_data = ix_read_len_prefixed(args, &mut off)?;
    require_consumed(args, off)?;
    if expected_key_len(method_type).is_none() {
        return Err(RegistryError::InvalidInstructionData);
    }
    Ok((fragment, method_type, flags, key_data))
}

/// The serialization of a document with `vm` appended, from the pieces of
/// the serialization of the document.
proof fn lemma_with_vm_bytes(doc: Document, vm: VerificationMethod)
    requires
        doc.verification_methods.len() < u32::MAX,
    ensures
        ser_document(with_vm(doc, vm)) == (ser_head(doc) + ser_controllers(doc)) + u32_le(
            (doc.verification_methods.len() + 1) as u32,
        ) + ser_vms(doc.verification_methods) + ser_vm(vm) + ser_service_section(doc),
{
    let new_doc = with_vm(doc, vm);
    lemma_ser_vms_push(doc.verification_methods, vm);
    assert(ser_head(new_doc) == ser_head(doc));
    assert(ser_controllers(new_doc) == ser_controllers(doc));
    assert(ser_service_section(new_doc) == ser_service_section(doc));
    assert(ser_document(new_doc) =~= (ser_head(doc) + ser_controllers(doc)) + u32_le(
        (doc.verification_methods.len() + 1) as u32,
    ) + ser_vms(doc.verification_methods) + ser_vm(vm) + ser_service_section(doc));
}

/// The serialization of the decoded document with a method appended: the
/// services section moves right, the new entry fills the gap, and the
/// method count grows by one.
fn insert_vm_entry(
    data: &[u8],
    s: &Sections,
    fragment: &[u8],
    method_type: u8,
    flags: u16,
    key: &[u8],
) -> (out: Vec<u8>)
    requires
        sections_shape(data@, *s),
        data@.subrange(0, 8) == ACCOUNT_DISCRIMINATOR@,
        s.vm_count < MAX_VERIFICATION_METHODS,
        fragment@.len() <= u32::MAX,
        key@.len() <= u32::MAX,
    ensures
        out@ == ser_document(
            with_vm(
                doc_of(data@, *s),
                VerificationMethod { fragment: fragment@, method_type, flags, key: key@ },
            ),
        ),
{
    let ghost d = data@;
    let ghost vm = VerificationMethod { fragment: fragment@, method_type, flags, key: key@ };
    proof {
        lemma_decoded_pieces(d, *s);
        lemma_decoded_prefix(d, *s);
        lemma_with_vm_bytes(doc_of(d, *s), vm);
    }
    let mut out: Vec<u8> = Vec::new();
    push_bytes(&mut out, &data[0..s.vm_count_pos]);
    push_u32(&mut out, (s.vm_count + 1) as u32);
    push_bytes(&mut out, &data[s.vm_items..s.svc_count_pos]);
    push_vm(&mut out, fragment, method_type, flags, key);
    push_bytes(&mut out, &data[s.svc_count_pos..s.end]);
    assert(out@ =~= d.subrange(0, s.vm_count_pos as int) + u32_le((s.vm_count + 1) as u32)
        + d.subrange(s.vm_items as int, s.svc_count_pos as int) + ser_vm(vm) + d.subrange(
        s.svc_count_pos as int,
        s.end as int,
    ));
    out
}

/// Applies the rules of adding `vm` to the document that `data` holds, on
/// behalf of `signer`; on success, the serialization of the document with
/// the method appended.
pub fn add_vm_to(
    data: &[u8],
    signer: &[u8; 32],
    fragment: &[u8],
    method_type: u8,
    flags: u16,
    key: &[u8],
) -> (r: Result<Vec<u8>, RegistryError>)
    requires
        data@.len() >= OFF_SECTIONS,
        data@.subrange(0, 8) == ACCOUNT_DISCRIMINATOR@,
    ensures
        ({
            let vm = VerificationMethod { fragment: fragment@, method_type, flags, key: key@ };
            match decode_document(data@) {
                None => r == Err::<Vec<u8>, RegistryError>(RegistryError::InvalidAccountData),
                Some(doc) => match add_vm_rule(doc, signer@, vm) {
                    Err(e) => r == Err::<Vec<u8>, RegistryError>(e),
                    Ok(_) => r is Ok && r->Ok_0@ == ser_document(with_vm(doc, vm)),
                },
            }
        }),
{
    let ghost vm = VerificationMethod { fragment: fragment@, method_type, flags, key: key@ };
    let s = parse_document(data)?;
    let ghost doc = doc_of(data@, s);
    proof {
        lemma_authority_bridge(data@, s, signer@);
        lemma_fragment_free_bridge(data@, s, fragment@);
    }
    require_authority(data, &s, signer)?;
    require(s.vm_count < MAX_VERIFICATION_METHODS, DidError::TooManyVerificationMethods)?;
    require(valid_fragment(fragment), DidError::InvalidFragment)?;
    require_fragment_free(data, &s, fragment)?;
    let expected_len = expected_key_len(method_type);
    let fits = match expected_len {
        Some(n) => key.len() == n,
        None => false,
    };
    require(fits, DidError::InvalidKeyLength)?;
    validate_vm_flags(method_type, flags)?;
    // A method may only be born protected if it belongs to the signer,
    // so no co-authority can plant an unremovable key.
    if flags & VM_FLAG_PROTECTED != 0 {
        require(bytes_eq(key, signer.as_slice()), DidError::ProtectedVerificationMethod)?;
    }
    assert(add_vm_rule(doc, signer@, vm) == Ok::<(), RegistryError>(()));
    let out = insert_vm_entry(data, &s, fragment, method_type, flags, key);
    Ok(out)
}

/// Add a verification method: validates the accounts, the arguments and
/// the rules, and returns the account's new content, which holds the
/// method appended to the verification method section.
pub fn process(accounts: &[Account], args: &[u8]) -> (r: Result<Update, RegistryError>)
    ensures
        match spec_add_verification_method(accounts@, args@) {
            Ok((subject, doc)) => r is Ok && r->Ok_0.subject@ == subject && r->Ok_0.data@
                == ser_document(doc),
            Err(e) => r == Err::<Update, RegistryError>(e),
        },
{
    let subject = check_mutation_accounts(accounts)?;
    let (fragment, method_type, flags, key_data) = read_vm_args(args)?;
    let data = add_vm_to(
        accounts[2].data.as_slice(),
        &accounts[1].address,
        fragment,
        method_type,
        flags,
        key_data,
    )?;
    Ok(Update { subject, data })
}

} // verus!
