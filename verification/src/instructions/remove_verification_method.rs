//! Remove a verification method by fragment (authority required). The
//! account shrinks by the entry's size; the freed rent goes to the payer.

use vstd::prelude::*;

use crate::accounts::Account;
use crate::bytes::{push_bytes, push_u32, u32_le};
use crate::error::{require, DidError, RegistryError};
use crate::instructions::shared::{
    check_mutation_accounts, parse_document, read_fragment_arg, spec_fragment_arg,
    spec_mutation_accounts, Update,
};
use crate::model::{
    decode_document, doc_of, sections_shape, lemma_decoded_pieces, lemma_decoded_prefix, lemma_ser_vms_remove, lemma_split2, lemma_vm_split, vm_model, ser_controllers, ser_document, ser_head, ser_service_section,
    ser_vm_section, ser_vms, Document,
};
use crate::rules::{
    authorities, authority_rule, lemma_authority_bridge,
    lemma_find_vm_bridge, vm_fragment_used, vm_is_authority, vm_position,
};
use crate::state::{
    authority_count, bytes_eq, find_vm, require_authority, vms_of, Sections, ACCOUNT_DISCRIMINATOR,
    OFF_SECTIONS, VM_FLAG_CAPABILITY_INVOCATION, VM_FLAG_PROTECTED, VM_TYPE_ED25519,
};

verus! {

/// When a document lets `signer` remove the method with fragment `f`: on
/// success, the position of that method. The method must exist; a
/// protected one goes only by its own key; the last update authority
/// never goes.
pub open spec fn remove_vm_rule(doc: Document, signer: Seq<u8>, f: Seq<u8>) -> Result<
    int,
    RegistryError,
> {
    let vms = doc.verification_methods;
    match authority_rule(doc, signer) {
        Err(e) => Err(e),
        Ok(_) => if !vm_fragment_used(vms, f) {
            Err(RegistryError::Domain(DidError::VerificationMethodNotFound))
        } else {
            let k = vm_position(vms, f);
            if vms[k].flags & VM_FLAG_PROTECTED != 0 && vms[k].key != signer {
                Err(RegistryError::Domain(DidError::ProtectedVerificationMethod))
            } else if vm_is_authority(vms[k]) && authorities(vms) <= 1 {
                Err(RegistryError::Domain(DidError::LastAuthority))
            } else {
                Ok(k)
            }
        },
    }
}

/// The document without its `k`-th method.
pub open spec fn without_vm(doc: Document, k: int) -> Document {
    Document { verification_methods: doc.verification_methods.remove(k), ..doc }
}

/// What `remove_verification_method` decides: on success, the subject and
/// the document the account holds afterwards (before `touch`).
pub open spec fn spec_remove_verification_method(accounts: Seq<Account>, args: Seq<u8>) -> Result<
    (Seq<u8>, Document),
    RegistryError,
> {
    match spec_mutation_accounts(accounts) {
        Err(e) => Err(e),
        Ok(subject) => match spec_fragment_arg(args) {
            Err(e) => Err(e),
            Ok(f) => match decode_document(accounts[2].data@) {
                None => Err(RegistryError::InvalidAccountData),
                Some(doc) => match remove_vm_rule(doc, accounts[1].address@, f) {
                    Err(e) => Err(e),
                    Ok(k) => Ok((subject, without_vm(doc, k))),
                },
            },
        },
    }
}

/// The serialization of a document without its `k`-th method, from the
/// pieces of the serialization of the document.
proof fn lemma_without_vm_bytes(doc: Document, k: int)
    requires
        0 <= k < doc.verification_methods.len() <= u32::MAX,
    ensures
        ser_document(without_vm(doc, k)) == (ser_head(doc) + ser_controllers(doc)) + u32_le(
            (doc.verification_methods.len() - 1) as u32,
        ) + ser_vms(doc.verification_methods.take(k)) + (ser_vms(
            doc.verification_methods.skip(k + 1),
        ) + ser_service_section(doc)),
{
    let vms = doc.verification_methods;
    let new_doc = without_vm(doc, k);
    lemma_ser_vms_remove(vms, k);
    assert(ser_vm_section(new_doc) == u32_le((vms.len() - 1) as u32) + ser_vms(vms.take(k))
        + ser_vms(vms.skip(k + 1)));
    assert(ser_document(new_doc) =~= (ser_head(doc) + ser_controllers(doc)) + u32_le(
        (vms.len() - 1) as u32,
    ) + ser_vms(vms.take(k)) + (ser_vms(vms.skip(k + 1)) + ser_service_section(doc)));
}

/// The serialization of the decoded document without its `k`-th method,
/// whose entry spans `start..end`: the entry's span closes up, and the
/// method count drops by one.
fn close_vm_entry(data: &[u8], s: &Sections, Ghost(k): Ghost<int>, start: usize, end: usize) -> (out:
    Vec<u8>)
    requires
        sections_shape(data@, *s),
        data@.subrange(0, 8) == ACCOUNT_DISCRIMINATOR@,
        0 <= k < s.vm_count,
        start == vms_of(data@, *s)[k].start,
        end == vms_of(data@, *s)[k].end,
    ensures
        out@ == ser_document(without_vm(doc_of(data@, *s), k)),
{
    let ghost d = data@;
    proof {
        lemma_decoded_pieces(d, *s);
        lemma_vm_split(d, *s, k);
        lemma_decoded_prefix(d, *s);
        lemma_split2(d, end as int, s.svc_count_pos as int, s.end as int);
        lemma_without_vm_bytes(doc_of(d, *s), k);
    }
    let mut out: Vec<u8> = Vec::new();
    push_bytes(&mut out, &data[0..s.vm_count_pos]);
    push_u32(&mut out, (s.vm_count - 1) as u32);
    push_bytes(&mut out, &data[s.vm_items..start]);
    push_bytes(&mut out, &data[end..s.end]);
    assert(out@ =~= d.subrange(0, s.vm_count_pos as int) + u32_le((s.vm_count - 1) as u32)
        + d.subrange(s.vm_items as int, start as int) + (d.subrange(
        end as int,
        s.svc_count_pos as int,
    ) + d.subrange(s.svc_count_pos as int, s.end as int)));
    out
}

/// Applies the rules of removing the method with fragment `fragment` from
/// the document that `data` holds, on behalf of `signer`; on success, the
/// serialization of the document without it.
pub fn remove_vm_from(data: &[u8], signer: &[u8; 32], fragment: &[u8]) -> (r: Result<
    Vec<u8>,
    RegistryError,
>)
    requires
        data@.len() >= OFF_SECTIONS,
        data@.subrange(0, 8) == ACCOUNT_DISCRIMINATOR@,
    ensures
        match decode_document(data@) {
            None => r == Err::<Vec<u8>, RegistryError>(RegistryError::InvalidAccountData),
            Some(doc) => match remove_vm_rule(doc, signer@, fragment@) {
                Err(e) => r == Err::<Vec<u8>, RegistryError>(e),
                Ok(k) => r is Ok && r->Ok_0@ == ser_document(without_vm(doc, k)),
            },
        },
{
    let s = parse_document(data)?;
    let ghost d = data@;
    let ghost doc = doc_of(d, s);
    let ghost vms = doc.verification_methods;
    proof {
        lemma_authority_bridge(d, s, signer@);
        lemma_find_vm_bridge(d, s, fragment@);
        crate::rules::lemma_count_bridge(vms_of(d, s));
    }
    require_authority(data, &s, signer)?;
    let found = find_vm(data, &s, fragment)?;
    let vm = match found {
        Some(vm) => vm,
        None => return Err(RegistryError::Domain(DidError::VerificationMethodNotFound)),
    };
    let ghost k = vm_position(vms, fragment@);
    assert(vm@ == vms_of(d, s)[k]);
    assert(vms[k] == vm_model(vm@) && k < s.vm_count);
    // Protected methods may only be removed by their own key.
    if vm.flags & VM_FLAG_PROTECTED != 0 {
        require(bytes_eq(vm.key, signer.as_slice()), DidError::ProtectedVerificationMethod)?;
    }
    // Never orphan the DID: at least one capabilityInvocation Ed25519
    // key must survive the removal.
    if vm.method_type == VM_TYPE_ED25519 && vm.flags & VM_FLAG_CAPABILITY_INVOCATION != 0 {
        let count = authority_count(data, &s)?;
        require(count > 1, DidError::LastAuthority)?;
    }
    assert(remove_vm_rule(doc, signer@, fragment@) == Ok::<int, RegistryError>(k));

    let out = close_vm_entry(data, &s, Ghost(k), vm.start, vm.end);
    Ok(out)
}

/// Remove a verification method: validates the accounts, the argument and
/// the rules, and returns the account's new content, which no longer holds
/// the method.
pub fn process(accounts: &[Account], args: &[u8]) -> (r: Result<Update, RegistryError>)
    ensures
        match spec_remove_verification_method(accounts@, args@) {
            Ok((subject, doc)) => r is Ok && r->Ok_0.subject@ == subject && r->Ok_0.data@
                == ser_document(doc),
            Err(e) => r == Err::<Update, RegistryError>(e),
        },
{
    let subject = check_mutation_accounts(accounts)?;
    let fragment = read_fragment_arg(args)?;
    let data = remove_vm_from(accounts[2].data.as_slice(), &accounts[1].address, fragment)?;
    Ok(Update { subject, data })
}

} // verus!
