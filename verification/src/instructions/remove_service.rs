//! Remove a service endpoint by fragment (authority required). The account
//! shrinks by the entry's size; the freed rent goes to the payer.

use vstd::prelude::*;

use crate::accounts::Account;
use crate::bytes::{push_bytes, push_u32, u32_le};
use crate::error::{DidError, RegistryError};
use crate::instructions::shared::{
    check_mutation_accounts, parse_document, read_fragment_arg, spec_fragment_arg,
    spec_mutation_accounts, Update,
};
use crate::model::{
    decode_document, doc_of, lemma_decoded_pieces, lemma_decoded_prefix,
    lemma_ser_services_remove, lemma_split2, lemma_svc_split, sections_shape, ser_controllers,
    ser_document, ser_head, ser_services, ser_vm_section, Document,
};
use crate::rules::{
    authority_rule, lemma_authority_bridge, lemma_find_service_bridge, svc_fragment_used,
    svc_position,
};
use crate::state::{
    find_service, require_authority, services_of, Sections, ACCOUNT_DISCRIMINATOR, OFF_SECTIONS,
};

verus! {

/// When a document lets `signer` remove the service with fragment `f`: on
/// success, the position of that service.
pub open spec fn remove_service_rule(doc: Document, signer: Seq<u8>, f: Seq<u8>) -> Result<
    int,
    RegistryError,
> {
    match authority_rule(doc, signer) {
        Err(e) => Err(e),
        Ok(_) => if !svc_fragment_used(doc.services, f) {
            Err(RegistryError::Domain(DidError::ServiceNotFound))
        } else {
            Ok(svc_position(doc.services, f))
        },
    }
}

/// The document without its `k`-th service.
pub open spec fn without_service(doc: Document, k: int) -> Document {
    Document { services: doc.services.remove(k), ..doc }
}

/// What `remove_service` decides: on success, the subject and the document
/// the account holds afterwards (before `touch`).
pub open spec fn spec_remove_service(accounts: Seq<Account>, args: Seq<u8>) -> Result<
    (Seq<u8>, Document),
    RegistryError,
> {
    match spec_mutation_accounts(accounts) {
        Err(e) => Err(e),
        Ok(subject) => match spec_fragment_arg(args) {
            Err(e) => Err(e),
            Ok(f) => match decode_document(accounts[2].data@) {
                None => Err(RegistryError::InvalidAccountData),
                Some(doc) => match remove_service_rule(doc, accounts[1].address@, f) {
                    Err(e) => Err(e),
                    Ok(k) => Ok((subject, without_service(doc, k))),
                },
            },
        },
    }
}

/// The serialization of a document without its `k`-th service, from the
/// pieces of the serialization of the document.
proof fn lemma_without_service_bytes(doc: Document, k: int)
    requires
        0 <= k < doc.services.len() <= u32::MAX,
    ensures
        ser_document(without_service(doc, k)) == (ser_head(doc) + ser_controllers(doc)
            + ser_vm_section(doc)) + u32_le((doc.services.len() - 1) as u32) + ser_services(
            doc.services.take(k),
        ) + ser_services(doc.services.skip(k + 1)),
{
    let svcs = doc.services;
    let new_doc = without_service(doc, k);
    lemma_ser_services_remove(svcs, k);
    assert(ser_head(new_doc) == ser_head(doc));
    assert(ser_controllers(new_doc) == ser_controllers(doc));
    assert(ser_vm_section(new_doc) == ser_vm_section(doc));
    assert(ser_document(new_doc) =~= (ser_head(doc) + ser_controllers(doc) + ser_vm_section(doc))
        + u32_le((svcs.len() - 1) as u32) + ser_services(svcs.take(k)) + ser_services(
        svcs.skip(k + 1),
    ));
}

/// The serialization of the decoded document without its `k`-th service,
/// whose entry spans `start..end`: the entry's span closes up, and the
/// service count drops by one.
fn close_service_entry(data: &[u8], s: &Sections, Ghost(k): Ghost<int>, start: usize, end: usize) -> (out:
    Vec<u8>)
    requires
        sections_shape(data@, *s),
        data@.subrange(0, 8) == ACCOUNT_DISCRIMINATOR@,
        0 <= k < s.svc_count,
        start == services_of(data@, *s)[k].start,
        end == services_of(data@, *s)[k].end,
    ensures
        out@ == ser_document(without_service(doc_of(data@, *s), k)),
{
    let ghost d = data@;
    proof {
        lemma_decoded_pieces(d, *s);
        lemma_svc_split(d, *s, k);
        lemma_decoded_prefix(d, *s);
        lemma_split2(d, 0, s.vm_count_pos as int, s.svc_count_pos as int);
        lemma_without_service_bytes(doc_of(d, *s), k);
    }
    let mut out: Vec<u8> = Vec::new();
    push_bytes(&mut out, &data[0..s.svc_count_pos]);
    push_u32(&mut out, (s.svc_count - 1) as u32);
    push_bytes(&mut out, &data[s.svc_items..start]);
    push_bytes(&mut out, &data[end..s.end]);
    assert(out@ =~= d.subrange(0, s.svc_count_pos as int) + u32_le((s.svc_count - 1) as u32)
        + d.subrange(s.svc_items as int, start as int) + d.subrange(end as int, s.end as int));
    out
}

/// Applies the rules of removing the service with fragment `fragment` from
/// the document that `data` holds, on behalf of `signer`; on success, the
/// serialization of the document without it.
pub fn remove_service_from(data: &[u8], signer: &[u8; 32], fragment: &[u8]) -> (r: Result<
    Vec<u8>,
    RegistryError,
>)
    requires
        data@.len() >= OFF_SECTIONS,
        data@.subrange(0, 8) == ACCOUNT_DISCRIMINATOR@,
    ensures
        match decode_document(data@) {
            None => r == Err::<Vec<u8>, RegistryError>(RegistryError::InvalidAccountData),
            Some(doc) => match remove_service_rule(doc, signer@, fragment@) {
                Err(e) => r == Err::<Vec<u8>, RegistryError>(e),
                Ok(k) => r is Ok && r->Ok_0@ == ser_document(without_service(doc, k)),
            },
        },
{
    let s = parse_document(data)?;
    let ghost d = data@;
    let ghost doc = doc_of(d, s);
    proof {
        lemma_authority_bridge(d, s, signer@);
        lemma_find_service_bridge(d, s, fragment@);
    }
    require_authority(data, &s, signer)?;
    let found = find_service(data, &s, fragment)?;
    let svc = match found {
        Some(svc) => svc,
        None => return Err(RegistryError::Domain(DidError::ServiceNotFound)),
    };
    let ghost k = svc_position(doc.services, fragment@);
    assert(svc.start == services_of(d, s)[k].start && svc.end == services_of(d, s)[k].end);
    assert(k < s.svc_count);
    let out = close_service_entry(data, &s, Ghost(k), svc.start, svc.end);
    Ok(out)
}

/// Remove a service: validates the accounts, the argument and the rules,
/// and returns the account's new content, which no longer holds the
/// service.
pub fn process(accounts: &[Account], args: &[u8]) -> (r: Result<Update, RegistryError>)
    ensures
        match spec_remove_service(accounts@, args@) {
            Ok((subject, doc)) => r is Ok && r->Ok_0.subject@ == subject && r->Ok_0.data@
                == ser_document(doc),
            Err(e) => r == Err::<Update, RegistryError>(e),
        },
{
    let subject = check_mutation_accounts(accounts)?;
    let fragment = read_fragment_arg(args)?;
    let data = remove_service_from(accounts[2].data.as_slice(), &accounts[1].address, fragment)?;
    Ok(Update { subject, data })
}

} // verus!
