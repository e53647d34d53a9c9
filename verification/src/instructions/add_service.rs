//! Add a service endpoint (authority required). Services live at the tail
//! of the account, so this is a pure append: no bytes move.

use vstd::prelude::*;

use crate::accounts::Account;
use crate::bytes::{push_bytes, push_u32, u32_le};
use crate::error::{require, DidError, RegistryError};
use crate::instructions::shared::{
    check_mutation_accounts, ix_read_str, parse_document, require_consumed,
    spec_mutation_accounts, str_at, Update,
};
use crate::model::{
    decode_document, doc_of, lemma_decoded_pieces, lemma_decoded_prefix, lemma_ser_services_push,
    lemma_split2, push_service, sections_shape, ser_controllers, ser_document, ser_head,
    ser_service, ser_services, ser_vm_section, Document, Service,
};
use crate::rules::{authority_rule, fragment_used, lemma_authority_bridge, lemma_fragment_free_bridge};
use crate::state::{
    require_authority, require_fragment_free, spec_valid_fragment, spec_valid_uri_ascii,
    valid_fragment, valid_uri_ascii, Sections, ACCOUNT_DISCRIMINATOR, MAX_ENDPOINT_LEN,
    MAX_SERVICES, MAX_SERVICE_TYPE_LEN, OFF_SECTIONS,
};

verus! {

/// The service that the arguments describe. Borsh args:
/// `Service { fragment: String, service_type: String, endpoint: String }`,
/// with nothing after them.
pub open spec fn spec_service_args(args: Seq<u8>) -> Result<Service, RegistryError> {
    match str_at(args, 0) {
        None => Err(RegistryError::InvalidInstructionData),
        Some((fragment, o1)) => match str_at(args, o1) {
            None => Err(RegistryError::InvalidInstructionData),
            Some((service_type, o2)) => match str_at(args, o2) {
                None => Err(RegistryError::InvalidInstructionData),
                Some((endpoint, o3)) => if o3 == args.len() {
                    Ok(Service { fragment, service_type, endpoint })
                } else {
                    Err(RegistryError::InvalidInstructionData)
                },
            },
        },
    }
}

/// When a document accepts a new service `svc` signed by `signer`: the
/// signer is an authority, there is room, the fragment is well formed and
/// unused, and the type and endpoint are bounded printable ASCII.
pub open spec fn add_service_rule(doc: Document, signer: Seq<u8>, svc: Service) -> Result<
    (),
    RegistryError,
> {
    match authority_rule(doc, signer) {
        Err(e) => Err(e),
        Ok(_) => if doc.services.len() >= MAX_SERVICES {
            Err(RegistryError::Domain(DidError::TooManyServices))
        } else if !spec_valid_fragment(svc.fragment) {
            Err(RegistryError::Domain(DidError::InvalidFragment))
        } else if fragment_used(doc, svc.fragment) {
            Err(RegistryError::Domain(DidError::FragmentAlreadyInUse))
        } else if !spec_valid_uri_ascii(svc.service_type, MAX_SERVICE_TYPE_LEN) {
            Err(RegistryError::Domain(DidError::InvalidServiceValue))
        } else if !spec_valid_uri_ascii(svc.endpoint, MAX_ENDPOINT_LEN) {
            Err(RegistryError::Domain(DidError::InvalidServiceValue))
        } else {
            Ok(())
        },
    }
}

/// The document with `svc` appended to its services.
pub open spec fn with_service(doc: Document, svc: Service) -> Document {
    Document { services: doc.services.push(svc), ..doc }
}

/// What `add_service` decides: on success, the subject and the document
/// the account holds afterwards (before `touch`).
pub open spec fn spec_add_service(accounts: Seq<Account>, args: Seq<u8>) -> Result<
    (Seq<u8>, Document),
    RegistryError,
> {
    match spec_mutation_accounts(accounts) {
        Err(e) => Err(e),
        Ok(subject) => match spec_service_args(args) {
            Err(e) => Err(e),
            Ok(svc) => match decode_document(accounts[2].data@) {
                None => Err(RegistryError::InvalidAccountData),
                Some(doc) => match add_service_rule(doc, accounts[1].address@, svc) {
                    Err(e) => Err(e),
                    Ok(_) => Ok((subject, with_service(doc, svc))),
                },
            },
        },
    }
}

/// Reads the arguments: fragment, service type and endpoint.
pub fn read_service_args<'a>(args: &'a [u8]) -> (r: Result<(&'a [u8], &'a [u8], &'a [u8]), RegistryError>)
    ensures
        match spec_service_args(args@) {
            Ok(svc) => r is Ok && r->Ok_0.0@ == svc.fragment && r->Ok_0.1@ == svc.service_type
                && r->Ok_0.2@ == svc.endpoint,
            Err(e) => r == Err::<(&[u8], &[u8], &[u8]), RegistryError>(e),
        },
{
    // Borsh args: Service { fragment, service_type, endpoint }
    let mut off: usize = 0;
    let fragment = ix_read_str(args, &mut off)?;
    let service_type = ix_read_str(args, &mut off)?;
    let endpoint = ix_read_str(args, &mut off)?;
    require_consumed(args, off)?;
    Ok((fragment, service_type, endpoint))
}

/// The serialization of a document with `svc` appended, from the pieces of
/// the serialization of the document.
proof fn lemma_with_service_bytes(doc: Document, svc: Service)
    requires
        doc.services.len() < u32::MAX,
    ensures
        ser_document(with_service(doc, svc)) == ser_head(doc) + ser_controllers(doc)
            + ser_vm_section(doc) + u32_le((doc.services.len() + 1) as u32) + ser_services(
            doc.services,
        ) + ser_service(svc),
{
    let new_doc = with_service(doc, svc);
    lemma_ser_services_push(doc.services, svc);
    assert(ser_head(new_doc) == ser_head(doc));
    assert(ser_controllers(new_doc) == ser_controllers(doc));
    assert(ser_vm_section(new_doc) == ser_vm_section(doc));
    assert(ser_document(new_doc) =~= ser_head(doc) + ser_controllers(doc) + ser_vm_section(doc)
        + u32_le((doc.services.len() + 1) as u32) + ser_services(doc.services) + ser_service(svc));
}

/// The bytes of a decoded document before its service section, and its
/// services.
proof fn lemma_service_prefix(d: Seq<u8>, s: Sections)
    requires
        sections_shape(d, s),
        d.subrange(0, 8) == ACCOUNT_DISCRIMINATOR@,
    ensures
        s.svc_count_pos + 4 == s.svc_items,
        s.svc_items <= s.end <= d.len(),
        d.subrange(0, s.svc_count_pos as int) == ser_head(doc_of(d, s)) + ser_controllers(
            doc_of(d, s),
        ) + ser_vm_section(doc_of(d, s)),
        d.subrange(s.svc_items as int, s.end as int) == ser_services(doc_of(d, s).services),
        doc_of(d, s).services.len() == s.svc_count,
{
    lemma_decoded_pieces(d, s);
    lemma_decoded_prefix(d, s);
    lemma_split2(d, 0, s.vm_count_pos as int, s.svc_count_pos as int);
}

/// Applies the rules of adding `svc` to the document that `data` holds, on
/// behalf of `signer`; on success, the serialization of the document with
/// the service appended.
pub fn add_service_to(
    data: &[u8],
    signer: &[u8; 32],
    fragment: &[u8],
    service_type: &[u8],
    endpoint: &[u8],
) -> (r: Result<Vec<u8>, RegistryError>)
    requires
        data@.len() >= OFF_SECTIONS,
        data@.subrange(0, 8) == ACCOUNT_DISCRIMINATOR@,
    ensures
        ({
            let svc = Service {
                fragment: fragment@,
                service_type: service_type@,
                endpoint: endpoint@,
            };
            match decode_document(data@) {
                None => r == Err::<Vec<u8>, RegistryError>(RegistryError::InvalidAccountData),
                Some(doc) => match add_service_rule(doc, signer@, svc) {
                    Err(e) => r == Err::<Vec<u8>, RegistryError>(e),
                    Ok(_) => r is Ok && r->Ok_0@ == ser_document(with_service(doc, svc)),
                },
            }
        }),
{
    let ghost svc = Service { fragment: fragment@, service_type: service_type@, endpoint: endpoint@ };
    let s = parse_document(data)?;
    let ghost d = data@;
    let ghost doc = doc_of(d, s);
    proof {
        lemma_authority_bridge(d, s, signer@);
        lemma_fragment_free_bridge(d, s, fragment@);
        lemma_service_prefix(d, s);
    }
    require_authority(data, &s, signer)?;
    require(s.svc_count < MAX_SERVICES, DidError::TooManyServices)?;
    require(valid_fragment(fragment), DidError::InvalidFragment)?;
    require_fragment_free(data, &s, fragment)?;
    require(valid_uri_ascii(service_type, MAX_SERVICE_TYPE_LEN), DidError::InvalidServiceValue)?;
    require(valid_uri_ascii(endpoint, MAX_ENDPOINT_LEN), DidError::InvalidServiceValue)?;
    assert(add_service_rule(doc, signer@, svc) == Ok::<(), RegistryError>(()));

    // The new entry goes at the end, and the service count grows by one.
    let mut out: Vec<u8> = Vec::new();
    push_bytes(&mut out, &data[0..s.svc_count_pos]);
    push_u32(&mut out, (s.svc_count + 1) as u32);
    push_bytes(&mut out, &data[s.svc_items..s.end]);
    push_service(&mut out, fragment, service_type, endpoint);
    proof {
        lemma_with_service_bytes(doc, svc);
    }
    assert(out@ =~= ser_document(with_service(doc, svc)));
    Ok(out)
}

/// Add a service: validates the accounts, the arguments and the rules, and
/// returns the account's new content, which holds the service appended to
/// the service section.
pub fn process(accounts: &[Account], args: &[u8]) -> (r: Result<Update, RegistryError>)
    ensures
        match spec_add_service(accounts@, args@) {
            Ok((subject, doc)) => r is Ok && r->Ok_0.subject@ == subject && r->Ok_0.data@
                == ser_document(doc),
            Err(e) => r == Err::<Update, RegistryError>(e),
        },
{
    let subject = check_mutation_accounts(accounts)?;
    let (fragment, service_type, endpoint) = read_service_args(args)?;
    let data = add_service_to(
        accounts[2].data.as_slice(),
        &accounts[1].address,
        fragment,
        service_type,
        endpoint,
    )?;
    Ok(Update { subject, data })
}

} // verus!
