//! Permanently deactivate a DID (authority required). The account shrinks
//! to a minimal tombstone that keeps `deactivated = true` forever; unlike
//! closing the account, the DID can never resurrect as a generative
//! document. The freed rent goes to the payer.

use vstd::prelude::*;

use crate::accounts::Account;
use crate::bytes::{push_bytes, push_u32, u32_le};
use crate::error::RegistryError;
use crate::instructions::shared::{check_mutation_accounts, parse_document, spec_mutation_accounts, Update};
use crate::model::{
    decode_document, doc_of, lemma_decoded_prefix, ser_document, ser_head, Document,
};
use crate::rules::{authority_rule, lemma_authority_bridge};
use crate::state::{require_authority, ACCOUNT_DISCRIMINATOR, OFF_DEACTIVATED, OFF_SECTIONS};

verus! {

/// The tombstone of a document: deactivated, with all four vectors empty.
pub open spec fn tombstone(doc: Document) -> Document {
    Document {
        deactivated: 1,
        native_controllers: seq![],
        other_controllers: seq![],
        verification_methods: seq![],
        services: seq![],
        ..doc
    }
}

/// What `deactivate` decides: on success, the subject and the tombstone
/// the account holds afterwards (before `touch`). The instruction takes no
/// arguments.
pub open spec fn spec_deactivate(accounts: Seq<Account>, args: Seq<u8>) -> Result<
    (Seq<u8>, Document),
    RegistryError,
> {
    match spec_mutation_accounts(accounts) {
        Err(e) => Err(e),
        Ok(subject) => if args.len() != 0 {
            Err(RegistryError::InvalidInstructionData)
        } else {
            match decode_document(accounts[2].data@) {
                None => Err(RegistryError::InvalidAccountData),
                Some(doc) => match authority_rule(doc, accounts[1].address@) {
                    Err(e) => Err(e),
                    Ok(_) => Ok((subject, tombstone(doc))),
                },
            }
        },
    }
}

/// The serialization of a tombstone: the head with the deactivation byte
/// set, and four zero counts.
proof fn lemma_tombstone_bytes(doc: Document)
    requires
        doc.subject.len() == 32,
    ensures
        ser_document(tombstone(doc)) == ser_head(doc).subrange(0, OFF_DEACTIVATED as int)
            + seq![1u8] + ser_head(doc).subrange(OFF_DEACTIVATED + 1, OFF_SECTIONS as int)
            + u32_le(0) + u32_le(0) + u32_le(0) + u32_le(0),
{
    let t = tombstone(doc);
    assert(ser_head(doc).len() == OFF_SECTIONS) by {
        crate::bytes::lemma_u64_le(doc.version);
        crate::bytes::lemma_i64_le(doc.updated_at);
    }
    assert(ser_head(t) =~= ser_head(doc).subrange(0, OFF_DEACTIVATED as int) + seq![1u8]
        + ser_head(doc).subrange(OFF_DEACTIVATED + 1, OFF_SECTIONS as int));
    assert(ser_document(t) =~= ser_head(t) + u32_le(0) + u32_le(0) + u32_le(0) + u32_le(0));
}

/// Applies the rules of deactivating the document that `data` holds, on
/// behalf of `signer`; on success, the serialization of its tombstone.
pub fn deactivate_in(data: &[u8], signer: &[u8; 32]) -> (r: Result<Vec<u8>, RegistryError>)
    requires
        data@.len() >= OFF_SECTIONS,
        data@.subrange(0, 8) == ACCOUNT_DISCRIMINATOR@,
    ensures
        match decode_document(data@) {
            None => r == Err::<Vec<u8>, RegistryError>(RegistryError::InvalidAccountData),
            Some(doc) => match authority_rule(doc, signer@) {
                Err(e) => r == Err::<Vec<u8>, RegistryError>(e),
                Ok(_) => r is Ok && r->Ok_0@ == ser_document(tombstone(doc)),
            },
        },
{
    let s = parse_document(data)?;
    let ghost d = data@;
    let ghost doc = doc_of(d, s);
    proof {
        lemma_authority_bridge(d, s, signer@);
        lemma_decoded_prefix(d, s);
        lemma_tombstone_bytes(doc);
    }
    require_authority(data, &s, signer)?;
    // Empty all four vectors: the 16 count bytes become the whole tail.
    let mut out: Vec<u8> = Vec::new();
    push_bytes(&mut out, &data[0..OFF_DEACTIVATED]);
    out.push(1u8);
    push_bytes(&mut out, &data[OFF_DEACTIVATED + 1..OFF_SECTIONS]);
    push_u32(&mut out, 0);
    push_u32(&mut out, 0);
    push_u32(&mut out, 0);
    push_u32(&mut out, 0);
    proof {
        let head = ser_head(doc);
        assert(d.subrange(0, OFF_DEACTIVATED as int) =~= head.subrange(0, OFF_DEACTIVATED as int));
        assert(d.subrange(OFF_DEACTIVATED + 1, OFF_SECTIONS as int) =~= head.subrange(
            OFF_DEACTIVATED + 1,
            OFF_SECTIONS as int,
        ));
    }
    assert(out@ =~= ser_document(tombstone(doc)));
    Ok(out)
}

/// Deactivate: validates the accounts, the (empty) arguments and the
/// authority, and returns the account's new content, the tombstone.
pub fn process(accounts: &[Account], args: &[u8]) -> (r: Result<Update, RegistryError>)
    ensures
        match spec_deactivate(accounts@, args@) {
            Ok((subject, doc)) => r is Ok && r->Ok_0.subject@ == subject && r->Ok_0.data@
                == ser_document(doc),
            Err(e) => r == Err::<Update, RegistryError>(e),
        },
{
    let subject = check_mutation_accounts(accounts)?;
    if args.len() != 0 {
        return Err(RegistryError::InvalidInstructionData);
    }
    let data = deactivate_in(accounts[2].data.as_slice(), &accounts[1].address)?;
    Ok(Update { subject, data })
}

} // verus!
