//! Materialize the on-chain account for `did:bio:<base58(subject)>`.
//!
//! Permissionless: any payer may create the account (sponsored creation),
//! but the stored document is exactly the generative default - the subject
//! key itself is the only verification method and only authority - so a
//! third party initializer gains no control.

use vstd::prelude::*;

use crate::accounts::{
    check_payer, check_system_program, spec_check_payer, spec_check_system_program, Account,
};
use crate::address::{find_program_address, found_address, is_on_curve, on_curve, registry_id,
    registry_program_id, seeds_view, system_id, system_program_id,
};
use crate::bytes::{push_bytes, push_i64, push_u32, push_u64};
use crate::error::RegistryError;
use crate::instructions::shared::after_check;
use crate::model::{ser_document, Document, VerificationMethod};
use crate::state::{
    bytes_eq, ACCOUNT_DISCRIMINATOR, DEFAULT_FRAGMENT, DID_SEED, INITIAL_SPACE, VM_FLAGS_DEFAULT,
    VM_TYPE_ED25519,
};

verus! {

/// What creating a DID account decided: the subject, the key of its first
/// authority, and the bump of the account's address.
#[derive(Clone, Copy, Debug)]
pub struct Creation {
    pub subject: [u8; 32],
    pub authority: [u8; 32],
    pub bump: u8,
}

/// The seeds of a DID account's address, before the bump.
pub open spec fn did_base_seeds(subject: Seq<u8>) -> Seq<Seq<u8>> {
    seq![DID_SEED@, subject]
}

/// The document a new DID account holds: version 1, active, no
/// controllers or services, and one verification method, the protected
/// `#default` Ed25519 key `authority` with every relationship.
pub open spec fn initial_document(subject: Seq<u8>, authority: Seq<u8>, bump: u8, now: i64) -> Document {
    Document {
        version: 1,
        bump,
        subject,
        deactivated: 0,
        updated_at: now,
        native_controllers: seq![],
        other_controllers: seq![],
        verification_methods: seq![
            VerificationMethod {
                fragment: DEFAULT_FRAGMENT@,
                method_type: VM_TYPE_ED25519,
                flags: VM_FLAGS_DEFAULT,
                key: authority,
            },
        ],
        services: seq![],
    }
}

/// Whether `did` may become the DID account of `subject`: it sits at the
/// PDA ["bio-did", subject], and it is an untouched system account (an
/// initialized account, or a deactivated tombstone, must never resurrect).
/// On success, the bump.
pub open spec fn spec_fresh_did_account(did: Account, subject: Seq<u8>) -> Result<u8, RegistryError> {
    match found_address(did_base_seeds(subject), registry_id()) {
        None => Err(RegistryError::InvalidSeeds),
        Some((pda, bump)) => if pda != did.address@ {
            Err(RegistryError::InvalidSeeds)
        } else if did.owner@ != system_id() || did.data@.len() != 0 {
            Err(RegistryError::AccountAlreadyInitialized)
        } else {
            Ok(bump)
        },
    }
}

/// What `initialize` decides, over `[payer, did_account, system_program]`
/// and the 32-byte subject: on success, the bump of the new account.
pub open spec fn spec_initialize(accounts: Seq<Account>, args: Seq<u8>) -> Result<u8, RegistryError> {
    if accounts.len() < 3 {
        Err(RegistryError::NotEnoughAccountKeys)
    } else {
        after_check(
            spec_check_payer(accounts[0]),
            after_check(
                spec_check_system_program(accounts[2]),
                if !accounts[1].is_writable {
                    Err(RegistryError::Immutable)
                } else if args.len() != 32 {
                    Err(RegistryError::InvalidInstructionData)
                } else if !on_curve(args) {
                    Err(RegistryError::InvalidArgument)
                } else {
                    spec_fresh_did_account(accounts[1], args)
                },
            ),
        )
    }
}

/// Checks that `did` may become the DID account of `subject`.
pub fn check_fresh_did_account(did: &Account, subject: &[u8; 32]) -> (r: Result<u8, RegistryError>)
    ensures
        r == spec_fresh_did_account(*did, subject@),
{
    let id = registry_program_id();
    let seeds: [&[u8]; 2] = [DID_SEED.as_slice(), subject.as_slice()];
    let seed_list = seeds.as_slice();
    proof {
        assert(seed_list@ == seeds@);
        assert(seeds_view(seed_list) =~= did_base_seeds(subject@));
    }
    let (pda, bump) = match find_program_address(seed_list, &id) {
        Some(found) => found,
        None => return Err(RegistryError::InvalidSeeds),
    };
    if !bytes_eq(did.address.as_slice(), pda.as_slice()) {
        return Err(RegistryError::InvalidSeeds);
    }
    let system = system_program_id();
    if !bytes_eq(did.owner.as_slice(), system.as_slice()) || did.data.len() != 0 {
        return Err(RegistryError::AccountAlreadyInitialized);
    }
    Ok(bump)
}

/// Initialize: validates the accounts and the subject, and returns what
/// the new account is created for. The subject has to be a key: an
/// address off the Ed25519 curve is refused.
pub fn process(accounts: &[Account], args: &[u8]) -> (r: Result<Creation, RegistryError>)
    ensures
        match spec_initialize(accounts@, args@) {
            Ok(bump) => r is Ok && r->Ok_0.subject@ == args@ && r->Ok_0.authority@ == args@
                && r->Ok_0.bump == bump,
            Err(e) => r is Err && r->Err_0 == e,
        },
{
    if accounts.len() < 3 {
        return Err(RegistryError::NotEnoughAccountKeys);
    }
    check_payer(&accounts[0])?;
    check_system_program(&accounts[2])?;
    if !accounts[1].is_writable {
        return Err(RegistryError::Immutable);
    }
    if args.len() != 32 {
        return Err(RegistryError::InvalidInstructionData);
    }
    let subject = crate::accounts::copy_32(args, 0);
    assert(subject@ =~= args@);
    if !is_on_curve(&subject) {
        return Err(RegistryError::InvalidArgument);
    }
    let bump = check_fresh_did_account(&accounts[1], &subject)?;
    Ok(Creation { subject, authority: subject, bump })
}

/// The content of a new DID account: the serialization of its initial
/// document, `INITIAL_SPACE` bytes.
pub fn initial_account_data(creation: &Creation, now: i64) -> (out: Vec<u8>)
    ensures
        out@ == ser_document(
            initial_document(creation.subject@, creation.authority@, creation.bump, now),
        ),
        out@.len() == INITIAL_SPACE,
{
    let ghost doc = initial_document(creation.subject@, creation.authority@, creation.bump, now);
    let mut out: Vec<u8> = Vec::new();
    push_bytes(&mut out, ACCOUNT_DISCRIMINATOR.as_slice());
    push_u64(&mut out, 1);
    out.push(creation.bump);
    push_bytes(&mut out, creation.subject.as_slice());
    out.push(0u8);
    push_i64(&mut out, now);
    // native_controllers: [], other_controllers: []
    push_u32(&mut out, 0);
    push_u32(&mut out, 0);
    // verification_methods: [ { "default", Ed25519, VM_FLAGS_DEFAULT, authority } ]
    push_u32(&mut out, 1);
    crate::model::push_vm(
        &mut out,
        DEFAULT_FRAGMENT.as_slice(),
        VM_TYPE_ED25519,
        VM_FLAGS_DEFAULT,
        creation.authority.as_slice(),
    );
    // services: []
    push_u32(&mut out, 0);
    proof {
        let vms = doc.verification_methods;
        assert(vms.drop_last() =~= Seq::<VerificationMethod>::empty());
        assert(crate::model::ser_vms(vms.drop_last()) =~= Seq::<u8>::empty());
        assert(vms.last() == vms[0]);
        assert(crate::model::ser_vms(vms) =~= crate::model::ser_vm(vms[0]));
        assert(crate::model::ser_keys(doc.native_controllers) =~= Seq::<u8>::empty());
        assert(crate::model::ser_lps(doc.other_controllers) =~= Seq::<u8>::empty());
        assert(crate::model::ser_services(doc.services) =~= Seq::<u8>::empty());
        crate::bytes::lemma_u64_le(1);
        crate::bytes::lemma_i64_le(now);
    }
    assert(out@ =~= ser_document(doc));
    out
}

} // verus!
