//! What the registry's rules allow and what they guarantee of what they
//! accept: a method loses capabilityInvocation whenever another update
//! authority remains, stored services are printable, a DID never controls
//! itself whoever signs, and every method and staged method carries flags
//! its key type allows.

use vstd::prelude::*;

use crate::accounts::{spec_verify_did_account, Account};
use crate::error::{DidError, RegistryError};
use crate::instructions::add_service::spec_add_service;
use crate::instructions::create_key_buffer::{spec_create_key_buffer, spec_key_buffer_args};
use crate::instructions::set_controllers::spec_set_controllers;
use crate::instructions::set_verification_method_flags::{
    spec_flag_args, spec_set_verification_method_flags,
};
use crate::ix::Instruction;
use crate::key_buffer::{kb_flags, kb_fragment, kb_key_len, KB_OFF_METHOD_TYPE};
use crate::laws::{old_document, spec_edit};
use crate::model::{decode_document, Document, Service, VerificationMethod};
use crate::rules::{authorities, first_vm_with, signer_is_authority, vm_position};
use crate::state::{
    MAX_CONTROLLER_LEN, MAX_ENDPOINT_LEN, MAX_SERVICE_TYPE_LEN, VM_FLAG_CAPABILITY_INVOCATION, VM_FLAG_KEY_AGREEMENT,
    VM_FLAG_PROTECTED, VM_RELATIONSHIP_MASK, VM_TYPE_ED25519, VM_TYPE_X25519, VM_VALID_MASK,
};

verus! {

/// Flags that a key of type `method_type` may carry: only known bits,
/// capabilityInvocation only on an Ed25519 key, and an X25519 key in no
/// relationship but keyAgreement.
pub open spec fn flags_fit_type(method_type: u8, flags: u16) -> bool {
    &&& flags & !VM_VALID_MASK == 0
    &&& (flags & VM_FLAG_CAPABILITY_INVOCATION != 0 ==> method_type == VM_TYPE_ED25519)
    &&& (method_type == VM_TYPE_X25519 ==> flags & VM_RELATIONSHIP_MASK & !VM_FLAG_KEY_AGREEMENT
        == 0)
}

/// A fragment: 1 to 32 bytes of `[A-Za-z0-9_-]`.
pub open spec fn fragment_ok(f: Seq<u8>) -> bool {
    &&& 1 <= f.len() <= 32
    &&& forall|i: int| 0 <= i < f.len() ==> fragment_char(#[trigger] f[i])
}

/// A byte of `[A-Za-z0-9_-]`.
pub open spec fn fragment_char(b: u8) -> bool {
    (0x30 <= b <= 0x39) || (0x41 <= b <= 0x5a) || (0x61 <= b <= 0x7a) || b == 0x5f || b == 0x2d
}

/// The key is as long as its type says: 32 bytes for Ed25519 and X25519,
/// 33 for secp256k1, 2592 for ML-DSA-87.
pub open spec fn key_fits_type(method_type: u8, key_len: int) -> bool {
    ||| (method_type == 0 || method_type == 1) && key_len == 32
    ||| method_type == 2 && key_len == 33
    ||| method_type == 3 && key_len == 2592
}

/// A verification method as the registry stores it: a well-formed
/// fragment, a key of its type's length, and flags its type allows.
pub open spec fn method_sound(vm: VerificationMethod) -> bool {
    &&& fragment_ok(vm.fragment)
    &&& key_fits_type(vm.method_type, vm.key.len() as int)
    &&& flags_fit_type(vm.method_type, vm.flags)
}

/// Every method of `vms` is sound.
pub open spec fn methods_sound(vms: Seq<VerificationMethod>) -> bool {
    forall|i: int| 0 <= i < vms.len() ==> method_sound(#[trigger] vms[i])
}

/// A service as the registry stores it: a well-formed fragment, a type of
/// 1 to 64 printable bytes and an endpoint of 1 to 512.
pub open spec fn service_sound(svc: Service) -> bool {
    &&& fragment_ok(svc.fragment)
    &&& printable(svc.service_type, MAX_SERVICE_TYPE_LEN)
    &&& printable(svc.endpoint, MAX_ENDPOINT_LEN)
}

/// Every service of `svcs` is sound.
pub open spec fn services_sound(svcs: Seq<Service>) -> bool {
    forall|i: int| 0 <= i < svcs.len() ==> service_sound(#[trigger] svcs[i])
}

/// A controller in DID form: 1 to 128 printable bytes starting with
/// `did:` but not with `did:bio:`.
pub open spec fn did_form(c: Seq<u8>) -> bool {
    &&& printable(c, MAX_CONTROLLER_LEN)
    &&& c.len() >= 4 && c.subrange(0, 4) == seq![0x64u8, 0x69u8, 0x64u8, 0x3au8]
    &&& !(c.len() >= 8 && c.subrange(0, 8) == seq![
        0x64u8,
        0x69u8,
        0x64u8,
        0x3au8,
        0x62u8,
        0x69u8,
        0x6fu8,
        0x3au8,
    ])
}

/// Controller lists for a DID of subject `subject`: no native controller
/// is the subject, the other controllers are in DID form, and neither
/// list repeats.
pub open spec fn controller_lists_sound(subject: Seq<u8>, ns: Seq<Seq<u8>>, os: Seq<Seq<u8>>) -> bool {
    &&& forall|i: int| 0 <= i < ns.len() ==> #[trigger] ns[i] != subject
    &&& forall|i: int, j: int| 0 <= j < i < ns.len() ==> ns[j] != ns[i]
    &&& forall|i: int| 0 <= i < os.len() ==> did_form(#[trigger] os[i])
    &&& forall|i: int, j: int| 0 <= j < i < os.len() ==> os[j] != os[i]
}

/// The controllers of a document are sound.
pub open spec fn controllers_sound(doc: Document) -> bool {
    controller_lists_sound(doc.subject, doc.native_controllers, doc.other_controllers)
}

/// `signer` holds an update authority of `doc`: an Ed25519 method with
/// capabilityInvocation whose key is `signer`.
pub open spec fn holds_authority(doc: Document, signer: Seq<u8>) -> bool {
    exists|i: int|
        0 <= i < doc.verification_methods.len() && (#[trigger] doc.verification_methods[i]).method_type
            == VM_TYPE_ED25519 && doc.verification_methods[i].flags & VM_FLAG_CAPABILITY_INVOCATION
            != 0 && doc.verification_methods[i].key == signer
}

/// Bounded printable ASCII: 1 to `max` bytes, each from `!` to `~`.
pub open spec fn printable(v: Seq<u8>, max: usize) -> bool {
    &&& 1 <= v.len() <= max
    &&& forall|i: int| 0 <= i < v.len() ==> 0x21 <= #[trigger] v[i] <= 0x7e
}

/// Taking capabilityInvocation away from a method is refused only to save
/// the last update authority: when the signer is an update authority, the
/// method exists, its protection lets the signer change it, the new flags
/// fit its key type, and at least two update authorities hold the
/// document, the flags change goes through, and only that method's flags
/// change.
pub proof fn law_flags_change_while_another_authority_remains(
    accounts: Seq<Account>,
    args: Seq<u8>,
    k: int,
)
    requires
        accounts.len() >= 2,
        accounts[0].is_signer,
        spec_verify_did_account(accounts[1]) is Ok,
        spec_flag_args(args) is Ok,
        decode_document(accounts[1].data@) is Some,
        ({
            let doc = decode_document(accounts[1].data@)->0;
            let vms = doc.verification_methods;
            let f = spec_flag_args(args)->Ok_0.0;
            let flags = spec_flag_args(args)->Ok_0.1;
            let signer = accounts[0].address@;
            &&& doc.deactivated == 0
            &&& signer_is_authority(doc, signer)
            &&& first_vm_with(vms, f, k)
            &&& ((vms[k].flags | flags) & VM_FLAG_PROTECTED == 0 || vms[k].key == signer)
            &&& flags_fit_type(vms[k].method_type, flags)
            &&& authorities(vms) >= 2
        }),
    ensures
        spec_set_verification_method_flags(accounts, args) is Ok,
        ({
            let vms = decode_document(accounts[1].data@)->0.verification_methods;
            let flags = spec_flag_args(args)->Ok_0.1;
            spec_set_verification_method_flags(accounts, args)->Ok_0.1.verification_methods
                == vms.update(k, VerificationMethod { flags, ..vms[k] })
        }),
{
    let doc = decode_document(accounts[1].data@)->0;
    let f = spec_flag_args(args)->Ok_0.0;
    crate::rules::lemma_vm_position(doc.verification_methods, f);
    crate::laws::lemma_first_vm_unique(doc.verification_methods, f, k);
    assert(vm_position(doc.verification_methods, f) == k);
}

/// `LastAuthority` is answered only for the sole update authority: when a
/// flags change is refused with it, the document holds at most one.
pub proof fn law_last_authority_means_the_only_one(accounts: Seq<Account>, args: Seq<u8>)
    requires
        spec_set_verification_method_flags(accounts, args) == Err::<
            (Seq<u8>, Document),
            RegistryError,
        >(RegistryError::Domain(DidError::LastAuthority)),
    ensures
        decode_document(accounts[1].data@) is Some,
        authorities(decode_document(accounts[1].data@)->0.verification_methods) <= 1,
{
}

/// The same holds of removing a method: `LastAuthority` is answered only
/// when the document holds at most one update authority.
pub proof fn law_last_authority_removal_means_the_only_one(accounts: Seq<Account>, args: Seq<u8>)
    requires
        crate::instructions::remove_verification_method::spec_remove_verification_method(
            accounts,
            args,
        ) == Err::<(Seq<u8>, Document), RegistryError>(
            RegistryError::Domain(DidError::LastAuthority),
        ),
    ensures
        decode_document(accounts[2].data@) is Some,
        authorities(decode_document(accounts[2].data@)->0.verification_methods) <= 1,
{
}

/// A service that `add_service` stores has a type of 1 to 64 printable
/// ASCII bytes and an endpoint of 1 to 512, none of them whitespace.
pub proof fn law_stored_services_are_printable(accounts: Seq<Account>, args: Seq<u8>)
    requires
        spec_add_service(accounts, args) is Ok,
    ensures
        ({
            let svcs = spec_add_service(accounts, args)->Ok_0.1.services;
            &&& svcs.len() >= 1
            &&& printable(svcs.last().service_type, MAX_SERVICE_TYPE_LEN)
            &&& printable(svcs.last().endpoint, MAX_ENDPOINT_LEN)
        }),
{
}

/// A DID never controls itself: after `set_controllers` no native
/// controller is the document's subject.
pub proof fn law_no_did_controls_itself(accounts: Seq<Account>, args: Seq<u8>)
    requires
        spec_set_controllers(accounts, args) is Ok,
    ensures
        ({
            let doc = spec_set_controllers(accounts, args)->Ok_0.1;
            forall|i: int|
                0 <= i < doc.native_controllers.len() ==> #[trigger] doc.native_controllers[i]
                    != doc.subject
        }),
{
}

/// Which update authority signs `set_controllers` changes nothing but the
/// authority check: two signing update authorities of the same document
/// get the same answer.
pub proof fn law_controllers_do_not_depend_on_the_signer(
    accounts: Seq<Account>,
    args: Seq<u8>,
    other: Account,
)
    requires
        accounts.len() >= 4,
        other.is_signer == accounts[1].is_signer,
        decode_document(accounts[2].data@) is Some,
        signer_is_authority(decode_document(accounts[2].data@)->0, accounts[1].address@),
        signer_is_authority(decode_document(accounts[2].data@)->0, other.address@),
    ensures
        spec_set_controllers(accounts.update(1, other), args) == spec_set_controllers(accounts, args),
{
    let b = accounts.update(1, other);
    assert(b[0] == accounts[0]);
    assert(b[2] == accounts[2]);
    assert(b[3] == accounts[3]);
}

/// Every method a document holds is sound (a well-formed fragment, a key
/// of its type's length, flags its type allows), and every edit keeps it
/// so.
pub proof fn law_edits_keep_methods_sound(ix: Instruction, accounts: Seq<Account>, args: Seq<u8>)
    requires
        spec_edit(ix, accounts, args) is Ok,
        methods_sound(old_document(ix, accounts)->0.verification_methods),
    ensures
        methods_sound(spec_edit(ix, accounts, args)->Ok_0.1.verification_methods),
{
    let old = old_document(ix, accounts)->0;
    let new = spec_edit(ix, accounts, args)->Ok_0.1;
    let vms = old.verification_methods;
    let nvms = new.verification_methods;
    match ix {
        Instruction::AddVerificationMethod | Instruction::AddVerificationMethodFromBuffer => {
            let vm = nvms.last();
            assert(nvms == vms.push(vm));
            assert(method_sound(vm));
            assert forall|i: int| 0 <= i < nvms.len() implies method_sound(#[trigger] nvms[i]) by {
                if i < vms.len() {
                    assert(nvms[i] == vms[i]);
                }
            }
        },
        Instruction::RemoveVerificationMethod => {
            let f = crate::instructions::shared::spec_fragment_arg(args)->Ok_0;
            crate::rules::lemma_vm_position(vms, f);
            let k = vm_position(vms, f);
            assert forall|i: int| 0 <= i < nvms.len() implies method_sound(#[trigger] nvms[i]) by {
                if i < k {
                    assert(nvms[i] == vms[i]);
                } else {
                    assert(nvms[i] == vms[i + 1]);
                }
            }
        },
        Instruction::SetVerificationMethodFlags => {
            let f = spec_flag_args(args)->Ok_0.0;
            crate::rules::lemma_vm_position(vms, f);
            assert forall|i: int| 0 <= i < nvms.len() implies method_sound(#[trigger] nvms[i]) by {
                assert(method_sound(vms[i]));
            }
        },
        Instruction::AddService => {},
        Instruction::RemoveService => {},
        Instruction::SetControllers => {},
        Instruction::Deactivate => {},
        _ => {},
    }
}

/// Every service a document holds is sound, and every edit keeps it so.
pub proof fn law_edits_keep_services_sound(ix: Instruction, accounts: Seq<Account>, args: Seq<u8>)
    requires
        spec_edit(ix, accounts, args) is Ok,
        services_sound(old_document(ix, accounts)->0.services),
    ensures
        services_sound(spec_edit(ix, accounts, args)->Ok_0.1.services),
{
    let old = old_document(ix, accounts)->0;
    let new = spec_edit(ix, accounts, args)->Ok_0.1;
    let svcs = old.services;
    let nsvcs = new.services;
    match ix {
        Instruction::AddService => {
            let svc = nsvcs.last();
            assert(nsvcs == svcs.push(svc));
            assert(service_sound(svc));
            assert forall|i: int| 0 <= i < nsvcs.len() implies service_sound(#[trigger] nsvcs[i]) by {
                if i < svcs.len() {
                    assert(nsvcs[i] == svcs[i]);
                }
            }
        },
        Instruction::RemoveService => {
            let f = crate::instructions::shared::spec_fragment_arg(args)->Ok_0;
            crate::rules::lemma_svc_position(svcs, f);
            let k = crate::rules::svc_position(svcs, f);
            assert forall|i: int| 0 <= i < nsvcs.len() implies service_sound(#[trigger] nsvcs[i]) by {
                if i < k {
                    assert(nsvcs[i] == svcs[i]);
                } else {
                    assert(nsvcs[i] == svcs[i + 1]);
                }
            }
        },
        Instruction::AddVerificationMethod => {},
        Instruction::AddVerificationMethodFromBuffer => {},
        Instruction::RemoveVerificationMethod => {},
        Instruction::SetVerificationMethodFlags => {},
        Instruction::SetControllers => {},
        Instruction::Deactivate => {},
        _ => {},
    }
}

/// The controllers of a document are sound, and every edit keeps them so.
pub proof fn law_edits_keep_controllers_sound(ix: Instruction, accounts: Seq<Account>, args: Seq<u8>)
    requires
        spec_edit(ix, accounts, args) is Ok,
        controllers_sound(old_document(ix, accounts)->0),
    ensures
        controllers_sound(spec_edit(ix, accounts, args)->Ok_0.1),
{
    match ix {
        Instruction::SetControllers => {
            let new = spec_edit(ix, accounts, args)->Ok_0.1;
            let os = new.other_controllers;
            assert forall|i: int| 0 <= i < os.len() implies did_form(#[trigger] os[i]) by {
                assert(crate::instructions::set_controllers::is_other_controller(os[i]));
                assert(seq![0x64u8, 0x69u8, 0x64u8, 0x3au8] =~= crate::instructions::set_controllers::DID_PREFIX@);
                assert(seq![0x64u8, 0x69u8, 0x64u8, 0x3au8, 0x62u8, 0x69u8, 0x6fu8, 0x3au8]
                    =~= crate::instructions::set_controllers::BIO_PREFIX@);
            }
        },
        Instruction::AddVerificationMethod => {},
        Instruction::AddVerificationMethodFromBuffer => {},
        Instruction::RemoveVerificationMethod => {},
        Instruction::SetVerificationMethodFlags => {},
        Instruction::AddService => {},
        Instruction::RemoveService => {},
        Instruction::Deactivate => {},
        _ => {},
    }
}

/// A new document is sound: its one method, its (absent) services and
/// controllers.
pub proof fn law_new_documents_are_sound(subject: Seq<u8>, authority: Seq<u8>, bump: u8, now: i64)
    requires
        authority.len() == 32,
    ensures
        ({
            let doc = crate::instructions::initialize::initial_document(subject, authority, bump, now);
            &&& methods_sound(doc.verification_methods)
            &&& services_sound(doc.services)
            &&& controllers_sound(doc)
            &&& holds_authority(doc, authority)
        }),
{
    let doc = crate::instructions::initialize::initial_document(subject, authority, bump, now);
    let vm = doc.verification_methods[0];
    assert(vm.flags == 287u16);
    assert(287u16 & !287u16 == 0) by (bit_vector);
    assert(287u16 & 8u16 != 0) by (bit_vector);
    assert forall|i: int| 0 <= i < vm.fragment.len() implies fragment_char(#[trigger] vm.fragment[i]) by {
        assert(vm.fragment == crate::state::DEFAULT_FRAGMENT@);
    }
    assert(methods_sound(doc.verification_methods));
    assert(doc.verification_methods[0].key == authority);
}

/// A staged method is sound and the signer may stage it: a buffer is
/// opened only by an update authority of an active DID with room for one
/// more method, for a well-formed unused fragment, a key length its type
/// fixes, flags its type allows, and protection only on a 32-byte key.
pub proof fn law_buffers_stage_sound_methods(accounts: Seq<Account>, args: Seq<u8>)
    requires
        spec_create_key_buffer(accounts, args) is Ok,
    ensures
        ({
            let doc = decode_document(accounts[2].data@)->0;
            let (fragment, method_type, flags, key_len) = spec_key_buffer_args(args)->Ok_0;
            let d = spec_create_key_buffer(accounts, args)->Ok_0.1;
            &&& decode_document(accounts[2].data@) is Some
            &&& doc.deactivated == 0
            &&& holds_authority(doc, accounts[1].address@)
            &&& doc.verification_methods.len() < 16
            &&& fragment_ok(fragment)
            &&& !crate::rules::fragment_used(doc, fragment)
            &&& key_fits_type(method_type, key_len as int)
            &&& flags_fit_type(method_type, flags)
            &&& (flags & VM_FLAG_PROTECTED != 0 ==> key_len == 32)
            &&& d[KB_OFF_METHOD_TYPE as int] == method_type
            &&& kb_flags(d) == flags
            &&& kb_key_len(d) == key_len
            &&& kb_fragment(d) == fragment
        }),
{
    let (fragment, method_type, flags, key_len) = spec_key_buffer_args(args)->Ok_0;
    let doc = decode_document(accounts[2].data@)->0;
    let signer = accounts[1].address@;
    assert(crate::instructions::create_key_buffer::key_buffer_rule(
        doc,
        signer,
        fragment,
        method_type,
        flags,
        key_len,
    ) is Ok);
    let bump = spec_create_key_buffer(accounts, args)->Ok_0.0;
    assert(spec_create_key_buffer(accounts, args)->Ok_0.1 == crate::key_buffer::kb_initial(
        accounts[2].address@,
        signer,
        bump,
        method_type,
        flags,
        key_len,
        fragment,
    ));
    lemma_key_buffer_rule_sound(doc, signer, fragment, method_type, flags, key_len);
    lemma_kb_initial_fields(accounts[2].address@, signer, bump, method_type, flags, key_len, fragment);
}

/// What the rule of staging a method establishes.
proof fn lemma_key_buffer_rule_sound(
    doc: Document,
    signer: Seq<u8>,
    fragment: Seq<u8>,
    method_type: u8,
    flags: u16,
    key_len: u32,
)
    requires
        crate::instructions::create_key_buffer::key_buffer_rule(
            doc,
            signer,
            fragment,
            method_type,
            flags,
            key_len,
        ) is Ok,
    ensures
        doc.deactivated == 0,
        holds_authority(doc, signer),
        doc.verification_methods.len() < 16,
        fragment_ok(fragment),
        !crate::rules::fragment_used(doc, fragment),
        key_fits_type(method_type, key_len as int),
        flags_fit_type(method_type, flags),
        flags & VM_FLAG_PROTECTED != 0 ==> key_len == 32,
{
}

/// The fields a new buffer's header holds.
proof fn lemma_kb_initial_fields(
    did_account: Seq<u8>,
    authority: Seq<u8>,
    bump: u8,
    method_type: u8,
    flags: u16,
    key_len: u32,
    fragment: Seq<u8>,
)
    requires
        did_account.len() == 32,
        authority.len() == 32,
        fragment.len() <= 32,
    ensures
        ({
            let d = crate::key_buffer::kb_initial(
                did_account,
                authority,
                bump,
                method_type,
                flags,
                key_len,
                fragment,
            );
            &&& d[KB_OFF_METHOD_TYPE as int] == method_type
            &&& kb_flags(d) == flags
            &&& kb_key_len(d) == key_len
            &&& kb_fragment(d) == fragment
        }),
{
    let d = crate::key_buffer::kb_initial(
        did_account,
        authority,
        bump,
        method_type,
        flags,
        key_len,
        fragment,
    );
    crate::bytes::lemma_u16_le(flags);
    crate::bytes::lemma_u32_le(key_len);
    crate::bytes::lemma_u32_le(fragment.len() as u32);
    assert(d.subrange(74, 76) =~= crate::bytes::u16_le(flags));
    assert(d.subrange(76, 80) =~= crate::bytes::u32_le(key_len));
    assert(d.subrange(84, 88) =~= crate::bytes::u32_le(fragment.len() as u32));
    assert(kb_fragment(d) =~= fragment);
    assert(d[73] == method_type);
}

/// The authority check every edit makes: it passes exactly when the DID is
/// active and the signer holds one of its update authorities.
pub proof fn law_authority_check_is_exact(doc: Document, signer: Seq<u8>)
    ensures
        crate::rules::authority_rule(doc, signer) is Ok <==> (doc.deactivated == 0
            && holds_authority(doc, signer)),
{
    if holds_authority(doc, signer) {
        assert(signer_is_authority(doc, signer));
    }
    if signer_is_authority(doc, signer) {
        assert(holds_authority(doc, signer));
    }
}

/// Adding a sound service is refused for no other reason than the
/// signer, the room, or a fragment in use: an update authority of an
/// active DID with fewer than 16 services adds any sound service whose
/// fragment is unused.
pub proof fn law_sound_services_are_accepted(doc: Document, signer: Seq<u8>, svc: Service)
    requires
        doc.deactivated == 0,
        holds_authority(doc, signer),
        doc.services.len() < 16,
        service_sound(svc),
        !crate::rules::fragment_used(doc, svc.fragment),
    ensures
        crate::instructions::add_service::add_service_rule(doc, signer, svc) is Ok,
{
    assert(signer_is_authority(doc, signer));
}

/// Adding a sound method is refused for no other reason than the signer,
/// the room, a fragment in use or protection: an update authority of an
/// active DID with fewer than 16 methods adds any sound method whose
/// fragment is unused and which, if protected, is the signer's own key.
pub proof fn law_sound_methods_are_accepted(doc: Document, signer: Seq<u8>, vm: VerificationMethod)
    requires
        doc.deactivated == 0,
        holds_authority(doc, signer),
        doc.verification_methods.len() < 16,
        method_sound(vm),
        !crate::rules::fragment_used(doc, vm.fragment),
        vm.flags & VM_FLAG_PROTECTED == 0 || vm.key == signer,
    ensures
        crate::instructions::add_verification_method::add_vm_rule(doc, signer, vm) is Ok,
{
    assert(signer_is_authority(doc, signer));
}

/// Staging a sound method is refused for no other reason than the
/// signer, the room, a fragment in use or protection on a larger key.
pub proof fn law_sound_buffers_are_accepted(
    doc: Document,
    signer: Seq<u8>,
    fragment: Seq<u8>,
    method_type: u8,
    flags: u16,
    key_len: u32,
)
    requires
        doc.deactivated == 0,
        holds_authority(doc, signer),
        doc.verification_methods.len() < 16,
        fragment_ok(fragment),
        !crate::rules::fragment_used(doc, fragment),
        key_fits_type(method_type, key_len as int),
        flags_fit_type(method_type, flags),
        flags & VM_FLAG_PROTECTED == 0 || key_len == 32,
    ensures
        crate::instructions::create_key_buffer::key_buffer_rule(
            doc,
            signer,
            fragment,
            method_type,
            flags,
            key_len,
        ) is Ok,
{
    assert(signer_is_authority(doc, signer));
}

/// Sound controller lists are refused for no other reason than the
/// signer or their number: an update authority of an active DID sets any
/// at most 8 native controllers (none its subject, none repeated) and at
/// most 8 other controllers in DID form (none repeated).
pub proof fn law_sound_controllers_are_accepted(
    doc: Document,
    signer: Seq<u8>,
    ns: Seq<Seq<u8>>,
    os: Seq<Seq<u8>>,
)
    requires
        doc.deactivated == 0,
        holds_authority(doc, signer),
        ns.len() <= 8,
        os.len() <= 8,
        controller_lists_sound(doc.subject, ns, os),
    ensures
        crate::instructions::set_controllers::controllers_rule(doc, signer, ns, os) is Ok,
{
    assert(signer_is_authority(doc, signer));
    assert(seq![0x64u8, 0x69u8, 0x64u8, 0x3au8] =~= crate::instructions::set_controllers::DID_PREFIX@);
    assert(seq![0x64u8, 0x69u8, 0x64u8, 0x3au8, 0x62u8, 0x69u8, 0x6fu8, 0x3au8]
        =~= crate::instructions::set_controllers::BIO_PREFIX@);
    assert forall|i: int| 0 <= i < os.len() implies crate::instructions::set_controllers::is_other_controller(
        #[trigger] os[i],
    ) by {
        assert(did_form(os[i]));
    }
}

/// Removing a method is refused for no other reason than the signer, a
/// missing fragment, protection, or saving the last update authority: an
/// update authority of an active DID removes the first method with
/// fragment `f` when it may change it and it is not an update authority
/// or another one remains.
pub proof fn law_methods_are_removed_while_another_authority_remains(
    doc: Document,
    signer: Seq<u8>,
    f: Seq<u8>,
    k: int,
)
    requires
        doc.deactivated == 0,
        holds_authority(doc, signer),
        first_vm_with(doc.verification_methods, f, k),
        doc.verification_methods[k].flags & VM_FLAG_PROTECTED == 0
            || doc.verification_methods[k].key == signer,
        !(doc.verification_methods[k].method_type == VM_TYPE_ED25519
            && doc.verification_methods[k].flags & VM_FLAG_CAPABILITY_INVOCATION != 0)
            || authorities(doc.verification_methods) >= 2,
    ensures
        crate::instructions::remove_verification_method::remove_vm_rule(doc, signer, f) == Ok::<
            int,
            RegistryError,
        >(k),
{
    assert(signer_is_authority(doc, signer));
    crate::rules::lemma_vm_position(doc.verification_methods, f);
    crate::laws::lemma_first_vm_unique(doc.verification_methods, f, k);
}

/// Removing a service is refused for no other reason than the signer or
/// a missing fragment.
pub proof fn law_services_are_removed(doc: Document, signer: Seq<u8>, f: Seq<u8>)
    requires
        doc.deactivated == 0,
        holds_authority(doc, signer),
        crate::rules::svc_fragment_used(doc.services, f),
    ensures
        crate::instructions::remove_service::remove_service_rule(doc, signer, f) is Ok,
{
    assert(signer_is_authority(doc, signer));
}

} // verus!
