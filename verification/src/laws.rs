//! What holds of every edit of a DID account: only an update authority
//! edits, what is written reads back, an update authority always
//! survives, protected methods change only under their own key,
//! fragments stay unique, limits hold, and a deactivated DID never changes
//! again.

use vstd::prelude::*;

use crate::accounts::Account;
use crate::error::RegistryError;
use crate::instructions::add_service::{spec_add_service, spec_service_args};
use crate::instructions::add_verification_method::{spec_add_verification_method, spec_vm_args};
use crate::instructions::add_verification_method_from_buffer::staged_method;
use crate::instructions::deactivate::{spec_deactivate, tombstone};
use crate::instructions::remove_service::spec_remove_service;
use crate::instructions::remove_verification_method::spec_remove_verification_method;
use crate::instructions::set_controllers::spec_set_controllers;
use crate::instructions::set_verification_method_flags::spec_set_verification_method_flags;
use crate::ix::Instruction;
use crate::model::{
    decode_document, fits_u32, ser_document, wf_document, wf_service, wf_vm, Document,
    VerificationMethod,
};
use crate::roundtrip::{lemma_decode_serialized, lemma_decoded_wf};
use crate::rules::{authorities, authority_rule, signer_is_authority, vm_is_authority};
use crate::state::VM_FLAG_PROTECTED;

verus! {

/// What an instruction that edits an existing DID account decides: on
/// success, the subject and the new document.
pub open spec fn spec_edit(ix: Instruction, accounts: Seq<Account>, args: Seq<u8>) -> Result<
    (Seq<u8>, Document),
    RegistryError,
> {
    match ix {
        Instruction::AddVerificationMethod => spec_add_verification_method(accounts, args),
        Instruction::RemoveVerificationMethod => spec_remove_verification_method(accounts, args),
        Instruction::SetVerificationMethodFlags => spec_set_verification_method_flags(
            accounts,
            args,
        ),
        Instruction::AddService => spec_add_service(accounts, args),
        Instruction::RemoveService => spec_remove_service(accounts, args),
        Instruction::SetControllers => spec_set_controllers(accounts, args),
        Instruction::Deactivate => spec_deactivate(accounts, args),
        Instruction::AddVerificationMethodFromBuffer => crate::instructions::add_verification_method_from_buffer::spec_add_verification_method_from_buffer(
            accounts,
            args,
        ),
        _ => Err(RegistryError::InvalidInstructionData),
    }
}

/// Where an edit finds the DID account: second for
/// `set_verification_method_flags` (`[authority, did_account]`), third for
/// the others (`[payer, authority, did_account, system_program]`).
pub open spec fn did_index(ix: Instruction) -> int {
    if ix == Instruction::SetVerificationMethodFlags {
        1
    } else {
        2
    }
}

/// Where an edit finds the signing authority.
pub open spec fn authority_index(ix: Instruction) -> int {
    did_index(ix) - 1
}

/// The document that an edit starts from.
pub open spec fn old_document(ix: Instruction, accounts: Seq<Account>) -> Option<Document> {
    decode_document(accounts[did_index(ix)].data@)
}

/// The key that signs an edit.
pub open spec fn edit_signer(ix: Instruction, accounts: Seq<Account>) -> Seq<u8> {
    accounts[authority_index(ix)].address@
}

/// An edit happens only under the signature of an update authority of the
/// document as it stood: the authority account signed, the document was
/// not deactivated, and the signing key is an Ed25519 method with
/// capabilityInvocation.
pub proof fn law_edits_need_an_authority(ix: Instruction, accounts: Seq<Account>, args: Seq<u8>)
    requires
        spec_edit(ix, accounts, args) is Ok,
    ensures
        accounts.len() > did_index(ix),
        accounts[authority_index(ix)].is_signer,
        old_document(ix, accounts) is Some,
        old_document(ix, accounts)->0.deactivated == 0,
        signer_is_authority(old_document(ix, accounts)->0, edit_signer(ix, accounts)),
{
}

/// The document an edit decides is well formed.
proof fn lemma_edit_wf(ix: Instruction, accounts: Seq<Account>, args: Seq<u8>)
    requires
        spec_edit(ix, accounts, args) is Ok,
        accounts[did_index(ix)].data@.len() <= usize::MAX,
    ensures
        wf_document(spec_edit(ix, accounts, args)->Ok_0.1),
{
    let old = old_document(ix, accounts)->0;
    let new = spec_edit(ix, accounts, args)->Ok_0.1;
    lemma_decoded_wf(accounts[did_index(ix)].data@);
    match ix {
        Instruction::AddVerificationMethod | Instruction::AddVerificationMethodFromBuffer => {
            let vm = new.verification_methods.last();
            assert(new.verification_methods == old.verification_methods.push(vm));
            assert(wf_vm(vm));
            assert forall|i: int| 0 <= i < new.verification_methods.len() implies wf_vm(
                #[trigger] new.verification_methods[i],
            ) by {
                if i < old.verification_methods.len() {
                    assert(new.verification_methods[i] == old.verification_methods[i]);
                }
            }
        },
        Instruction::RemoveVerificationMethod => {
            let vms = old.verification_methods;
            let f = crate::instructions::shared::spec_fragment_arg(args)->Ok_0;
            crate::rules::lemma_vm_position(vms, f);
            let k = crate::rules::vm_position(vms, f);
            assert forall|i: int| 0 <= i < new.verification_methods.len() implies wf_vm(
                #[trigger] new.verification_methods[i],
            ) by {
                if i < k {
                    assert(new.verification_methods[i] == vms[i]);
                } else {
                    assert(new.verification_methods[i] == vms[i + 1]);
                }
            }
        },
        Instruction::SetVerificationMethodFlags => {
            let vms = old.verification_methods;
            let (f, flags) = crate::instructions::set_verification_method_flags::spec_flag_args(
                args,
            )->Ok_0;
            crate::rules::lemma_vm_position(vms, f);
            let k = crate::rules::vm_position(vms, f);
            assert forall|i: int| 0 <= i < new.verification_methods.len() implies wf_vm(
                #[trigger] new.verification_methods[i],
            ) by {
                assert(wf_vm(vms[i]));
            }
        },
        Instruction::AddService => {
            let svc = spec_service_args(args)->Ok_0;
            assert(wf_service(svc));
            assert forall|i: int| 0 <= i < new.services.len() implies wf_service(
                #[trigger] new.services[i],
            ) by {
                if i < old.services.len() {
                    assert(new.services[i] == old.services[i]);
                }
            }
        },
        Instruction::RemoveService => {
            let svcs = old.services;
            let f = crate::instructions::shared::spec_fragment_arg(args)->Ok_0;
            crate::rules::lemma_svc_position(svcs, f);
            let k = crate::rules::svc_position(svcs, f);
            assert forall|i: int| 0 <= i < new.services.len() implies wf_service(
                #[trigger] new.services[i],
            ) by {
                if i < k {
                    assert(new.services[i] == svcs[i]);
                } else {
                    assert(new.services[i] == svcs[i + 1]);
                }
            }
        },
        Instruction::SetControllers => {
            let nc = crate::state::read_u32_at(args, 0)->0;
            let oc = crate::state::read_u32_at(args, 4 + 32 * nc)->0;
            crate::roundtrip::lemma_lp_run_fits(args, 8 + 32 * nc, oc as nat);
            let run = crate::state::lp_run(args, 8 + 32 * nc, oc as nat);
            assert forall|i: int| 0 <= i < new.other_controllers.len() implies fits_u32(
                #[trigger] new.other_controllers[i],
            ) by {
                assert(new.other_controllers[i] == run[i].bytes);
            }
        },
        Instruction::Deactivate => {
        },
        _ => {
        },
    }
}

/// What an edit writes reads back: the new account content decodes to
/// exactly the document the edit decided (within what a machine can hold).
pub proof fn law_edits_read_back(ix: Instruction, accounts: Seq<Account>, args: Seq<u8>)
    requires
        spec_edit(ix, accounts, args) is Ok,
        accounts[did_index(ix)].data@.len() <= usize::MAX,
        ser_document(spec_edit(ix, accounts, args)->Ok_0.1).len() <= usize::MAX,
    ensures
        decode_document(ser_document(spec_edit(ix, accounts, args)->Ok_0.1)) == Some(
            spec_edit(ix, accounts, args)->Ok_0.1,
        ),
{
    lemma_edit_wf(ix, accounts, args);
    lemma_decode_serialized(spec_edit(ix, accounts, args)->Ok_0.1);
}

/// One if `vm` is an update authority.
pub open spec fn authority_bit(vm: VerificationMethod) -> nat {
    if vm_is_authority(vm) {
        1
    } else {
        0
    }
}

/// Counting authorities over two runs of methods.
proof fn lemma_authorities_concat(a: Seq<VerificationMethod>, b: Seq<VerificationMethod>)
    ensures
        authorities(a + b) == authorities(a) + authorities(b),
    decreases b.len(),
{
    if b.len() == 0 {
        assert(a + b =~= a);
    } else {
        lemma_authorities_concat(a, b.drop_last());
        assert((a + b).drop_last() =~= a + b.drop_last());
    }
}

/// The authorities around the `k`-th method.
proof fn lemma_authorities_split(vms: Seq<VerificationMethod>, k: int)
    requires
        0 <= k < vms.len(),
    ensures
        authorities(vms) == authorities(vms.take(k)) + authority_bit(vms[k]) + authorities(
            vms.skip(k + 1),
        ),
{
    let one = seq![vms[k]];
    assert(vms =~= vms.take(k) + one + vms.skip(k + 1));
    lemma_authorities_concat(vms.take(k) + one, vms.skip(k + 1));
    lemma_authorities_concat(vms.take(k), one);
    assert(one.drop_last() =~= Seq::<VerificationMethod>::empty());
    assert(authorities(one.drop_last()) == 0);
    assert(one.last() == vms[k]);
    assert(authorities(one) == authority_bit(vms[k]));
}

/// A signer that is an update authority is counted.
proof fn lemma_authority_counted(doc: Document, signer: Seq<u8>)
    requires
        signer_is_authority(doc, signer),
    ensures
        authorities(doc.verification_methods) >= 1,
{
    let vms = doc.verification_methods;
    let i = choose|i: int|
        0 <= i < vms.len() && vm_is_authority(#[trigger] vms[i]) && vms[i].key == signer;
    lemma_authorities_split(vms, i);
}

/// An update authority survives every edit short of deactivation: the
/// last capabilityInvocation Ed25519 key can never be removed or
/// de-flagged.
pub proof fn law_an_authority_survives(ix: Instruction, accounts: Seq<Account>, args: Seq<u8>)
    requires
        spec_edit(ix, accounts, args) is Ok,
        ix != Instruction::Deactivate,
    ensures
        authorities(spec_edit(ix, accounts, args)->Ok_0.1.verification_methods) >= 1,
{
    let old = old_document(ix, accounts)->0;
    let new = spec_edit(ix, accounts, args)->Ok_0.1;
    let vms = old.verification_methods;
    lemma_authority_counted(old, edit_signer(ix, accounts));
    match ix {
        Instruction::AddVerificationMethod => {
            let vm = spec_vm_args(args)->Ok_0;
            lemma_authorities_concat(vms, seq![vm]);
            assert(vms.push(vm) =~= vms + seq![vm]);
        },
        Instruction::AddVerificationMethodFromBuffer => {
            let vm = staged_method(accounts[3].data@);
            lemma_authorities_concat(vms, seq![vm]);
            assert(vms.push(vm) =~= vms + seq![vm]);
        },
        Instruction::RemoveVerificationMethod => {
            let f = crate::instructions::shared::spec_fragment_arg(args)->Ok_0;
            crate::rules::lemma_vm_position(vms, f);
            let k = crate::rules::vm_position(vms, f);
            lemma_authorities_split(vms, k);
            assert(vms.remove(k) =~= vms.take(k) + vms.skip(k + 1));
            lemma_authorities_concat(vms.take(k), vms.skip(k + 1));
        },
        Instruction::SetVerificationMethodFlags => {
            let (f, flags) = crate::instructions::set_verification_method_flags::spec_flag_args(
                args,
            )->Ok_0;
            crate::rules::lemma_vm_position(vms, f);
            let k = crate::rules::vm_position(vms, f);
            let nvms = new.verification_methods;
            lemma_authorities_split(vms, k);
            lemma_authorities_split(nvms, k);
            assert(nvms.take(k) =~= vms.take(k));
            assert(nvms.skip(k + 1) =~= vms.skip(k + 1));
        },
        _ => {
        },
    }
}

/// A protected method: it changes only under its own key.
pub open spec fn is_protected(vm: VerificationMethod) -> bool {
    vm.flags & VM_FLAG_PROTECTED != 0
}

/// Every protected method whose key is not `signer`'s passes through
/// unchanged from `old` to `new`, both ways: none leaves or changes, and
/// none appears.
pub open spec fn protected_of_others_kept(
    old: Seq<VerificationMethod>,
    new: Seq<VerificationMethod>,
    signer: Seq<u8>,
) -> bool {
    &&& forall|i: int|
        0 <= i < old.len() && is_protected(#[trigger] old[i]) && old[i].key != signer
            ==> new.contains(old[i])
    &&& forall|j: int|
        0 <= j < new.len() && is_protected(#[trigger] new[j]) && new[j].key != signer
            ==> old.contains(new[j])
}

proof fn lemma_protected_or(a: u16, b: u16)
    ensures
        (a & VM_FLAG_PROTECTED != 0 || b & VM_FLAG_PROTECTED != 0) ==> (a | b) & VM_FLAG_PROTECTED
            != 0,
{
    assert((a & 256u16 != 0 || b & 256u16 != 0) ==> (a | b) & 256u16 != 0) by (bit_vector);
}

/// Protected verification methods only change under their own key: an
/// edit other than deactivation neither removes, alters nor plants a
/// protected method whose key is not the signer's.
pub proof fn law_protected_methods_need_their_own_key(
    ix: Instruction,
    accounts: Seq<Account>,
    args: Seq<u8>,
)
    requires
        spec_edit(ix, accounts, args) is Ok,
        ix != Instruction::Deactivate,
    ensures
        protected_of_others_kept(
            old_document(ix, accounts)->0.verification_methods,
            spec_edit(ix, accounts, args)->Ok_0.1.verification_methods,
            edit_signer(ix, accounts),
        ),
{
    let old = old_document(ix, accounts)->0;
    let new = spec_edit(ix, accounts, args)->Ok_0.1;
    let vms = old.verification_methods;
    let nvms = new.verification_methods;
    let signer = edit_signer(ix, accounts);
    match ix {
        Instruction::AddVerificationMethod | Instruction::AddVerificationMethodFromBuffer => {
            assert forall|i: int|
                0 <= i < vms.len() && is_protected(#[trigger] vms[i]) && vms[i].key != signer
                    implies nvms.contains(vms[i]) by {
                assert(nvms[i] == vms[i]);
            }
            assert forall|j: int|
                0 <= j < nvms.len() && is_protected(#[trigger] nvms[j]) && nvms[j].key != signer
                    implies vms.contains(nvms[j]) by {
                assert(nvms[j] == vms[j]);
            }
        },
        Instruction::RemoveVerificationMethod => {
            let f = crate::instructions::shared::spec_fragment_arg(args)->Ok_0;
            crate::rules::lemma_vm_position(vms, f);
            let k = crate::rules::vm_position(vms, f);
            assert forall|i: int|
                0 <= i < vms.len() && is_protected(#[trigger] vms[i]) && vms[i].key != signer
                    implies nvms.contains(vms[i]) by {
                if i < k {
                    assert(nvms[i] == vms[i]);
                } else {
                    assert(i != k);
                    assert(nvms[i - 1] == vms[i]);
                }
            }
            assert forall|j: int|
                0 <= j < nvms.len() && is_protected(#[trigger] nvms[j]) && nvms[j].key != signer
                    implies vms.contains(nvms[j]) by {
                if j < k {
                    assert(nvms[j] == vms[j]);
                } else {
                    assert(nvms[j] == vms[j + 1]);
                }
            }
        },
        Instruction::SetVerificationMethodFlags => {
            let (f, flags) = crate::instructions::set_verification_method_flags::spec_flag_args(
                args,
            )->Ok_0;
            crate::rules::lemma_vm_position(vms, f);
            let k = crate::rules::vm_position(vms, f);
            lemma_protected_or(vms[k].flags, flags);
            assert forall|i: int|
                0 <= i < vms.len() && is_protected(#[trigger] vms[i]) && vms[i].key != signer
                    implies nvms.contains(vms[i]) by {
                assert(nvms[i] == vms[i]);
            }
            assert forall|j: int|
                0 <= j < nvms.len() && is_protected(#[trigger] nvms[j]) && nvms[j].key != signer
                    implies vms.contains(nvms[j]) by {
                assert(nvms[j] == vms[j]);
            }
        },
        _ => {
            assert(nvms == vms);
            assert forall|i: int|
                0 <= i < vms.len() && is_protected(#[trigger] vms[i]) && vms[i].key != signer
                    implies nvms.contains(vms[i]) by {
                assert(nvms[i] == vms[i]);
            }
            assert forall|j: int|
                0 <= j < nvms.len() && is_protected(#[trigger] nvms[j]) && nvms[j].key != signer
                    implies vms.contains(nvms[j]) by {
                assert(nvms[j] == vms[j]);
            }
        },
    }
}

/// No two verification methods or services of a document share a
/// fragment.
pub open spec fn fragments_unique(doc: Document) -> bool {
    let vms = doc.verification_methods;
    let svcs = doc.services;
    &&& forall|i: int, j: int|
        #![trigger vms[i], vms[j]]
        0 <= i < j < vms.len() ==> vms[i].fragment != vms[j].fragment
    &&& forall|i: int, j: int|
        #![trigger svcs[i], svcs[j]]
        0 <= i < j < svcs.len() ==> svcs[i].fragment != svcs[j].fragment
    &&& forall|i: int, j: int|
        #![trigger vms[i], svcs[j]]
        0 <= i < vms.len() && 0 <= j < svcs.len() ==> vms[i].fragment != svcs[j].fragment
}

/// A document within the registry's limits.
pub open spec fn within_limits(doc: Document) -> bool {
    &&& doc.verification_methods.len() <= crate::state::MAX_VERIFICATION_METHODS
    &&& doc.services.len() <= crate::state::MAX_SERVICES
    &&& doc.native_controllers.len() <= crate::state::MAX_NATIVE_CONTROLLERS
    &&& doc.other_controllers.len() <= crate::state::MAX_OTHER_CONTROLLERS
}

/// Every edit keeps fragments unique: a fragment names at most one
/// verification method or service.
pub proof fn law_edits_keep_fragments_unique(ix: Instruction, accounts: Seq<Account>, args: Seq<u8>)
    requires
        spec_edit(ix, accounts, args) is Ok,
        fragments_unique(old_document(ix, accounts)->0),
    ensures
        fragments_unique(spec_edit(ix, accounts, args)->Ok_0.1),
{
    let old = old_document(ix, accounts)->0;
    let new = spec_edit(ix, accounts, args)->Ok_0.1;
    let vms = old.verification_methods;
    let svcs = old.services;
    let nvms = new.verification_methods;
    let nsvcs = new.services;
    match ix {
        Instruction::AddVerificationMethod | Instruction::AddVerificationMethodFromBuffer => {
            let vm = nvms.last();
            assert(nvms == vms.push(vm));
            assert(!crate::rules::fragment_used(old, vm.fragment));
            assert(nsvcs == svcs);
            assert forall|i: int, j: int| 0 <= i < j < nvms.len() implies nvms[i].fragment
                != nvms[j].fragment by {
                assert(nvms[i] == vms[i]);
                if j < vms.len() {
                    assert(nvms[j] == vms[j]);
                } else {
                    assert(vms[i].fragment != vm.fragment);
                }
            }
            assert forall|i: int, j: int| 0 <= i < nvms.len() && 0 <= j < nsvcs.len() implies nvms[i].fragment
                != nsvcs[j].fragment by {
                if i < vms.len() {
                    assert(nvms[i] == vms[i]);
                } else {
                    assert(svcs[j].fragment != vm.fragment);
                }
            }
        },
        Instruction::RemoveVerificationMethod => {
            let f = crate::instructions::shared::spec_fragment_arg(args)->Ok_0;
            crate::rules::lemma_vm_position(vms, f);
            let k = crate::rules::vm_position(vms, f);
            assert(nsvcs == svcs);
            assert forall|i: int, j: int| 0 <= i < j < nvms.len() implies nvms[i].fragment
                != nvms[j].fragment by {
                let a = if i < k { i } else { i + 1 };
                let b = if j < k { j } else { j + 1 };
                assert(nvms[i] == vms[a]);
                assert(nvms[j] == vms[b]);
            }
            assert forall|i: int, j: int| 0 <= i < nvms.len() && 0 <= j < nsvcs.len() implies nvms[i].fragment
                != nsvcs[j].fragment by {
                let a = if i < k { i } else { i + 1 };
                assert(nvms[i] == vms[a]);
            }
        },
        Instruction::SetVerificationMethodFlags => {
            let (f, flags) = crate::instructions::set_verification_method_flags::spec_flag_args(
                args,
            )->Ok_0;
            crate::rules::lemma_vm_position(vms, f);
            let k = crate::rules::vm_position(vms, f);
            assert(nsvcs == svcs);
            assert forall|i: int| 0 <= i < nvms.len() implies (#[trigger] nvms[i]).fragment
                == vms[i].fragment by {
            }
            assert forall|i: int, j: int| 0 <= i < j < nvms.len() implies nvms[i].fragment
                != nvms[j].fragment by {
                assert(nvms[i].fragment == vms[i].fragment);
                assert(nvms[j].fragment == vms[j].fragment);
            }
            assert forall|i: int, j: int| 0 <= i < nvms.len() && 0 <= j < nsvcs.len() implies nvms[i].fragment
                != nsvcs[j].fragment by {
                assert(nvms[i].fragment == vms[i].fragment);
            }
        },
        Instruction::AddService => {
            let svc = spec_service_args(args)->Ok_0;
            assert(!crate::rules::fragment_used(old, svc.fragment));
            assert(nvms == vms);
            assert forall|i: int, j: int| 0 <= i < j < nsvcs.len() implies nsvcs[i].fragment
                != nsvcs[j].fragment by {
                assert(nsvcs[i] == svcs[i]);
                if j < svcs.len() {
                    assert(nsvcs[j] == svcs[j]);
                } else {
                    assert(svcs[i].fragment != svc.fragment);
                }
            }
            assert forall|i: int, j: int| 0 <= i < nvms.len() && 0 <= j < nsvcs.len() implies nvms[i].fragment
                != nsvcs[j].fragment by {
                if j < svcs.len() {
                    assert(nsvcs[j] == svcs[j]);
                } else {
                    assert(vms[i].fragment != svc.fragment);
                }
            }
        },
        Instruction::RemoveService => {
            let f = crate::instructions::shared::spec_fragment_arg(args)->Ok_0;
            crate::rules::lemma_svc_position(svcs, f);
            let k = crate::rules::svc_position(svcs, f);
            assert(nvms == vms);
            assert forall|i: int, j: int| 0 <= i < j < nsvcs.len() implies nsvcs[i].fragment
                != nsvcs[j].fragment by {
                let a = if i < k { i } else { i + 1 };
                let b = if j < k { j } else { j + 1 };
                assert(nsvcs[i] == svcs[a]);
                assert(nsvcs[j] == svcs[b]);
            }
            assert forall|i: int, j: int| 0 <= i < nvms.len() && 0 <= j < nsvcs.len() implies nvms[i].fragment
                != nsvcs[j].fragment by {
                let b = if j < k { j } else { j + 1 };
                assert(nsvcs[j] == svcs[b]);
            }
        },
        _ => {
        },
    }
}

/// Every edit keeps a document within the registry's limits.
pub proof fn law_edits_keep_limits(ix: Instruction, accounts: Seq<Account>, args: Seq<u8>)
    requires
        spec_edit(ix, accounts, args) is Ok,
        within_limits(old_document(ix, accounts)->0),
    ensures
        within_limits(spec_edit(ix, accounts, args)->Ok_0.1),
{
    let old = old_document(ix, accounts)->0;
    let new = spec_edit(ix, accounts, args)->Ok_0.1;
    match ix {
        Instruction::RemoveVerificationMethod => {
            let f = crate::instructions::shared::spec_fragment_arg(args)->Ok_0;
            crate::rules::lemma_vm_position(old.verification_methods, f);
            let k = crate::rules::vm_position(old.verification_methods, f);
            assert(new.verification_methods.len() == old.verification_methods.len() - 1);
        },
        Instruction::RemoveService => {
            let f = crate::instructions::shared::spec_fragment_arg(args)->Ok_0;
            crate::rules::lemma_svc_position(old.services, f);
            let k = crate::rules::svc_position(old.services, f);
            assert(new.services.len() == old.services.len() - 1);
        },
        Instruction::SetVerificationMethodFlags => {
            let (f, flags) = crate::instructions::set_verification_method_flags::spec_flag_args(
                args,
            )->Ok_0;
            crate::rules::lemma_vm_position(old.verification_methods, f);
            assert(new.verification_methods.len() == old.verification_methods.len());
        },
        Instruction::AddVerificationMethod | Instruction::AddVerificationMethodFromBuffer => {
            assert(new.verification_methods.len() == old.verification_methods.len() + 1);
        },
        Instruction::AddService => {
            assert(new.services.len() == old.services.len() + 1);
        },
        _ => {
        },
    }
    assert(within_limits(new));
}

/// Deactivation is permanent, part one: a deactivated document refuses
/// every edit.
pub proof fn law_deactivated_documents_refuse_edits(
    ix: Instruction,
    accounts: Seq<Account>,
    args: Seq<u8>,
)
    requires
        old_document(ix, accounts) is Some,
        old_document(ix, accounts)->0.deactivated != 0,
    ensures
        spec_edit(ix, accounts, args) is Err,
{
    if spec_edit(ix, accounts, args) is Ok {
        law_edits_need_an_authority(ix, accounts, args);
    }
}

/// Deactivation is permanent, part two: a deactivation leaves a
/// tombstone, which is deactivated, holds nothing else, takes
/// `TOMBSTONE_SPACE` bytes and reads back as itself.
pub proof fn law_deactivation_leaves_a_tombstone(accounts: Seq<Account>, args: Seq<u8>)
    requires
        spec_deactivate(accounts, args) is Ok,
        accounts[2].data@.len() <= usize::MAX,
    ensures
        ({
            let t = spec_deactivate(accounts, args)->Ok_0.1;
            &&& t.deactivated != 0
            &&& t.native_controllers.len() == 0 && t.other_controllers.len() == 0
            &&& t.verification_methods.len() == 0 && t.services.len() == 0
            &&& ser_document(t).len() == crate::state::TOMBSTONE_SPACE
            &&& decode_document(ser_document(t)) == Some(t)
        }),
{
    let t = spec_deactivate(accounts, args)->Ok_0.1;
    lemma_edit_wf(Instruction::Deactivate, accounts, args);
    crate::bytes::lemma_u64_le(t.version);
    crate::bytes::lemma_i64_le(t.updated_at);
    crate::bytes::lemma_u32_le(0);
    assert(crate::model::ser_keys(t.native_controllers) =~= Seq::<u8>::empty());
    assert(crate::model::ser_lps(t.other_controllers) =~= Seq::<u8>::empty());
    assert(crate::model::ser_vms(t.verification_methods) =~= Seq::<u8>::empty());
    assert(crate::model::ser_services(t.services) =~= Seq::<u8>::empty());
    lemma_decode_serialized(t);
}

/// Deactivation is permanent, part three: creation takes an account that
/// holds no data, so a tombstone never comes back as a new document.
pub proof fn law_creation_needs_an_empty_account(accounts: Seq<Account>, args: Seq<u8>)
    ensures
        crate::instructions::initialize::spec_initialize(accounts, args) is Ok
            ==> accounts[1].data@.len() == 0,
        crate::instructions::initialize_owned::spec_initialize_owned(accounts, args) is Ok
            ==> accounts[2].data@.len() == 0,
{
}

/// A sponsor who pays for the creation of a DID gains no control: the
/// only key that can edit a new document is the authority it was created
/// for (the subject itself, for `initialize`).
pub proof fn law_creation_grants_only_the_authority(
    subject: Seq<u8>,
    authority: Seq<u8>,
    bump: u8,
    now: i64,
    signer: Seq<u8>,
)
    ensures
        authority_rule(
            crate::instructions::initialize::initial_document(subject, authority, bump, now),
            signer,
        ) is Ok <==> signer == authority,
{
    let doc = crate::instructions::initialize::initial_document(subject, authority, bump, now);
    let vm = doc.verification_methods[0];
    assert(vm_is_authority(vm)) by {
        assert(crate::state::VM_FLAGS_DEFAULT & crate::state::VM_FLAG_CAPABILITY_INVOCATION != 0)
            by (bit_vector);
    }
    if signer == authority {
        assert(signer_is_authority(doc, signer));
    }
}

/// A key subject is a key: `initialize` creates a document only for a
/// subject on the Ed25519 curve, so no DID is born without an authority
/// that can sign.
pub proof fn law_initialize_needs_a_key(accounts: Seq<Account>, args: Seq<u8>)
    ensures
        crate::instructions::initialize::spec_initialize(accounts, args) is Ok
            ==> crate::address::on_curve(args),
{
}

/// An owned DID is created only under its authority's signature.
pub proof fn law_owned_dids_need_their_authority(accounts: Seq<Account>, args: Seq<u8>)
    ensures
        crate::instructions::initialize_owned::spec_initialize_owned(accounts, args) is Ok
            ==> accounts[1].is_signer,
{
}

/// The document with its version bumped (saturating) and its time set.
pub open spec fn stamped(doc: Document, now: i64) -> Document {
    Document { version: crate::state::bumped(doc.version), updated_at: now, ..doc }
}

/// `touch` reads and writes only the head of a buffer.
proof fn lemma_touch_head_only(h: Seq<u8>, r: Seq<u8>, now: i64)
    requires
        h.len() == crate::state::OFF_SECTIONS,
    ensures
        crate::state::spec_version(h + r) == crate::state::spec_version(h),
        crate::state::spec_touch(h + r, now) == crate::state::spec_touch(h, now) + r,
{
    assert((h + r).subrange(8, 16) =~= h.subrange(8, 16));
    assert((h + r).subrange(0, 8) =~= h.subrange(0, 8));
    assert((h + r).subrange(16, 50) =~= h.subrange(16, 50));
    assert((h + r).subrange(58, (h + r).len() as int) =~= h.subrange(58, 58) + r);
    assert(crate::state::spec_touch(h + r, now) =~= crate::state::spec_touch(h, now) + r);
}

/// `touch` stamps the head of a document.
proof fn lemma_touch_stamps_head(doc: Document, now: i64)
    requires
        doc.subject.len() == 32,
    ensures
        crate::model::ser_head(doc).len() == crate::state::OFF_SECTIONS,
        crate::state::spec_version(crate::model::ser_head(doc)) == doc.version,
        crate::state::spec_touch(crate::model::ser_head(doc), now) == crate::model::ser_head(
            stamped(doc, now),
        ),
{
    let h = crate::model::ser_head(doc);
    let t = stamped(doc, now);
    crate::bytes::lemma_u64_le(doc.version);
    crate::bytes::lemma_u64_le(t.version);
    crate::bytes::lemma_i64_le(doc.updated_at);
    crate::bytes::lemma_i64_le(now);
    assert(h.subrange(8, 16) =~= crate::bytes::u64_le(doc.version));
    assert(crate::state::spec_touch(h, now) =~= crate::model::ser_head(t));
}

/// `touch` stamps the document an account holds: the version goes up by
/// one (saturating) and the update time is `now`, nothing else changes.
pub proof fn law_touch_stamps(doc: Document, now: i64)
    requires
        doc.subject.len() == 32,
    ensures
        crate::state::spec_touch(ser_document(doc), now) == ser_document(stamped(doc, now)),
        crate::state::spec_version(crate::state::spec_touch(ser_document(doc), now))
            == crate::state::bumped(doc.version),
{
    let t = stamped(doc, now);
    let h = crate::model::ser_head(doc);
    let r = crate::model::ser_controllers(doc) + crate::model::ser_vm_section(doc)
        + crate::model::ser_service_section(doc);
    assert(ser_document(doc) =~= h + r);
    assert(ser_document(t) =~= crate::model::ser_head(t) + r);
    lemma_touch_stamps_head(doc, now);
    lemma_touch_stamps_head(t, now);
    lemma_touch_head_only(h, r, now);
    lemma_touch_head_only(crate::model::ser_head(t), r, now);
}

/// Every edit ends exact and stamped: the account's final content is the
/// decided document with its version up by one (from the version it had
/// before the edit) and its update time `now`, serialized without a byte
/// to spare: the walk over its sections ends at its last byte.
pub proof fn law_edits_end_exact_and_stamped(
    ix: Instruction,
    accounts: Seq<Account>,
    args: Seq<u8>,
    now: i64,
)
    requires
        spec_edit(ix, accounts, args) is Ok,
        accounts[did_index(ix)].data@.len() <= usize::MAX,
        ser_document(spec_edit(ix, accounts, args)->Ok_0.1).len() <= usize::MAX,
    ensures
        ({
            let old = old_document(ix, accounts)->0;
            let new = spec_edit(ix, accounts, args)->Ok_0.1;
            let fin = crate::state::spec_touch(ser_document(new), now);
            &&& crate::state::spec_version(ser_document(new)) == old.version
            &&& decode_document(fin) == Some(stamped(new, now))
            &&& crate::state::parse_sections(fin)->0.end == fin.len()
            &&& crate::state::spec_version(fin) == crate::state::bumped(old.version)
        }),
{
    law_edits_keep_the_subject(ix, accounts, args);
    lemma_edit_wf(ix, accounts, args);
    lemma_finished_document(spec_edit(ix, accounts, args)->Ok_0.1, now);
}

/// Every edit settles exactly: the account's final content is exact-size
/// (the walk over its sections ends at its last byte), and settling its
/// balance of `current` lamports against `minimum`, the rent-exempt
/// minimum for that size, with a payer holding `payer` lamports, leaves
/// the account with exactly `minimum`: the payer funds the gap or takes
/// the refund, and no lamport is created or lost.
pub proof fn law_edits_settle_exact(
    ix: Instruction,
    accounts: Seq<Account>,
    args: Seq<u8>,
    now: i64,
    minimum: u64,
    current: u64,
    payer: u64,
)
    requires
        spec_edit(ix, accounts, args) is Ok,
        accounts[did_index(ix)].data@.len() <= usize::MAX,
        ser_document(spec_edit(ix, accounts, args)->Ok_0.1).len() <= usize::MAX,
    ensures
        ({
            let fin = crate::state::spec_touch(
                ser_document(spec_edit(ix, accounts, args)->Ok_0.1),
                now,
            );
            crate::state::parse_sections(fin)->0.end == fin.len()
        }),
        match crate::rent::spec_settlement(minimum, current, payer) {
            Ok(crate::rent::Settlement::Settled) => current == minimum,
            Ok(crate::rent::Settlement::Fund(x)) => current + x == minimum,
            Ok(crate::rent::Settlement::Refund { account_lamports, payer_lamports }) => {
                &&& account_lamports == minimum
                &&& account_lamports + payer_lamports == current + payer
            },
            Err(_) => payer + current - minimum > u64::MAX,
        },
{
    law_edits_end_exact_and_stamped(ix, accounts, args, now);
    law_settlement_is_exact(minimum, current, payer);
}

/// Every edit emits one event, and it names what happened: the
/// discriminator (`DidDeactivated` for a deactivation, `DidModified` for
/// any other edit), the DID account's address, the subject the document
/// held, and the version the edit leaves, one above the one it found:
/// 80 bytes in all.
pub proof fn law_edits_emit_their_event(ix: Instruction, accounts: Seq<Account>, args: Seq<u8>, now: i64)
    requires
        spec_edit(ix, accounts, args) is Ok,
        accounts[did_index(ix)].data@.len() <= usize::MAX,
        ser_document(spec_edit(ix, accounts, args)->Ok_0.1).len() <= usize::MAX,
    ensures
        ({
            let old = old_document(ix, accounts)->0;
            let data = ser_document(spec_edit(ix, accounts, args)->Ok_0.1);
            let event = crate::events::spec_event(
                crate::events::spec_event_for(ix)@,
                accounts[did_index(ix)].address@,
                spec_edit(ix, accounts, args)->Ok_0.0,
                crate::state::bumped(crate::state::spec_version(data)),
            );
            &&& crate::state::bumped(crate::state::spec_version(data)) == crate::state::spec_version(
                crate::state::spec_touch(data, now),
            )
            &&& event == (if ix == Instruction::Deactivate {
                crate::events::DID_DEACTIVATED@
            } else {
                crate::events::DID_MODIFIED@
            }) + accounts[did_index(ix)].address@ + old.subject + crate::bytes::u64_le(
                crate::state::bumped(old.version),
            )
            &&& event.len() == 80
        }),
{
    lemma_edits_are_not_creations(ix, accounts, args);
    law_edits_keep_the_subject(ix, accounts, args);
    lemma_edit_wf(ix, accounts, args);
    lemma_decoded_wf(accounts[did_index(ix)].data@);
    lemma_edit_event_of(
        ix,
        accounts[did_index(ix)].address@,
        spec_edit(ix, accounts, args)->Ok_0.0,
        old_document(ix, accounts)->0,
        spec_edit(ix, accounts, args)->Ok_0.1,
        now,
    );
}

/// The event of an edit `ix` that turns `old` into `new`, on behalf of
/// `old`'s subject.
proof fn lemma_edit_event_of(
    ix: Instruction,
    address: Seq<u8>,
    subject: Seq<u8>,
    old: Document,
    new: Document,
    now: i64,
)
    requires
        ix != Instruction::Initialize,
        ix != Instruction::InitializeOwned,
        address.len() == 32,
        old.subject.len() == 32,
        subject == old.subject,
        new.version == old.version,
        wf_document(new),
        ser_document(new).len() <= usize::MAX,
    ensures
        ({
            let data = ser_document(new);
            let event = crate::events::spec_event(
                crate::events::spec_event_for(ix)@,
                address,
                subject,
                crate::state::bumped(crate::state::spec_version(data)),
            );
            &&& crate::state::bumped(crate::state::spec_version(data)) == crate::state::spec_version(
                crate::state::spec_touch(data, now),
            )
            &&& event == (if ix == Instruction::Deactivate {
                crate::events::DID_DEACTIVATED@
            } else {
                crate::events::DID_MODIFIED@
            }) + address + old.subject + crate::bytes::u64_le(crate::state::bumped(old.version))
            &&& event.len() == 80
        }),
{
    lemma_finished_document(new, now);
    lemma_edit_event(ix, address, subject, old.version);
}

/// Creations are not edits.
proof fn lemma_edits_are_not_creations(ix: Instruction, accounts: Seq<Account>, args: Seq<u8>)
    requires
        spec_edit(ix, accounts, args) is Ok,
    ensures
        ix != Instruction::Initialize,
        ix != Instruction::InitializeOwned,
{
}

/// The bytes of the event an edit emits.
proof fn lemma_edit_event(ix: Instruction, address: Seq<u8>, subject: Seq<u8>, version: u64)
    requires
        ix != Instruction::Initialize,
        ix != Instruction::InitializeOwned,
        address.len() == 32,
        subject.len() == 32,
    ensures
        crate::events::spec_event(
            crate::events::spec_event_for(ix)@,
            address,
            subject,
            crate::state::bumped(version),
        ) == (if ix == Instruction::Deactivate {
            crate::events::DID_DEACTIVATED@
        } else {
            crate::events::DID_MODIFIED@
        }) + address + subject + crate::bytes::u64_le(crate::state::bumped(version)),
        crate::events::spec_event(
            crate::events::spec_event_for(ix)@,
            address,
            subject,
            crate::state::bumped(version),
        ).len() == 80,
{
    crate::bytes::lemma_u64_le(crate::state::bumped(version));
}

/// A document's serialization, stamped by `touch`, is the stamped
/// document's serialization, and nothing follows its sections.
proof fn lemma_finished_document(doc: Document, now: i64)
    requires
        wf_document(doc),
        ser_document(doc).len() <= usize::MAX,
    ensures
        crate::state::spec_version(ser_document(doc)) == doc.version,
        decode_document(crate::state::spec_touch(ser_document(doc), now)) == Some(
            stamped(doc, now),
        ),
        crate::state::parse_sections(crate::state::spec_touch(ser_document(doc), now))->0.end
            == crate::state::spec_touch(ser_document(doc), now).len(),
        crate::state::spec_version(crate::state::spec_touch(ser_document(doc), now))
            == crate::state::bumped(doc.version),
{
    let t = stamped(doc, now);
    law_touch_stamps(doc, now);
    lemma_serialized_version(doc);
    lemma_stamped_len(doc, now);
    lemma_decode_serialized(t);
}

/// The version a document's serialization carries is the document's.
proof fn lemma_serialized_version(doc: Document)
    requires
        doc.subject.len() == 32,
    ensures
        crate::state::spec_version(ser_document(doc)) == doc.version,
{
    let h = crate::model::ser_head(doc);
    let r = crate::model::ser_controllers(doc) + crate::model::ser_vm_section(doc)
        + crate::model::ser_service_section(doc);
    assert(ser_document(doc) =~= h + r);
    lemma_touch_stamps_head(doc, 0);
    lemma_touch_head_only(h, r, 0);
}

/// Stamping keeps a document's size and well-formedness.
proof fn lemma_stamped_len(doc: Document, now: i64)
    requires
        wf_document(doc),
    ensures
        wf_document(stamped(doc, now)),
        ser_document(stamped(doc, now)).len() == ser_document(doc).len(),
{
    let t = stamped(doc, now);
    let r = crate::model::ser_controllers(doc) + crate::model::ser_vm_section(doc)
        + crate::model::ser_service_section(doc);
    assert(ser_document(doc) =~= crate::model::ser_head(doc) + r);
    assert(ser_document(t) =~= crate::model::ser_head(t) + r);
    lemma_touch_stamps_head(doc, now);
    lemma_touch_stamps_head(t, now);
}

/// Rent settlement is exact: afterwards the account holds exactly the
/// rent-exempt minimum, and no lamport is created or lost.
pub proof fn law_settlement_is_exact(minimum: u64, current: u64, payer: u64)
    ensures
        match crate::rent::spec_settlement(minimum, current, payer) {
            Ok(crate::rent::Settlement::Settled) => current == minimum,
            Ok(crate::rent::Settlement::Fund(x)) => current + x == minimum,
            Ok(crate::rent::Settlement::Refund { account_lamports, payer_lamports }) => {
                &&& account_lamports == minimum
                &&& account_lamports + payer_lamports == current + payer
            },
            Err(_) => payer + current - minimum > u64::MAX,
        },
{
}

/// Accounts stay exact-size: an account that holds exactly a document's
/// serialization has no trailing bytes, so the edit that patches flags in
/// place (keeping trailing bytes) leaves it exact-size too.
pub proof fn law_exact_accounts_have_no_trailing_bytes(doc: Document)
    requires
        wf_document(doc),
        ser_document(doc).len() <= usize::MAX,
    ensures
        crate::instructions::set_verification_method_flags::trailing_bytes(ser_document(doc))
            == Seq::<u8>::empty(),
{
    lemma_decode_serialized(doc);
    let d = ser_document(doc);
    assert(d.subrange(d.len() as int, d.len() as int) =~= Seq::<u8>::empty());
}

/// The first position of a fragment is unique.
pub(crate) proof fn lemma_first_vm_unique(vms: Seq<VerificationMethod>, f: Seq<u8>, k: int)
    requires
        crate::rules::first_vm_with(vms, f, k),
    ensures
        crate::rules::vm_position(vms, f) == k,
{
    crate::rules::lemma_vm_position(vms, f);
    let c = crate::rules::vm_position(vms, f);
    if c < k {
        assert(vms[c].fragment != f);
    } else if c > k {
        assert(vms[k].fragment != f);
    }
}

/// The first position of a service fragment is unique.
proof fn lemma_first_svc_unique(svcs: Seq<crate::model::Service>, f: Seq<u8>, k: int)
    requires
        crate::rules::first_svc_with(svcs, f, k),
    ensures
        crate::rules::svc_position(svcs, f) == k,
{
    crate::rules::lemma_svc_position(svcs, f);
    let c = crate::rules::svc_position(svcs, f);
    if c < k {
        assert(svcs[c].fragment != f);
    } else if c > k {
        assert(svcs[k].fragment != f);
    }
}

/// Removing a method undoes adding it: once a document accepts a method
/// from a signer, the same signer may remove it by its fragment, and the
/// document is as it was.
pub proof fn law_removing_a_method_undoes_adding_it(
    doc: Document,
    signer: Seq<u8>,
    vm: VerificationMethod,
)
    requires
        crate::instructions::add_verification_method::add_vm_rule(doc, signer, vm) is Ok,
    ensures
        ({
            let added = crate::instructions::add_verification_method::with_vm(doc, vm);
            let k = doc.verification_methods.len() as int;
            &&& crate::instructions::remove_verification_method::remove_vm_rule(
                added,
                signer,
                vm.fragment,
            ) == Ok::<int, RegistryError>(k)
            &&& crate::instructions::remove_verification_method::without_vm(added, k) == doc
        }),
{
    let vms = doc.verification_methods;
    let added = crate::instructions::add_verification_method::with_vm(doc, vm);
    let nvms = added.verification_methods;
    let k = vms.len() as int;
    assert(!crate::rules::fragment_used(doc, vm.fragment));
    assert(crate::rules::first_vm_with(nvms, vm.fragment, k)) by {
        assert forall|j: int| 0 <= j < k implies (#[trigger] nvms[j]).fragment != vm.fragment by {
            assert(nvms[j] == vms[j]);
        }
    }
    lemma_first_vm_unique(nvms, vm.fragment, k);
    assert(crate::rules::vm_fragment_used(nvms, vm.fragment)) by {
        assert(nvms[k] == vm);
    }
    // The signer stays an authority.
    let i = choose|i: int|
        0 <= i < vms.len() && vm_is_authority(#[trigger] vms[i]) && vms[i].key == signer;
    assert(nvms[i] == vms[i]);
    assert(signer_is_authority(added, signer));
    // A method added next to an authority is not the last one.
    lemma_authority_counted(doc, signer);
    lemma_authorities_concat(vms, seq![vm]);
    assert(nvms =~= vms + seq![vm]);
    lemma_authorities_split(seq![vm], 0);
    assert(seq![vm].take(0) =~= Seq::<VerificationMethod>::empty());
    assert(seq![vm].skip(1) =~= Seq::<VerificationMethod>::empty());
    assert(nvms.remove(k) =~= vms);
    let back = crate::instructions::remove_verification_method::without_vm(added, k);
    assert(back.verification_methods == vms);
    assert(back == doc);
}

/// Removing a service undoes adding it: once a document accepts a service
/// from a signer, the same signer may remove it by its fragment, and the
/// document is as it was.
pub proof fn law_removing_a_service_undoes_adding_it(
    doc: Document,
    signer: Seq<u8>,
    svc: crate::model::Service,
)
    requires
        crate::instructions::add_service::add_service_rule(doc, signer, svc) is Ok,
    ensures
        ({
            let added = crate::instructions::add_service::with_service(doc, svc);
            let k = doc.services.len() as int;
            &&& crate::instructions::remove_service::remove_service_rule(
                added,
                signer,
                svc.fragment,
            ) == Ok::<int, RegistryError>(k)
            &&& crate::instructions::remove_service::without_service(added, k) == doc
        }),
{
    let svcs = doc.services;
    let added = crate::instructions::add_service::with_service(doc, svc);
    let nsvcs = added.services;
    let k = svcs.len() as int;
    assert(!crate::rules::fragment_used(doc, svc.fragment));
    assert(crate::rules::first_svc_with(nsvcs, svc.fragment, k)) by {
        assert forall|j: int| 0 <= j < k implies (#[trigger] nsvcs[j]).fragment != svc.fragment by {
            assert(nsvcs[j] == svcs[j]);
        }
    }
    lemma_first_svc_unique(nsvcs, svc.fragment, k);
    assert(crate::rules::svc_fragment_used(nsvcs, svc.fragment)) by {
        assert(nsvcs[k] == svc);
    }
    assert(added.verification_methods == doc.verification_methods);
    assert(signer_is_authority(added, signer));
    assert(nsvcs.remove(k) =~= svcs);
    let back = crate::instructions::remove_service::without_service(added, k);
    assert(back.services == svcs);
    assert(back == doc);
}

/// Edits never change whose DID it is: the subject, the bump and the
/// version (which only `touch` moves) stay as they were.
pub proof fn law_edits_keep_the_subject(ix: Instruction, accounts: Seq<Account>, args: Seq<u8>)
    requires
        spec_edit(ix, accounts, args) is Ok,
    ensures
        spec_edit(ix, accounts, args)->Ok_0.1.subject == old_document(ix, accounts)->0.subject,
        spec_edit(ix, accounts, args)->Ok_0.1.bump == old_document(ix, accounts)->0.bump,
        spec_edit(ix, accounts, args)->Ok_0.1.version == old_document(ix, accounts)->0.version,
        spec_edit(ix, accounts, args)->Ok_0.0 == old_document(ix, accounts)->0.subject,
{
    match ix {
        Instruction::AddVerificationMethod => {},
        Instruction::AddVerificationMethodFromBuffer => {},
        Instruction::RemoveVerificationMethod => {},
        Instruction::SetVerificationMethodFlags => {},
        Instruction::AddService => {},
        Instruction::RemoveService => {},
        Instruction::SetControllers => {},
        Instruction::Deactivate => {},
        _ => {},
    }
}

/// A larger account never needs less rent: under one rent sysvar, the
/// rent-exempt minimum (or, for a threshold other than 2.0, the base the
/// threshold scales) grows with the data length.
pub proof fn law_rent_grows_with_size(classic: Seq<u8>, condensed: Seq<u8>, a: nat, b: nat)
    requires
        a <= b,
    ensures
        (crate::rent::spec_classic_rent(classic, a) is Ok && crate::rent::spec_classic_rent(
            classic,
            b,
        ) is Ok) ==> match (
            crate::rent::spec_classic_rent(classic, a)->Ok_0,
            crate::rent::spec_classic_rent(classic, b)->Ok_0,
        ) {
            (crate::rent::RentQuote::Exact(x), crate::rent::RentQuote::Exact(y)) => x <= y,
            (
                crate::rent::RentQuote::Scaled { base: x, threshold: s },
                crate::rent::RentQuote::Scaled { base: y, threshold: t },
            ) => x <= y && s == t,
            _ => false,
        },
        (crate::rent::spec_condensed_rent(condensed, a) is Ok
            && crate::rent::spec_condensed_rent(condensed, b) is Ok)
            ==> crate::rent::spec_condensed_rent(condensed, a)->Ok_0
            <= crate::rent::spec_condensed_rent(condensed, b)->Ok_0,
{
    let ba = crate::rent::ACCOUNT_STORAGE_OVERHEAD + a;
    let bb = crate::rent::ACCOUNT_STORAGE_OVERHEAD + b;
    let p = crate::bytes::le_u64(classic.subrange(0, 8)) as int;
    let q = crate::bytes::le_u64(condensed) as int;
    assert(ba * p <= bb * p) by (nonlinear_arith)
        requires
            0 <= ba <= bb,
            0 <= p,
    ;
    assert(ba * q <= bb * q) by (nonlinear_arith)
        requires
            0 <= ba <= bb,
            0 <= q,
    ;
}

} // verus!
