//! The registry's rules, stated over the document, and the facts that tie
//! the byte-level checks of `state` to them.

use vstd::prelude::*;

use crate::error::{DidError, RegistryError};
use crate::model::{
    doc_of, sections_shape, svc_model, svc_models, vm_model, vm_models, Document, Service,
    VerificationMethod,
};
use crate::state::{
    authorizes, count_authorities, services_of, spec_find_service, spec_find_vm, spec_require_authority, spec_require_fragment_free,
    svc_first_match, svc_fragment_in, vm_first_match, vm_fragment_in, vms_of, Sections, VmEntry, VM_FLAG_CAPABILITY_INVOCATION, VM_TYPE_ED25519,
};

verus! {

/// An Ed25519 method carrying capabilityInvocation: an update authority.
pub open spec fn vm_is_authority(vm: VerificationMethod) -> bool {
    vm.method_type == VM_TYPE_ED25519 && vm.flags & VM_FLAG_CAPABILITY_INVOCATION != 0
}

/// `signer` is the key of an update authority of the document.
pub open spec fn signer_is_authority(doc: Document, signer: Seq<u8>) -> bool {
    exists|i: int|
        0 <= i < doc.verification_methods.len() && vm_is_authority(
            #[trigger] doc.verification_methods[i],
        ) && doc.verification_methods[i].key == signer
}

/// Who may mutate a document: nobody once it is deactivated, otherwise the
/// key of an update authority.
pub open spec fn authority_rule(doc: Document, signer: Seq<u8>) -> Result<(), RegistryError> {
    if doc.deactivated != 0 {
        Err(RegistryError::Domain(DidError::DidDeactivated))
    } else if signer_is_authority(doc, signer) {
        Ok(())
    } else {
        Err(RegistryError::Domain(DidError::Unauthorized))
    }
}

/// The number of update authorities among `vms`.
pub open spec fn authorities(vms: Seq<VerificationMethod>) -> nat
    decreases vms.len(),
{
    if vms.len() == 0 {
        0
    } else {
        authorities(vms.drop_last()) + if vm_is_authority(vms.last()) {
            1nat
        } else {
            0nat
        }
    }
}

/// Some verification method carries fragment `f`.
pub open spec fn vm_fragment_used(vms: Seq<VerificationMethod>, f: Seq<u8>) -> bool {
    exists|i: int| 0 <= i < vms.len() && (#[trigger] vms[i]).fragment == f
}

/// Some service carries fragment `f`.
pub open spec fn svc_fragment_used(svcs: Seq<Service>, f: Seq<u8>) -> bool {
    exists|i: int| 0 <= i < svcs.len() && (#[trigger] svcs[i]).fragment == f
}

/// Fragment `f` names a verification method or a service of the document.
pub open spec fn fragment_used(doc: Document, f: Seq<u8>) -> bool {
    vm_fragment_used(doc.verification_methods, f) || svc_fragment_used(doc.services, f)
}

/// `k` is the first verification method whose fragment is `f`.
pub open spec fn first_vm_with(vms: Seq<VerificationMethod>, f: Seq<u8>, k: int) -> bool {
    &&& 0 <= k < vms.len()
    &&& vms[k].fragment == f
    &&& forall|j: int| 0 <= j < k ==> (#[trigger] vms[j]).fragment != f
}

/// `k` is the first service whose fragment is `f`.
pub open spec fn first_svc_with(svcs: Seq<Service>, f: Seq<u8>, k: int) -> bool {
    &&& 0 <= k < svcs.len()
    &&& svcs[k].fragment == f
    &&& forall|j: int| 0 <= j < k ==> (#[trigger] svcs[j]).fragment != f
}

/// The position of the first verification method with fragment `f`.
pub open spec fn vm_position(vms: Seq<VerificationMethod>, f: Seq<u8>) -> int {
    choose|k: int| first_vm_with(vms, f, k)
}

/// The position of the first service with fragment `f`.
pub open spec fn svc_position(svcs: Seq<Service>, f: Seq<u8>) -> int {
    choose|k: int| first_svc_with(svcs, f, k)
}

/// A used fragment has a first position.
pub proof fn lemma_vm_position(vms: Seq<VerificationMethod>, f: Seq<u8>)
    requires
        vm_fragment_used(vms, f),
    ensures
        first_vm_with(vms, f, vm_position(vms, f)),
    decreases vms.len(),
{
    let i = choose|i: int| 0 <= i < vms.len() && (#[trigger] vms[i]).fragment == f;
    if vm_fragment_used(vms.drop_last(), f) {
        lemma_vm_position(vms.drop_last(), f);
        let k = vm_position(vms.drop_last(), f);
        assert(vms.drop_last()[k] == vms[k]);
        assert forall|j: int| 0 <= j < k implies (#[trigger] vms[j]).fragment != f by {
            assert(vms.drop_last()[j] == vms[j]);
        }
        assert(first_vm_with(vms, f, k));
    } else {
        let k = vms.len() - 1;
        assert forall|j: int| 0 <= j < k implies (#[trigger] vms[j]).fragment != f by {
            assert(vms.drop_last()[j] == vms[j]);
            if vms[j].fragment == f {
                assert(vms.drop_last()[j].fragment == f);
            }
        }
        if i < k {
            assert(vms.drop_last()[i] == vms[i]);
        }
        assert(first_vm_with(vms, f, k));
    }
}

/// A used fragment has a first position.
pub proof fn lemma_svc_position(svcs: Seq<Service>, f: Seq<u8>)
    requires
        svc_fragment_used(svcs, f),
    ensures
        first_svc_with(svcs, f, svc_position(svcs, f)),
    decreases svcs.len(),
{
    let i = choose|i: int| 0 <= i < svcs.len() && (#[trigger] svcs[i]).fragment == f;
    if svc_fragment_used(svcs.drop_last(), f) {
        lemma_svc_position(svcs.drop_last(), f);
        let k = svc_position(svcs.drop_last(), f);
        assert(svcs.drop_last()[k] == svcs[k]);
        assert forall|j: int| 0 <= j < k implies (#[trigger] svcs[j]).fragment != f by {
            assert(svcs.drop_last()[j] == svcs[j]);
        }
        assert(first_svc_with(svcs, f, k));
    } else {
        let k = svcs.len() - 1;
        assert forall|j: int| 0 <= j < k implies (#[trigger] svcs[j]).fragment != f by {
            assert(svcs.drop_last()[j] == svcs[j]);
            if svcs[j].fragment == f {
                assert(svcs.drop_last()[j].fragment == f);
            }
        }
        if i < k {
            assert(svcs.drop_last()[i] == svcs[i]);
        }
        assert(first_svc_with(svcs, f, k));
    }
}

// ---------------------------------------------------------------------------
// The byte-level checks decide what the rules say
// ---------------------------------------------------------------------------

/// On a buffer whose walk succeeds, the authority check is the authority
/// rule of its document.
pub proof fn lemma_authority_bridge(d: Seq<u8>, s: Sections, signer: Seq<u8>)
    requires
        sections_shape(d, s),
        d.len() > 49,
    ensures
        spec_require_authority(d, s, signer) == authority_rule(doc_of(d, s), signer),
{
    let es = vms_of(d, s);
    let doc = doc_of(d, s);
    assert(doc.verification_methods == vm_models(es));
    if exists|i: int| 0 <= i < es.len() && authorizes(#[trigger] es[i], signer) {
        let i = choose|i: int| 0 <= i < es.len() && authorizes(#[trigger] es[i], signer);
        assert(doc.verification_methods[i] == vm_model(es[i]));
        assert(signer_is_authority(doc, signer));
    }
    if signer_is_authority(doc, signer) {
        let i = choose|i: int|
            0 <= i < doc.verification_methods.len() && vm_is_authority(
                #[trigger] doc.verification_methods[i],
            ) && doc.verification_methods[i].key == signer;
        assert(doc.verification_methods[i] == vm_model(es[i]));
        assert(authorizes(es[i], signer));
    }
}

/// Counting authorities over entries counts them over the methods.
pub proof fn lemma_count_bridge(es: Seq<VmEntry>)
    ensures
        count_authorities(es) == authorities(vm_models(es)),
    decreases es.len(),
{
    if es.len() > 0 {
        lemma_count_bridge(es.drop_last());
        assert(vm_models(es).drop_last() =~= vm_models(es.drop_last()));
        assert(vm_models(es).last() == vm_model(es.last()));
    }
}

/// On a buffer whose walk succeeds, the search for a verification method
/// finds the document's first one with that fragment.
pub proof fn lemma_find_vm_bridge(d: Seq<u8>, s: Sections, f: Seq<u8>)
    requires
        sections_shape(d, s),
    ensures
        ({
            let vms = doc_of(d, s).verification_methods;
            let es = vms_of(d, s);
            &&& spec_find_vm(d, s, f) is Ok
            &&& (spec_find_vm(d, s, f)->Ok_0 is Some) == vm_fragment_used(vms, f)
            &&& vm_fragment_used(vms, f) ==> {
                &&& first_vm_with(vms, f, vm_position(vms, f))
                &&& spec_find_vm(d, s, f)->Ok_0 == Some(es[vm_position(vms, f)])
            }
        }),
{
    let es = vms_of(d, s);
    let vms = doc_of(d, s).verification_methods;
    assert(vms == vm_models(es));
    if vm_fragment_in(es, f) {
        let i = choose|i: int| 0 <= i < es.len() && (#[trigger] es[i]).fragment == f;
        assert(vms[i] == vm_model(es[i]));
        assert(vm_fragment_used(vms, f));
    }
    if vm_fragment_used(vms, f) {
        lemma_vm_position(vms, f);
        let k = vm_position(vms, f);
        assert(vms[k] == vm_model(es[k]));
        assert forall|j: int| 0 <= j < k implies (#[trigger] es[j]).fragment != f by {
            assert(vms[j] == vm_model(es[j]));
        }
        assert(vm_first_match(es, f, k));
        assert(vm_fragment_in(es, f));
        let c = choose|c: int| vm_first_match(es, f, c);
        assert(c == k) by {
            if c < k {
                assert(es[c].fragment != f);
            } else if c > k {
                assert(es[k].fragment != f);
            }
        }
    }
}

/// On a buffer whose walk succeeds, the search for a service finds the
/// document's first one with that fragment.
pub proof fn lemma_find_service_bridge(d: Seq<u8>, s: Sections, f: Seq<u8>)
    requires
        sections_shape(d, s),
    ensures
        ({
            let svcs = doc_of(d, s).services;
            let es = services_of(d, s);
            &&& spec_find_service(d, s, f) is Ok
            &&& (spec_find_service(d, s, f)->Ok_0 is Some) == svc_fragment_used(svcs, f)
            &&& svc_fragment_used(svcs, f) ==> {
                &&& first_svc_with(svcs, f, svc_position(svcs, f))
                &&& spec_find_service(d, s, f)->Ok_0 == Some(es[svc_position(svcs, f)])
            }
        }),
{
    let es = services_of(d, s);
    let svcs = doc_of(d, s).services;
    assert(svcs == svc_models(es));
    if svc_fragment_in(es, f) {
        let i = choose|i: int| 0 <= i < es.len() && (#[trigger] es[i]).fragment == f;
        assert(svcs[i] == svc_model(es[i]));
        assert(svc_fragment_used(svcs, f));
    }
    if svc_fragment_used(svcs, f) {
        lemma_svc_position(svcs, f);
        let k = svc_position(svcs, f);
        assert(svcs[k] == svc_model(es[k]));
        assert forall|j: int| 0 <= j < k implies (#[trigger] es[j]).fragment != f by {
            assert(svcs[j] == svc_model(es[j]));
        }
        assert(svc_first_match(es, f, k));
        assert(svc_fragment_in(es, f));
        let c = choose|c: int| svc_first_match(es, f, c);
        assert(c == k) by {
            if c < k {
                assert(es[c].fragment != f);
            } else if c > k {
                assert(es[k].fragment != f);
            }
        }
    }
}

/// On a buffer whose walk succeeds, the fragment check is whether the
/// document already uses the fragment.
pub proof fn lemma_fragment_free_bridge(d: Seq<u8>, s: Sections, f: Seq<u8>)
    requires
        sections_shape(d, s),
    ensures
        spec_require_fragment_free(d, s, f) == (if fragment_used(doc_of(d, s), f) {
            Err(RegistryError::Domain(DidError::FragmentAlreadyInUse))
        } else {
            Ok::<(), RegistryError>(())
        }),
{
    lemma_find_vm_bridge(d, s, f);
    lemma_find_service_bridge(d, s, f);
}

} // verus!
