//! Reading a serialization back: every well-formed document decodes from
//! its own serialization, so what an instruction writes is what a reader
//! of the account gets.

use vstd::prelude::*;

use crate::bytes::{lemma_i64_le, lemma_u16_le, lemma_u32_le, lemma_u64_le, u32_le};
use crate::model::{
    decode_document, doc_of, fits_u32, keys_at, lp_bytes, ser_controllers, ser_document,
    ser_head, ser_keys, ser_lp, ser_lps, ser_service, ser_service_section, ser_services, ser_vm,
    ser_vm_section, ser_vms, svc_models, vm_models, wf_document, wf_service, wf_vm, Document,
    Service, VerificationMethod,
};
use crate::state::{
    lp_at, lp_entry_at, lp_run, lp_run_end, parse_sections, read_u32_at, services_of,
    svc_entry_at, svc_run, svc_run_end, vm_entry_at, vm_run, vm_run_end, vms_of, OFF_SECTIONS,
};

verus! {

/// `d` holds `piece` at `off`.
pub open spec fn holds_at(d: Seq<u8>, off: int, piece: Seq<u8>) -> bool {
    0 <= off && off + piece.len() <= d.len() && d.subrange(off, off + piece.len()) == piece
}

/// A piece held at `off` holds its own prefix and suffix.
proof fn lemma_holds_split(d: Seq<u8>, off: int, a: Seq<u8>, b: Seq<u8>)
    requires
        holds_at(d, off, a + b),
    ensures
        holds_at(d, off, a),
        holds_at(d, off + a.len(), b),
{
    let whole = d.subrange(off, off + (a + b).len());
    assert(whole == a + b);
    assert forall|i: int| 0 <= i < a.len() implies d.subrange(off, off + a.len())[i] == a[i] by {
        assert(whole[i] == (a + b)[i]);
    }
    assert(d.subrange(off, off + a.len()) =~= a);
    assert forall|i: int| 0 <= i < b.len() implies d.subrange(
        off + a.len(),
        off + a.len() + b.len(),
    )[i] == b[i] by {
        assert(whole[a.len() + i] == (a + b)[a.len() + i]);
    }
    assert(d.subrange(off + a.len(), off + a.len() + b.len()) =~= b);
}

/// A `u32` held at `off` reads back.
proof fn lemma_u32_back(d: Seq<u8>, off: int, x: u32)
    requires
        holds_at(d, off, u32_le(x)),
    ensures
        read_u32_at(d, off) == Some(x),
{
    lemma_u32_le(x);
}

/// A length-prefixed item held at `off` reads back.
proof fn lemma_lp_back(d: Seq<u8>, off: int, b: Seq<u8>)
    requires
        fits_u32(b),
        holds_at(d, off, ser_lp(b)),
    ensures
        lp_at(d, off) == Some((b, off + ser_lp(b).len())),
        ser_lp(b).len() == 4 + b.len(),
{
    lemma_u32_le(b.len() as u32);
    lemma_holds_split(d, off, u32_le(b.len() as u32), b);
    lemma_u32_back(d, off, b.len() as u32);
}

/// Length-prefixed items held at `off` read back as a walk.
proof fn lemma_lp_run_back(d: Seq<u8>, off: int, ks: Seq<Seq<u8>>)
    requires
        forall|i: int| 0 <= i < ks.len() ==> fits_u32(#[trigger] ks[i]),
        holds_at(d, off, ser_lps(ks)),
    ensures
        lp_run(d, off, ks.len()).len() == ks.len(),
        lp_bytes(lp_run(d, off, ks.len())) == ks,
        lp_run_end(lp_run(d, off, ks.len()), off) == off + ser_lps(ks).len(),
    decreases ks.len(),
{
    if ks.len() == 0 {
        assert(lp_bytes(lp_run(d, off, 0)) =~= ks);
    } else {
        let init = ks.drop_last();
        let last = ks.last();
        lemma_holds_split(d, off, ser_lps(init), ser_lp(last));
        assert forall|i: int| 0 <= i < init.len() implies fits_u32(#[trigger] init[i]) by {
            assert(init[i] == ks[i]);
        }
        lemma_lp_run_back(d, off, init);
        let prev = lp_run(d, off, init.len());
        let at = off + ser_lps(init).len();
        assert(fits_u32(ks[ks.len() - 1]));
        lemma_lp_back(d, at, last);
        let run = lp_run(d, off, ks.len());
        assert(run == prev.push(lp_entry_at(d, at)->0));
        assert forall|i: int| 0 <= i < ks.len() implies lp_bytes(run)[i] == ks[i] by {
            if i < init.len() {
                assert(run[i] == prev[i]);
                assert(lp_bytes(prev)[i] == init[i]);
            }
        }
        assert(lp_bytes(run) =~= ks);
    }
}

/// A method entry held at `off` reads back.
proof fn lemma_vm_back(d: Seq<u8>, off: int, vm: VerificationMethod)
    requires
        wf_vm(vm),
        holds_at(d, off, ser_vm(vm)),
    ensures
        vm_entry_at(d, off) matches Some(e) && e.start == off && e.end == off + ser_vm(vm).len()
            && crate::model::vm_model(e) == vm,
{
    let a = ser_lp(vm.fragment);
    let t = seq![vm.method_type];
    let f = crate::bytes::u16_le(vm.flags);
    let k = ser_lp(vm.key);
    assert(ser_vm(vm) == a + t + f + k);
    lemma_holds_split(d, off, a + t + f, k);
    lemma_holds_split(d, off, a + t, f);
    lemma_holds_split(d, off, a, t);
    lemma_lp_back(d, off, vm.fragment);
    lemma_lp_back(d, off + a.len() + 3, vm.key);
    lemma_u16_le(vm.flags);
    let o1 = off + a.len();
    assert(d[o1] == vm.method_type) by {
        assert(d.subrange(o1, o1 + 1)[0] == d[o1]);
    }
    assert(d.subrange(o1 + 1, o1 + 3) == f);
}

/// Method entries held at `off` read back as a walk.
proof fn lemma_vm_run_back(d: Seq<u8>, off: int, vms: Seq<VerificationMethod>)
    requires
        forall|i: int| 0 <= i < vms.len() ==> wf_vm(#[trigger] vms[i]),
        holds_at(d, off, ser_vms(vms)),
    ensures
        vm_run(d, off, vms.len()).len() == vms.len(),
        vm_models(vm_run(d, off, vms.len())) == vms,
        vm_run_end(vm_run(d, off, vms.len()), off) == off + ser_vms(vms).len(),
    decreases vms.len(),
{
    if vms.len() == 0 {
        assert(vm_models(vm_run(d, off, 0)) =~= vms);
    } else {
        let init = vms.drop_last();
        let last = vms.last();
        lemma_holds_split(d, off, ser_vms(init), ser_vm(last));
        assert forall|i: int| 0 <= i < init.len() implies wf_vm(#[trigger] init[i]) by {
            assert(init[i] == vms[i]);
        }
        lemma_vm_run_back(d, off, init);
        let prev = vm_run(d, off, init.len());
        let at = off + ser_vms(init).len();
        assert(wf_vm(vms[vms.len() - 1]));
        lemma_vm_back(d, at, last);
        let run = vm_run(d, off, vms.len());
        assert(run == prev.push(vm_entry_at(d, at)->0));
        assert forall|i: int| 0 <= i < vms.len() implies vm_models(run)[i] == vms[i] by {
            if i < init.len() {
                assert(run[i] == prev[i]);
                assert(vm_models(prev)[i] == init[i]);
            }
        }
        assert(vm_models(run) =~= vms);
    }
}

/// A service entry held at `off` reads back.
proof fn lemma_svc_back(d: Seq<u8>, off: int, svc: Service)
    requires
        wf_service(svc),
        holds_at(d, off, ser_service(svc)),
    ensures
        svc_entry_at(d, off) matches Some(e) && e.start == off && e.end == off + ser_service(
            svc,
        ).len() && crate::model::svc_model(e) == svc,
{
    let a = ser_lp(svc.fragment);
    let b = ser_lp(svc.service_type);
    let c = ser_lp(svc.endpoint);
    lemma_holds_split(d, off, a + b, c);
    lemma_holds_split(d, off, a, b);
    lemma_lp_back(d, off, svc.fragment);
    lemma_lp_back(d, off + a.len(), svc.service_type);
    lemma_lp_back(d, off + a.len() + b.len(), svc.endpoint);
}

/// Service entries held at `off` read back as a walk.
proof fn lemma_svc_run_back(d: Seq<u8>, off: int, svcs: Seq<Service>)
    requires
        forall|i: int| 0 <= i < svcs.len() ==> wf_service(#[trigger] svcs[i]),
        holds_at(d, off, ser_services(svcs)),
    ensures
        svc_run(d, off, svcs.len()).len() == svcs.len(),
        svc_models(svc_run(d, off, svcs.len())) == svcs,
        svc_run_end(svc_run(d, off, svcs.len()), off) == off + ser_services(svcs).len(),
    decreases svcs.len(),
{
    if svcs.len() == 0 {
        assert(svc_models(svc_run(d, off, 0)) =~= svcs);
    } else {
        let init = svcs.drop_last();
        let last = svcs.last();
        lemma_holds_split(d, off, ser_services(init), ser_service(last));
        assert forall|i: int| 0 <= i < init.len() implies wf_service(#[trigger] init[i]) by {
            assert(init[i] == svcs[i]);
        }
        lemma_svc_run_back(d, off, init);
        let prev = svc_run(d, off, init.len());
        let at = off + ser_services(init).len();
        assert(wf_service(svcs[svcs.len() - 1]));
        lemma_svc_back(d, at, last);
        let run = svc_run(d, off, svcs.len());
        assert(run == prev.push(svc_entry_at(d, at)->0));
        assert forall|i: int| 0 <= i < svcs.len() implies svc_models(run)[i] == svcs[i] by {
            if i < init.len() {
                assert(run[i] == prev[i]);
                assert(svc_models(prev)[i] == init[i]);
            }
        }
        assert(svc_models(run) =~= svcs);
    }
}

/// 32-byte keys held at `off` read back.
proof fn lemma_keys_back(d: Seq<u8>, off: int, ks: Seq<Seq<u8>>)
    requires
        forall|i: int| 0 <= i < ks.len() ==> (#[trigger] ks[i]).len() == 32,
        holds_at(d, off, ser_keys(ks)),
    ensures
        ser_keys(ks).len() == 32 * ks.len(),
        keys_at(d, off, ks.len()) == ks,
    decreases ks.len(),
{
    if ks.len() == 0 {
        assert(keys_at(d, off, 0) =~= ks);
    } else {
        let init = ks.drop_last();
        lemma_holds_split(d, off, ser_keys(init), ks.last());
        assert forall|i: int| 0 <= i < init.len() implies (#[trigger] init[i]).len() == 32 by {
            assert(init[i] == ks[i]);
        }
        lemma_keys_back(d, off, init);
        assert(ks[ks.len() - 1].len() == 32);
        assert(keys_at(d, off, ks.len()) =~= ks) by {
            assert forall|i: int| 0 <= i < ks.len() implies keys_at(d, off, ks.len())[i]
                == ks[i] by {
                if i < ks.len() - 1 {
                    assert(keys_at(d, off, init.len())[i] == init[i]);
                }
            }
        }
    }
}

/// The head of a document: 58 bytes that carry its scalar fields.
proof fn lemma_head_back(d: Seq<u8>, doc: Document)
    requires
        doc.subject.len() == 32,
        holds_at(d, 0, ser_head(doc)),
    ensures
        ser_head(doc).len() == OFF_SECTIONS,
        crate::state::spec_version(d) == doc.version,
        d[16] == doc.bump,
        d.subrange(17, 49) == doc.subject,
        d[49] == doc.deactivated,
        crate::bytes::le_i64(d.subrange(50, 58)) == doc.updated_at,
{
    lemma_u64_le(doc.version);
    lemma_i64_le(doc.updated_at);
    let h = ser_head(doc);
    assert(d.subrange(0, 58) == h);
    assert(d.subrange(8, 16) =~= h.subrange(8, 16));
    assert(h.subrange(8, 16) =~= crate::bytes::u64_le(doc.version));
    assert(d.subrange(17, 49) =~= h.subrange(17, 49));
    assert(d.subrange(50, 58) =~= h.subrange(50, 58));
    assert(h.subrange(50, 58) =~= crate::bytes::i64_le(doc.updated_at));
    assert(d[16] == h[16]);
    assert(d[49] == h[49]);
}

/// The controller section of a document, held at `p`, reads back.
proof fn lemma_controllers_back(d: Seq<u8>, p: int, doc: Document)
    requires
        wf_document(doc),
        holds_at(d, p, ser_controllers(doc)),
    ensures
        ({
            let nc = doc.native_controllers.len();
            let oc = doc.other_controllers.len();
            let oc_pos = p + 4 + 32 * nc;
            let run = lp_run(d, oc_pos + 4, oc);
            &&& read_u32_at(d, p) == Some(nc as u32)
            &&& keys_at(d, p + 4, nc) == doc.native_controllers
            &&& oc_pos <= d.len()
            &&& read_u32_at(d, oc_pos) == Some(oc as u32)
            &&& run.len() == oc
            &&& lp_bytes(run) == doc.other_controllers
            &&& lp_run_end(run, oc_pos + 4) == p + ser_controllers(doc).len()
        }),
{
    let nc = doc.native_controllers.len() as u32;
    let oc = doc.other_controllers.len() as u32;
    let k = ser_keys(doc.native_controllers);
    let l = ser_lps(doc.other_controllers);
    assert(ser_controllers(doc) == u32_le(nc) + k + u32_le(oc) + l);
    lemma_holds_split(d, p, u32_le(nc) + k + u32_le(oc), l);
    lemma_holds_split(d, p, u32_le(nc) + k, u32_le(oc));
    lemma_holds_split(d, p, u32_le(nc), k);
    lemma_u32_le(nc);
    lemma_u32_le(oc);
    lemma_u32_back(d, p, nc);
    lemma_keys_back(d, p + 4, doc.native_controllers);
    lemma_u32_back(d, p + 4 + 32 * nc, oc);
    lemma_lp_run_back(d, p + 4 + 32 * nc + 4, doc.other_controllers);
}

/// The method section of a document, held at `p`, reads back.
proof fn lemma_vm_section_back(d: Seq<u8>, p: int, doc: Document)
    requires
        wf_document(doc),
        holds_at(d, p, ser_vm_section(doc)),
    ensures
        ({
            let vc = doc.verification_methods.len();
            let run = vm_run(d, p + 4, vc);
            &&& read_u32_at(d, p) == Some(vc as u32)
            &&& run.len() == vc
            &&& vm_models(run) == doc.verification_methods
            &&& vm_run_end(run, p + 4) == p + ser_vm_section(doc).len()
        }),
{
    let vc = doc.verification_methods.len() as u32;
    lemma_holds_split(d, p, u32_le(vc), ser_vms(doc.verification_methods));
    lemma_u32_le(vc);
    lemma_u32_back(d, p, vc);
    lemma_vm_run_back(d, p + 4, doc.verification_methods);
}

/// The service section of a document, held at `p`, reads back.
proof fn lemma_service_section_back(d: Seq<u8>, p: int, doc: Document)
    requires
        wf_document(doc),
        holds_at(d, p, ser_service_section(doc)),
    ensures
        ({
            let sc = doc.services.len();
            let run = svc_run(d, p + 4, sc);
            &&& read_u32_at(d, p) == Some(sc as u32)
            &&& run.len() == sc
            &&& svc_models(run) == doc.services
            &&& svc_run_end(run, p + 4) == p + ser_service_section(doc).len()
        }),
{
    let sc = doc.services.len() as u32;
    lemma_holds_split(d, p, u32_le(sc), ser_services(doc.services));
    lemma_u32_le(sc);
    lemma_u32_back(d, p, sc);
    lemma_svc_run_back(d, p + 4, doc.services);
}

/// The pieces of a document's serialization, each held where it stands.
proof fn lemma_pieces_held(doc: Document)
    requires
        doc.subject.len() == 32,
    ensures
        ({
            let d = ser_document(doc);
            let c = ser_controllers(doc);
            let v = ser_vm_section(doc);
            &&& holds_at(d, 0, ser_head(doc))
            &&& ser_head(doc).len() == OFF_SECTIONS
            &&& holds_at(d, OFF_SECTIONS as int, c)
            &&& holds_at(d, OFF_SECTIONS + c.len(), v)
            &&& holds_at(d, OFF_SECTIONS + c.len() + v.len(), ser_service_section(doc))
            &&& d.len() == OFF_SECTIONS + c.len() + v.len() + ser_service_section(doc).len()
        }),
{
    let d = ser_document(doc);
    let h = ser_head(doc);
    let c = ser_controllers(doc);
    let v = ser_vm_section(doc);
    let t = ser_service_section(doc);
    lemma_u64_le(doc.version);
    lemma_i64_le(doc.updated_at);
    assert(holds_at(d, 0, h + c + v + t)) by {
        assert(d.subrange(0, d.len() as int) =~= d);
    }
    lemma_holds_split(d, 0, h + c + v, t);
    lemma_holds_split(d, 0, h + c, v);
    lemma_holds_split(d, 0, h, c);
}

/// Every well-formed document decodes from its own serialization.
pub proof fn lemma_decode_serialized(doc: Document)
    requires
        wf_document(doc),
        ser_document(doc).len() <= usize::MAX,
    ensures
        decode_document(ser_document(doc)) == Some(doc),
        parse_sections(ser_document(doc))->0.end == ser_document(doc).len(),
{
    let d = ser_document(doc);
    let c = ser_controllers(doc);
    let v = ser_vm_section(doc);
    lemma_pieces_held(doc);
    lemma_head_back(d, doc);
    let p0 = OFF_SECTIONS as int;
    let vm_pos = p0 + c.len();
    let svc_pos = vm_pos + v.len();
    lemma_controllers_back(d, p0, doc);
    lemma_vm_section_back(d, vm_pos, doc);
    lemma_service_section_back(d, svc_pos, doc);
    let ps = parse_sections(d);
    assert(ps is Some);
    let s = ps->0;
    let got = doc_of(d, s);
    assert(got.native_controllers == doc.native_controllers);
    assert(got.other_controllers == doc.other_controllers);
    assert(got.verification_methods == doc.verification_methods);
    assert(got.services == doc.services);
    assert(got == doc);
}

/// Every item of a walk of length-prefixed items fits a `u32` prefix.
pub proof fn lemma_lp_run_fits(d: Seq<u8>, off: int, n: nat)
    ensures
        forall|i: int|
            0 <= i < lp_run(d, off, n).len() ==> fits_u32(#[trigger] lp_run(d, off, n)[i].bytes),
    decreases n,
{
    if n > 0 {
        lemma_lp_run_fits(d, off, (n - 1) as nat);
        let prev = lp_run(d, off, (n - 1) as nat);
        let run = lp_run(d, off, n);
        if run.len() > prev.len() {
            let e = lp_entry_at(d, lp_run_end(prev, off))->0;
            assert(run == prev.push(e));
            assert(fits_u32(e.bytes));
            assert forall|i: int| 0 <= i < run.len() implies fits_u32(#[trigger] run[i].bytes) by {
                if i < prev.len() {
                    assert(run[i] == prev[i]);
                }
            }
        }
    }
}

/// Every entry of a walk of methods is well formed.
proof fn lemma_vm_run_wf(d: Seq<u8>, off: int, n: nat)
    ensures
        forall|i: int|
            0 <= i < vm_run(d, off, n).len() ==> wf_vm(
                crate::model::vm_model(#[trigger] vm_run(d, off, n)[i]),
            ),
    decreases n,
{
    if n > 0 {
        lemma_vm_run_wf(d, off, (n - 1) as nat);
        let prev = vm_run(d, off, (n - 1) as nat);
        let run = vm_run(d, off, n);
        if run.len() > prev.len() {
            let e = vm_entry_at(d, vm_run_end(prev, off))->0;
            assert(run == prev.push(e));
            assert(wf_vm(crate::model::vm_model(e)));
            assert forall|i: int| 0 <= i < run.len() implies wf_vm(
                crate::model::vm_model(#[trigger] run[i]),
            ) by {
                if i < prev.len() {
                    assert(run[i] == prev[i]);
                }
            }
        }
    }
}

/// Every entry of a walk of services is well formed.
proof fn lemma_svc_run_wf(d: Seq<u8>, off: int, n: nat)
    ensures
        forall|i: int|
            0 <= i < svc_run(d, off, n).len() ==> wf_service(
                crate::model::svc_model(#[trigger] svc_run(d, off, n)[i]),
            ),
    decreases n,
{
    if n > 0 {
        lemma_svc_run_wf(d, off, (n - 1) as nat);
        let prev = svc_run(d, off, (n - 1) as nat);
        let run = svc_run(d, off, n);
        if run.len() > prev.len() {
            let e = svc_entry_at(d, svc_run_end(prev, off))->0;
            assert(run == prev.push(e));
            assert(wf_service(crate::model::svc_model(e)));
            assert forall|i: int| 0 <= i < run.len() implies wf_service(
                crate::model::svc_model(#[trigger] run[i]),
            ) by {
                if i < prev.len() {
                    assert(run[i] == prev[i]);
                }
            }
        }
    }
}

/// A decoded document is well formed.
pub proof fn lemma_decoded_wf(d: Seq<u8>)
    requires
        decode_document(d) is Some,
        d.len() <= usize::MAX,
    ensures
        wf_document(decode_document(d)->0),
{
    let s = parse_sections(d)->0;
    crate::model::lemma_parse_shape(d);
    crate::model::lemma_decoded_pieces(d, s);
    let doc = doc_of(d, s);
    lemma_lp_run_fits(d, s.oc_items as int, s.oc_count as nat);
    lemma_vm_run_wf(d, s.vm_items as int, s.vm_count as nat);
    lemma_svc_run_wf(d, s.svc_items as int, s.svc_count as nat);
    assert forall|i: int| 0 <= i < doc.other_controllers.len() implies fits_u32(
        #[trigger] doc.other_controllers[i],
    ) by {
        assert(doc.other_controllers[i] == lp_run(d, s.oc_items as int, s.oc_count as nat)[i].bytes);
    }
    assert forall|i: int| 0 <= i < doc.verification_methods.len() implies wf_vm(
        #[trigger] doc.verification_methods[i],
    ) by {
        assert(doc.verification_methods[i] == crate::model::vm_model(vms_of(d, s)[i]));
    }
    assert forall|i: int| 0 <= i < doc.services.len() implies wf_service(
        #[trigger] doc.services[i],
    ) by {
        assert(doc.services[i] == crate::model::svc_model(services_of(d, s)[i]));
    }
}

} // verus!
