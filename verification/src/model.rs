//! The DID document that an account's bytes encode, and its borsh
//! serialization. Every update rule of the registry is stated over this
//! model: an instruction decodes the document, changes it, and the account
//! ends up holding exactly the serialization of the changed document.

use vstd::prelude::*;

use crate::bytes::{
    i64_le, le_i64, lemma_le_i64, lemma_le_u16, lemma_le_u32, lemma_le_u64, u16_le,
    u32_le, u64_le,
};
use crate::state::{
    lp_at, lp_entry_at, lp_run, lp_run_end, parse_sections, read_u32_at, services_of,
    spec_version, svc_entry_at, svc_run, svc_run_end, vm_entry_at, vm_run, vm_run_end, vms_of,
    LpEntry, Sections, SvcEntry, VmEntry, ACCOUNT_DISCRIMINATOR, OFF_DEACTIVATED, OFF_SECTIONS,
};

verus! {

/// A verification method of a DID document.
pub struct VerificationMethod {
    pub fragment: Seq<u8>,
    pub method_type: u8,
    pub flags: u16,
    pub key: Seq<u8>,
}

/// A service endpoint of a DID document.
pub struct Service {
    pub fragment: Seq<u8>,
    pub service_type: Seq<u8>,
    pub endpoint: Seq<u8>,
}

/// The content of a `DidAccount`.
pub struct Document {
    pub version: u64,
    pub bump: u8,
    pub subject: Seq<u8>,
    /// The stored deactivation byte; `0` means active.
    pub deactivated: u8,
    pub updated_at: i64,
    pub native_controllers: Seq<Seq<u8>>,
    pub other_controllers: Seq<Seq<u8>>,
    pub verification_methods: Seq<VerificationMethod>,
    pub services: Seq<Service>,
}

// ---------------------------------------------------------------------------
// Serialization
// ---------------------------------------------------------------------------

/// A borsh `Vec<u8>`: u32 length, then the bytes.
pub open spec fn ser_lp(b: Seq<u8>) -> Seq<u8> {
    u32_le(b.len() as u32) + b
}

pub open spec fn ser_vm(vm: VerificationMethod) -> Seq<u8> {
    ser_lp(vm.fragment) + seq![vm.method_type] + u16_le(vm.flags) + ser_lp(vm.key)
}

pub open spec fn ser_service(svc: Service) -> Seq<u8> {
    ser_lp(svc.fragment) + ser_lp(svc.service_type) + ser_lp(svc.endpoint)
}

/// Fixed-size keys, back to back.
pub open spec fn ser_keys(ks: Seq<Seq<u8>>) -> Seq<u8>
    decreases ks.len(),
{
    if ks.len() == 0 {
        seq![]
    } else {
        ser_keys(ks.drop_last()) + ks.last()
    }
}

pub open spec fn ser_lps(ks: Seq<Seq<u8>>) -> Seq<u8>
    decreases ks.len(),
{
    if ks.len() == 0 {
        seq![]
    } else {
        ser_lps(ks.drop_last()) + ser_lp(ks.last())
    }
}

pub open spec fn ser_vms(vms: Seq<VerificationMethod>) -> Seq<u8>
    decreases vms.len(),
{
    if vms.len() == 0 {
        seq![]
    } else {
        ser_vms(vms.drop_last()) + ser_vm(vms.last())
    }
}

pub open spec fn ser_services(svcs: Seq<Service>) -> Seq<u8>
    decreases svcs.len(),
{
    if svcs.len() == 0 {
        seq![]
    } else {
        ser_services(svcs.drop_last()) + ser_service(svcs.last())
    }
}

/// Discriminator and the fixed scalar fields: 58 bytes.
pub open spec fn ser_head(doc: Document) -> Seq<u8> {
    ACCOUNT_DISCRIMINATOR@ + u64_le(doc.version) + seq![doc.bump] + doc.subject + seq![
        doc.deactivated,
    ] + i64_le(doc.updated_at)
}

/// The two controller vectors.
pub open spec fn ser_controllers(doc: Document) -> Seq<u8> {
    u32_le(doc.native_controllers.len() as u32) + ser_keys(doc.native_controllers) + u32_le(
        doc.other_controllers.len() as u32,
    ) + ser_lps(doc.other_controllers)
}

/// The verification method vector.
pub open spec fn ser_vm_section(doc: Document) -> Seq<u8> {
    u32_le(doc.verification_methods.len() as u32) + ser_vms(doc.verification_methods)
}

/// The service vector.
pub open spec fn ser_service_section(doc: Document) -> Seq<u8> {
    u32_le(doc.services.len() as u32) + ser_services(doc.services)
}

/// The borsh serialization of a document: the exact content of its account.
pub open spec fn ser_document(doc: Document) -> Seq<u8> {
    ser_head(doc) + ser_controllers(doc) + ser_vm_section(doc) + ser_service_section(doc)
}

/// Lengths fit their u32 prefixes, keys are 32 bytes.
pub open spec fn fits_u32(b: Seq<u8>) -> bool {
    b.len() <= u32::MAX
}

pub open spec fn wf_vm(vm: VerificationMethod) -> bool {
    fits_u32(vm.fragment) && fits_u32(vm.key)
}

pub open spec fn wf_service(svc: Service) -> bool {
    fits_u32(svc.fragment) && fits_u32(svc.service_type) && fits_u32(svc.endpoint)
}

/// A document that has a serialization.
pub open spec fn wf_document(doc: Document) -> bool {
    &&& doc.subject.len() == 32
    &&& doc.native_controllers.len() <= u32::MAX
    &&& doc.other_controllers.len() <= u32::MAX
    &&& doc.verification_methods.len() <= u32::MAX
    &&& doc.services.len() <= u32::MAX
    &&& forall|i: int|
        0 <= i < doc.native_controllers.len() ==> (#[trigger] doc.native_controllers[i]).len()
            == 32
    &&& forall|i: int|
        0 <= i < doc.other_controllers.len() ==> fits_u32(#[trigger] doc.other_controllers[i])
    &&& forall|i: int|
        0 <= i < doc.verification_methods.len() ==> wf_vm(#[trigger] doc.verification_methods[i])
    &&& forall|i: int| 0 <= i < doc.services.len() ==> wf_service(#[trigger] doc.services[i])
}

// ---------------------------------------------------------------------------
// Decoding
// ---------------------------------------------------------------------------

pub open spec fn vm_model(e: VmEntry) -> VerificationMethod {
    VerificationMethod {
        fragment: e.fragment,
        method_type: e.method_type,
        flags: e.flags,
        key: e.key,
    }
}

pub open spec fn svc_model(e: SvcEntry) -> Service {
    Service { fragment: e.fragment, service_type: e.service_type, endpoint: e.endpoint }
}

pub open spec fn lp_bytes(es: Seq<LpEntry>) -> Seq<Seq<u8>> {
    es.map_values(|e: LpEntry| e.bytes)
}

pub open spec fn vm_models(es: Seq<VmEntry>) -> Seq<VerificationMethod> {
    es.map_values(|e: VmEntry| vm_model(e))
}

pub open spec fn svc_models(es: Seq<SvcEntry>) -> Seq<Service> {
    es.map_values(|e: SvcEntry| svc_model(e))
}

/// The 32-byte native controllers stored back to back from `items`.
pub open spec fn keys_at(d: Seq<u8>, items: int, n: nat) -> Seq<Seq<u8>> {
    Seq::new(n, |i: int| d.subrange(items + 32 * i, items + 32 * i + 32))
}

/// The document that the section map `s` of `d` describes.
pub open spec fn doc_of(d: Seq<u8>, s: Sections) -> Document {
    Document {
        version: spec_version(d),
        bump: d[16],
        subject: d.subrange(17, 49),
        deactivated: d[OFF_DEACTIVATED as int],
        updated_at: le_i64(d.subrange(50, 58)),
        native_controllers: keys_at(d, s.nc_items as int, s.nc_count as nat),
        other_controllers: lp_bytes(lp_run(d, s.oc_items as int, s.oc_count as nat)),
        verification_methods: vm_models(vms_of(d, s)),
        services: svc_models(services_of(d, s)),
    }
}

/// The document in an account buffer: defined when the walk over the
/// vector sections succeeds.
pub open spec fn decode_document(d: Seq<u8>) -> Option<Document> {
    match parse_sections(d) {
        None => None,
        Some(s) => Some(doc_of(d, s)),
    }
}

/// What a successful walk establishes about the section map, field by
/// field.
pub open spec fn sections_shape(d: Seq<u8>, s: Sections) -> bool {
    &&& read_u32_at(d, OFF_SECTIONS as int) == Some(s.nc_count as u32)
    &&& s.nc_count <= u32::MAX
    &&& s.nc_items == OFF_SECTIONS + 4
    &&& s.oc_count_pos == s.nc_items + 32 * s.nc_count
    &&& s.oc_count_pos <= d.len()
    &&& read_u32_at(d, s.oc_count_pos as int) == Some(s.oc_count as u32)
    &&& s.oc_count <= u32::MAX
    &&& s.oc_items == s.oc_count_pos + 4
    &&& lp_run(d, s.oc_items as int, s.oc_count as nat).len() == s.oc_count
    &&& s.vm_count_pos == lp_run_end(lp_run(d, s.oc_items as int, s.oc_count as nat), s.oc_items as int)
    &&& read_u32_at(d, s.vm_count_pos as int) == Some(s.vm_count as u32)
    &&& s.vm_count <= u32::MAX
    &&& s.vm_items == s.vm_count_pos + 4
    &&& vms_of(d, s).len() == s.vm_count
    &&& s.svc_count_pos == vm_run_end(vms_of(d, s), s.vm_items as int)
    &&& read_u32_at(d, s.svc_count_pos as int) == Some(s.svc_count as u32)
    &&& s.svc_count <= u32::MAX
    &&& s.svc_items == s.svc_count_pos + 4
    &&& services_of(d, s).len() == s.svc_count
    &&& s.end == svc_run_end(services_of(d, s), s.svc_items as int)
    &&& s.end <= d.len()
}

/// A successful walk yields a section map of this shape.
pub proof fn lemma_parse_shape(d: Seq<u8>)
    requires
        parse_sections(d) is Some,
        d.len() <= usize::MAX,
    ensures
        sections_shape(d, parse_sections(d)->0),
{
    let nc = read_u32_at(d, OFF_SECTIONS as int)->0;
    let oc_pos = OFF_SECTIONS + 4 + 32 * nc;
    let oc = read_u32_at(d, oc_pos)->0;
    let oc_items = oc_pos + 4;
    crate::state::lemma_lp_run_bounds(d, oc_items, oc as nat);
    crate::state::lemma_lp_run_stops(d, oc_items, oc as nat, oc as nat);
    let vm_pos = lp_run_end(lp_run(d, oc_items, oc as nat), oc_items);
    let vc = read_u32_at(d, vm_pos)->0;
    crate::state::lemma_vm_run_bounds(d, vm_pos + 4, vc as nat);
    crate::state::lemma_vm_run_stops(d, vm_pos + 4, vc as nat, vc as nat);
    let svc_pos = vm_run_end(vm_run(d, vm_pos + 4, vc as nat), vm_pos + 4);
    let sc = read_u32_at(d, svc_pos)->0;
    crate::state::lemma_svc_run_bounds(d, svc_pos + 4, sc as nat);
    crate::state::lemma_svc_run_stops(d, svc_pos + 4, sc as nat, sc as nat);
}

// ---------------------------------------------------------------------------
// A decoded document serializes back to the bytes it came from
// ---------------------------------------------------------------------------

proof fn lemma_lp_entry_bytes(d: Seq<u8>, off: int)
    requires
        lp_at(d, off) is Some,
    ensures
        ({
            let (b, end) = lp_at(d, off)->0;
            ser_lp(b) == d.subrange(off, end)
        }),
{
    let (b, end) = lp_at(d, off)->0;
    lemma_le_u32(d.subrange(off, off + 4));
    assert(ser_lp(b) =~= d.subrange(off, end));
}

proof fn lemma_vm_entry_bytes(d: Seq<u8>, off: int)
    requires
        vm_entry_at(d, off) is Some,
    ensures
        ser_vm(vm_model(vm_entry_at(d, off)->0)) == d.subrange(off, vm_entry_at(d, off)->0.end),
{
    let e = vm_entry_at(d, off)->0;
    let (f, o1) = lp_at(d, off)->0;
    lemma_lp_entry_bytes(d, off);
    lemma_lp_entry_bytes(d, o1 + 3);
    lemma_le_u16(d.subrange(o1 + 1, o1 + 3));
    assert(ser_vm(vm_model(e)) =~= d.subrange(off, e.end));
}

proof fn lemma_svc_entry_bytes(d: Seq<u8>, off: int)
    requires
        svc_entry_at(d, off) is Some,
    ensures
        ser_service(svc_model(svc_entry_at(d, off)->0)) == d.subrange(
            off,
            svc_entry_at(d, off)->0.end,
        ),
{
    let e = svc_entry_at(d, off)->0;
    let (f, o1) = lp_at(d, off)->0;
    let (t, o2) = lp_at(d, o1)->0;
    lemma_lp_entry_bytes(d, off);
    lemma_lp_entry_bytes(d, o1);
    lemma_lp_entry_bytes(d, o2);
    assert(ser_service(svc_model(e)) =~= d.subrange(off, e.end));
}

proof fn lemma_lp_run_bytes(d: Seq<u8>, off: int, n: nat)
    requires
        0 <= off <= d.len(),
    ensures
        ser_lps(lp_bytes(lp_run(d, off, n))) == d.subrange(off, lp_run_end(lp_run(d, off, n), off)),
    decreases n,
{
    crate::state::lemma_lp_run_bounds(d, off, n);
    if n == 0 {
        assert(d.subrange(off, off) =~= Seq::<u8>::empty());
    } else {
        let prev = lp_run(d, off, (n - 1) as nat);
        lemma_lp_run_bytes(d, off, (n - 1) as nat);
        crate::state::lemma_lp_run_bounds(d, off, (n - 1) as nat);
        if prev.len() == n - 1 {
            let at = lp_run_end(prev, off);
            if let Some(e) = lp_entry_at(d, at) {
                let run = prev.push(e);
                assert(lp_bytes(run).drop_last() =~= lp_bytes(prev));
                lemma_lp_entry_bytes(d, at);
                assert(d.subrange(off, e.end) =~= d.subrange(off, at) + d.subrange(at, e.end));
            }
        }
    }
}

proof fn lemma_vm_run_bytes(d: Seq<u8>, off: int, n: nat)
    requires
        0 <= off <= d.len(),
    ensures
        ser_vms(vm_models(vm_run(d, off, n))) == d.subrange(off, vm_run_end(vm_run(d, off, n), off)),
    decreases n,
{
    crate::state::lemma_vm_run_bounds(d, off, n);
    if n == 0 {
        assert(d.subrange(off, off) =~= Seq::<u8>::empty());
    } else {
        let prev = vm_run(d, off, (n - 1) as nat);
        lemma_vm_run_bytes(d, off, (n - 1) as nat);
        crate::state::lemma_vm_run_bounds(d, off, (n - 1) as nat);
        if prev.len() == n - 1 {
            let at = vm_run_end(prev, off);
            if let Some(e) = vm_entry_at(d, at) {
                let run = prev.push(e);
                assert(vm_models(run).drop_last() =~= vm_models(prev));
                lemma_vm_entry_bytes(d, at);
                assert(d.subrange(off, e.end) =~= d.subrange(off, at) + d.subrange(at, e.end));
            }
        }
    }
}

proof fn lemma_svc_run_bytes(d: Seq<u8>, off: int, n: nat)
    requires
        0 <= off <= d.len(),
    ensures
        ser_services(svc_models(svc_run(d, off, n))) == d.subrange(
            off,
            svc_run_end(svc_run(d, off, n), off),
        ),
    decreases n,
{
    crate::state::lemma_svc_run_bounds(d, off, n);
    if n == 0 {
        assert(d.subrange(off, off) =~= Seq::<u8>::empty());
    } else {
        let prev = svc_run(d, off, (n - 1) as nat);
        lemma_svc_run_bytes(d, off, (n - 1) as nat);
        crate::state::lemma_svc_run_bounds(d, off, (n - 1) as nat);
        if prev.len() == n - 1 {
            let at = svc_run_end(prev, off);
            if let Some(e) = svc_entry_at(d, at) {
                let run = prev.push(e);
                assert(svc_models(run).drop_last() =~= svc_models(prev));
                lemma_svc_entry_bytes(d, at);
                assert(d.subrange(off, e.end) =~= d.subrange(off, at) + d.subrange(at, e.end));
            }
        }
    }
}

proof fn lemma_keys_bytes(d: Seq<u8>, items: int, n: nat)
    requires
        0 <= items,
        items + 32 * n <= d.len(),
    ensures
        ser_keys(keys_at(d, items, n)) == d.subrange(items, items + 32 * n),
    decreases n,
{
    if n == 0 {
        assert(d.subrange(items, items) =~= Seq::<u8>::empty());
    } else {
        lemma_keys_bytes(d, items, (n - 1) as nat);
        assert(keys_at(d, items, n).drop_last() =~= keys_at(d, items, (n - 1) as nat));
        assert(d.subrange(items, items + 32 * n) =~= d.subrange(items, items + 32 * (n - 1))
            + d.subrange(items + 32 * (n - 1), items + 32 * n));
    }
}

/// The pieces of a decodable buffer are the pieces of the serialization of
/// the document it decodes to.
pub proof fn lemma_decoded_pieces(d: Seq<u8>, s: Sections)
    requires
        sections_shape(d, s),
    ensures
        ({
            let doc = doc_of(d, s);
            &&& OFF_SECTIONS + 4 <= s.oc_count_pos <= s.vm_count_pos
            &&& s.vm_count_pos + 4 <= s.svc_count_pos
            &&& s.svc_count_pos + 4 <= s.end <= d.len()
            &&& d.subrange(8, OFF_SECTIONS as int) == ser_head(doc).subrange(8, OFF_SECTIONS as int)
            &&& ser_head(doc).len() == OFF_SECTIONS
            &&& d.subrange(OFF_SECTIONS as int, s.vm_count_pos as int) == ser_controllers(doc)
            &&& d.subrange(s.vm_count_pos as int, s.svc_count_pos as int) == ser_vm_section(doc)
            &&& d.subrange(s.svc_count_pos as int, s.end as int) == ser_service_section(doc)
            &&& d.subrange(s.vm_items as int, s.svc_count_pos as int) == ser_vms(
                doc.verification_methods,
            )
            &&& d.subrange(s.svc_items as int, s.end as int) == ser_services(doc.services)
            &&& d.subrange(s.oc_items as int, s.vm_count_pos as int) == ser_lps(
                doc.other_controllers,
            )
            &&& doc.native_controllers.len() == s.nc_count
            &&& doc.other_controllers.len() == s.oc_count
            &&& doc.verification_methods.len() == s.vm_count
            &&& doc.services.len() == s.svc_count
        }),
{
    lemma_decoded_head(d, s);
    lemma_decoded_controllers(d, s);
    lemma_decoded_vms(d, s);
    lemma_decoded_services(d, s);
}

proof fn lemma_decoded_head(d: Seq<u8>, s: Sections)
    requires
        sections_shape(d, s),
    ensures
        d.subrange(8, OFF_SECTIONS as int) == ser_head(doc_of(d, s)).subrange(8, OFF_SECTIONS as int),
        ser_head(doc_of(d, s)).len() == OFF_SECTIONS,
{
    let doc = doc_of(d, s);
    lemma_le_u64(d.subrange(8, 16));
    lemma_le_i64(d.subrange(50, 58));
    assert(d.subrange(8, OFF_SECTIONS as int) =~= ser_head(doc).subrange(8, OFF_SECTIONS as int));
}

proof fn lemma_decoded_controllers(d: Seq<u8>, s: Sections)
    requires
        sections_shape(d, s),
    ensures
        OFF_SECTIONS + 4 <= s.oc_count_pos <= s.vm_count_pos,
        d.subrange(OFF_SECTIONS as int, s.vm_count_pos as int) == ser_controllers(doc_of(d, s)),
        d.subrange(s.oc_items as int, s.vm_count_pos as int) == ser_lps(
            doc_of(d, s).other_controllers,
        ),
        doc_of(d, s).native_controllers.len() == s.nc_count,
        doc_of(d, s).other_controllers.len() == s.oc_count,
{
    let doc = doc_of(d, s);
    let oc_pos = s.oc_count_pos as int;
    let vm_pos = s.vm_count_pos as int;
    crate::state::lemma_lp_run_bounds(d, s.oc_items as int, s.oc_count as nat);
    lemma_le_u32(d.subrange(OFF_SECTIONS as int, OFF_SECTIONS + 4));
    lemma_le_u32(d.subrange(oc_pos, oc_pos + 4));
    lemma_keys_bytes(d, OFF_SECTIONS + 4, s.nc_count as nat);
    lemma_lp_run_bytes(d, s.oc_items as int, s.oc_count as nat);
    assert(d.subrange(OFF_SECTIONS as int, vm_pos) =~= d.subrange(
        OFF_SECTIONS as int,
        OFF_SECTIONS + 4,
    ) + d.subrange(OFF_SECTIONS + 4, oc_pos) + d.subrange(oc_pos, oc_pos + 4) + d.subrange(
        oc_pos + 4,
        vm_pos,
    ));
}

proof fn lemma_decoded_vms(d: Seq<u8>, s: Sections)
    requires
        sections_shape(d, s),
    ensures
        s.vm_count_pos + 4 <= s.svc_count_pos,
        d.subrange(s.vm_count_pos as int, s.svc_count_pos as int) == ser_vm_section(doc_of(d, s)),
        d.subrange(s.vm_items as int, s.svc_count_pos as int) == ser_vms(
            doc_of(d, s).verification_methods,
        ),
        doc_of(d, s).verification_methods.len() == s.vm_count,
{
    let vm_pos = s.vm_count_pos as int;
    let svc_pos = s.svc_count_pos as int;
    crate::state::lemma_vm_run_bounds(d, s.vm_items as int, s.vm_count as nat);
    lemma_le_u32(d.subrange(vm_pos, vm_pos + 4));
    lemma_vm_run_bytes(d, s.vm_items as int, s.vm_count as nat);
    assert(d.subrange(vm_pos, svc_pos) =~= d.subrange(vm_pos, vm_pos + 4) + d.subrange(
        vm_pos + 4,
        svc_pos,
    ));
}

proof fn lemma_decoded_services(d: Seq<u8>, s: Sections)
    requires
        sections_shape(d, s),
    ensures
        s.svc_count_pos + 4 <= s.end <= d.len(),
        d.subrange(s.svc_count_pos as int, s.end as int) == ser_service_section(doc_of(d, s)),
        d.subrange(s.svc_items as int, s.end as int) == ser_services(doc_of(d, s).services),
        doc_of(d, s).services.len() == s.svc_count,
{
    let svc_pos = s.svc_count_pos as int;
    let end = s.end as int;
    crate::state::lemma_svc_run_bounds(d, s.svc_items as int, s.svc_count as nat);
    lemma_le_u32(d.subrange(svc_pos, svc_pos + 4));
    lemma_svc_run_bytes(d, s.svc_items as int, s.svc_count as nat);
    assert(d.subrange(svc_pos, end) =~= d.subrange(svc_pos, svc_pos + 4) + d.subrange(
        svc_pos + 4,
        end,
    ));
}

/// Splitting a span of bytes at ascending offsets.
pub proof fn lemma_split4(d: Seq<u8>, p0: int, p1: int, p2: int, p3: int, p4: int)
    requires
        0 <= p0 <= p1 <= p2 <= p3 <= p4 <= d.len(),
    ensures
        d.subrange(p0, p4) == d.subrange(p0, p1) + d.subrange(p1, p2) + d.subrange(p2, p3)
            + d.subrange(p3, p4),
{
    assert(d.subrange(p0, p4) =~= d.subrange(p0, p1) + d.subrange(p1, p2) + d.subrange(p2, p3)
        + d.subrange(p3, p4));
}

proof fn lemma_head_bytes(d: Seq<u8>, head: Seq<u8>)
    requires
        d.len() >= 58,
        head.len() == 58,
        d.subrange(0, 8) == ACCOUNT_DISCRIMINATOR@,
        head.subrange(0, 8) == ACCOUNT_DISCRIMINATOR@,
        d.subrange(8, 58) == head.subrange(8, 58),
    ensures
        d.subrange(0, 58) == head,
{
    assert(d.subrange(0, 58) =~= d.subrange(0, 8) + d.subrange(8, 58));
    assert(head =~= head.subrange(0, 8) + head.subrange(8, 58));
}

/// The bytes before the verification method section of a decodable buffer
/// that carries the account discriminator.
pub proof fn lemma_decoded_prefix(d: Seq<u8>, s: Sections)
    requires
        sections_shape(d, s),
        d.subrange(0, 8) == ACCOUNT_DISCRIMINATOR@,
    ensures
        d.subrange(0, s.vm_count_pos as int) == ser_head(doc_of(d, s)) + ser_controllers(
            doc_of(d, s),
        ),
        d.subrange(0, OFF_SECTIONS as int) == ser_head(doc_of(d, s)),
{
    let doc = doc_of(d, s);
    lemma_decoded_pieces(d, s);
    let head = ser_head(doc);
    assert(head.subrange(0, 8) =~= ACCOUNT_DISCRIMINATOR@);
    lemma_head_bytes(d, head);
    lemma_split2(d, 0, 58, s.vm_count_pos as int);
}

/// Splitting a span of bytes at one offset.
pub proof fn lemma_split2(d: Seq<u8>, p0: int, p1: int, p2: int)
    requires
        0 <= p0 <= p1 <= p2 <= d.len(),
    ensures
        d.subrange(p0, p2) == d.subrange(p0, p1) + d.subrange(p1, p2),
{
    assert(d.subrange(p0, p2) =~= d.subrange(p0, p1) + d.subrange(p1, p2));
}

/// Appending a method appends its serialization.
pub proof fn lemma_ser_vms_push(vms: Seq<VerificationMethod>, vm: VerificationMethod)
    ensures
        ser_vms(vms.push(vm)) == ser_vms(vms) + ser_vm(vm),
{
    assert(vms.push(vm).drop_last() =~= vms);
}

/// Appending a service appends its serialization.
pub proof fn lemma_ser_services_push(svcs: Seq<Service>, svc: Service)
    ensures
        ser_services(svcs.push(svc)) == ser_services(svcs) + ser_service(svc),
{
    assert(svcs.push(svc).drop_last() =~= svcs);
}

/// A decodable buffer that carries the account discriminator holds the
/// serialization of its document, followed by whatever trails it.
pub proof fn lemma_decoded_serializes(d: Seq<u8>, s: Sections)
    requires
        sections_shape(d, s),
        d.subrange(0, 8) == ACCOUNT_DISCRIMINATOR@,
    ensures
        d.subrange(0, s.end as int) == ser_document(doc_of(d, s)),
{
    let doc = doc_of(d, s);
    lemma_decoded_pieces(d, s);
    let head = ser_head(doc);
    assert(head.subrange(0, 8) =~= ACCOUNT_DISCRIMINATOR@);
    lemma_head_bytes(d, head);
    lemma_split4(d, 0, 58, s.vm_count_pos as int, s.svc_count_pos as int, s.end as int);
}


/// Serializing two runs of methods back to back.
pub proof fn lemma_ser_vms_concat(a: Seq<VerificationMethod>, b: Seq<VerificationMethod>)
    ensures
        ser_vms(a + b) == ser_vms(a) + ser_vms(b),
    decreases b.len(),
{
    if b.len() == 0 {
        assert(a + b =~= a);
    } else {
        lemma_ser_vms_concat(a, b.drop_last());
        assert((a + b).drop_last() =~= a + b.drop_last());
    }
}

/// A controller section written by a client: a `u32` count, that many
/// 32-byte keys, a `u32` count and that many length-prefixed items, read
/// back as the serialization of the two lists.
pub proof fn lemma_controller_bytes(d: Seq<u8>, nc: u32, oc: u32)
    requires
        read_u32_at(d, 0) == Some(nc),
        4 + 32 * nc + 4 <= d.len(),
        read_u32_at(d, 4 + 32 * nc) == Some(oc),
        lp_run(d, 8 + 32 * nc, oc as nat).len() == oc,
    ensures
        ({
            let items = 8 + 32 * nc;
            let run = lp_run(d, items, oc as nat);
            &&& items <= lp_run_end(run, items) <= d.len()
            &&& u32_le(nc) + ser_keys(keys_at(d, 4, nc as nat)) + u32_le(oc) + ser_lps(lp_bytes(run))
                == d.subrange(0, lp_run_end(run, items))
        }),
{
    let p = 4 + 32 * nc;
    let items = p + 4;
    let run = lp_run(d, items, oc as nat);
    crate::state::lemma_lp_run_bounds(d, items, oc as nat);
    lemma_le_u32(d.subrange(0, 4));
    lemma_le_u32(d.subrange(p, p + 4));
    lemma_keys_bytes(d, 4, nc as nat);
    lemma_lp_run_bytes(d, items, oc as nat);
    let end = lp_run_end(run, items);
    assert(d.subrange(0, end) =~= d.subrange(0, 4) + d.subrange(4, p) + d.subrange(p, p + 4)
        + d.subrange(items, end));
}

/// Removing a method removes its serialization.
pub proof fn lemma_ser_vms_remove(vms: Seq<VerificationMethod>, k: int)
    requires
        0 <= k < vms.len(),
    ensures
        ser_vms(vms.remove(k)) == ser_vms(vms.take(k)) + ser_vms(vms.skip(k + 1)),
{
    assert(vms.remove(k) =~= vms.take(k) + vms.skip(k + 1));
    lemma_ser_vms_concat(vms.take(k), vms.skip(k + 1));
}

/// Replacing a method replaces its serialization.
pub proof fn lemma_ser_vms_update(vms: Seq<VerificationMethod>, k: int, vm: VerificationMethod)
    requires
        0 <= k < vms.len(),
    ensures
        ser_vms(vms.update(k, vm)) == ser_vms(vms.take(k)) + ser_vm(vm) + ser_vms(vms.skip(k + 1)),
{
    assert(vms.update(k, vm) =~= vms.take(k).push(vm) + vms.skip(k + 1));
    lemma_ser_vms_concat(vms.take(k).push(vm), vms.skip(k + 1));
    lemma_ser_vms_push(vms.take(k), vm);
}

/// Removing a service removes its serialization.
pub proof fn lemma_ser_services_remove(svcs: Seq<Service>, k: int)
    requires
        0 <= k < svcs.len(),
    ensures
        ser_services(svcs.remove(k)) == ser_services(svcs.take(k)) + ser_services(svcs.skip(k + 1)),
{
    assert(svcs.remove(k) =~= svcs.take(k) + svcs.skip(k + 1));
    lemma_ser_services_concat(svcs.take(k), svcs.skip(k + 1));
}

/// Serializing two runs of services back to back.
pub proof fn lemma_ser_services_concat(a: Seq<Service>, b: Seq<Service>)
    ensures
        ser_services(a + b) == ser_services(a) + ser_services(b),
    decreases b.len(),
{
    if b.len() == 0 {
        assert(a + b =~= a);
    } else {
        lemma_ser_services_concat(a, b.drop_last());
        assert((a + b).drop_last() =~= a + b.drop_last());
    }
}

/// What follows a known prefix of a span of bytes.
proof fn lemma_suffix_after(d: Seq<u8>, a: int, b: int, c: int, pre: Seq<u8>, post: Seq<u8>)
    requires
        0 <= a <= b <= d.len(),
        a <= c <= d.len(),
        d.subrange(a, b) == pre,
        d.subrange(a, c) == pre + post,
    ensures
        b <= c,
        d.subrange(b, c) == post,
{
    assert(d.subrange(b, c) =~= (pre + post).subrange(pre.len() as int, (pre + post).len() as int));
}

/// The `k`-th entry of a full walk of `n` methods from `off` starts where
/// the walk of the first `k` ends.
proof fn lemma_vm_run_kth(d: Seq<u8>, off: int, n: nat, k: int)
    requires
        0 <= off <= d.len(),
        vm_run(d, off, n).len() == n,
        0 <= k < n,
    ensures
        vm_run(d, off, k as nat) == vm_run(d, off, n).take(k),
        vm_run(d, off, (k + 1) as nat) == vm_run(d, off, n).take(k + 1),
        vm_entry_at(d, vm_run_end(vm_run(d, off, k as nat), off)) == Some(vm_run(d, off, n)[k]),
        vm_run(d, off, n)[k].start == vm_run_end(vm_run(d, off, k as nat), off),
        vm_run_end(vm_run(d, off, (k + 1) as nat), off) == vm_run(d, off, n)[k].end,
{
    crate::state::lemma_vm_run_prefix(d, off, k as nat, n);
    crate::state::lemma_vm_run_prefix(d, off, (k + 1) as nat, n);
    crate::state::lemma_vm_run_stops(d, off, k as nat, n);
    crate::state::lemma_vm_run_stops(d, off, (k + 1) as nat, n);
    crate::state::lemma_vm_run_stops(d, off, k as nat, k as nat);
    crate::state::lemma_vm_run_stops(d, off, (k + 1) as nat, (k + 1) as nat);
    let run_k1 = vm_run(d, off, (k + 1) as nat);
    assert(run_k1[k] == vm_run(d, off, n)[k]);
}

/// The bytes of a full walk of methods around its `k`-th entry.
proof fn lemma_vm_run_split(d: Seq<u8>, off: int, n: nat, k: int)
    requires
        0 <= off <= d.len(),
        vm_run(d, off, n).len() == n,
        0 <= k < n,
    ensures
        ({
            let es = vm_run(d, off, n);
            let vms = vm_models(es);
            &&& off <= es[k].start <= es[k].end <= vm_run_end(es, off) <= d.len()
            &&& d.subrange(off, es[k].start) == ser_vms(vms.take(k))
            &&& d.subrange(es[k].start, es[k].end) == ser_vm(vms[k])
            &&& d.subrange(es[k].end, vm_run_end(es, off)) == ser_vms(vms.skip(k + 1))
        }),
{
    let es = vm_run(d, off, n);
    let vms = vm_models(es);
    lemma_vm_run_kth(d, off, n, k);
    let e = es[k];
    let last = vm_run_end(es, off);
    crate::state::lemma_vm_run_bounds(d, off, k as nat);
    crate::state::lemma_vm_run_bounds(d, off, (k + 1) as nat);
    crate::state::lemma_vm_run_bounds(d, off, n);
    assert(d.subrange(off, e.start) == ser_vms(vms.take(k))) by {
        lemma_vm_run_bytes(d, off, k as nat);
        assert(vm_models(vm_run(d, off, k as nat)) =~= vms.take(k));
    }
    assert(d.subrange(e.start, e.end) == ser_vm(vms[k])) by {
        lemma_vm_entry_bytes(d, e.start);
    }
    let pre = ser_vms(vms.take(k + 1));
    assert(d.subrange(off, e.end) == pre) by {
        lemma_vm_run_bytes(d, off, (k + 1) as nat);
        assert(vm_models(vm_run(d, off, (k + 1) as nat)) =~= vms.take(k + 1));
    }
    let whole = d.subrange(off, last);
    let post = ser_vms(vms.skip(k + 1));
    assert(whole == pre + post) by {
        lemma_vm_run_bytes(d, off, n);
        assert(vms =~= vms.take(k + 1) + vms.skip(k + 1));
        lemma_ser_vms_concat(vms.take(k + 1), vms.skip(k + 1));
    }
    lemma_suffix_after(d, off, e.end, last, pre, post);
}

/// The fields of a method entry, as bytes.
proof fn lemma_vm_entry_fields(d: Seq<u8>, off: int)
    requires
        vm_entry_at(d, off) is Some,
    ensures
        ({
            let e = vm_entry_at(d, off)->0;
            &&& off <= e.flags_pos
            &&& e.flags_pos + 2 <= e.end
            &&& d.subrange(off, e.flags_pos) == ser_lp(e.fragment) + seq![e.method_type]
            &&& d.subrange(e.flags_pos + 2, e.end) == ser_lp(e.key)
        }),
{
    let (f, o1) = lp_at(d, off)->0;
    lemma_lp_entry_bytes(d, off);
    lemma_lp_entry_bytes(d, o1 + 3);
    assert(d.subrange(off, o1 + 1) =~= d.subrange(off, o1) + seq![d[o1]]);
}

/// The bytes of the method section of a decodable buffer around its
/// `k`-th entry: those of the methods before it, its own, and those of the
/// methods after it.
pub proof fn lemma_vm_split(d: Seq<u8>, s: Sections, k: int)
    requires
        sections_shape(d, s),
        0 <= k < s.vm_count,
    ensures
        ({
            let es = vms_of(d, s);
            let vms = doc_of(d, s).verification_methods;
            &&& s.vm_items <= es[k].start <= es[k].flags_pos
            &&& es[k].flags_pos + 2 <= es[k].end <= s.svc_count_pos
            &&& vms[k] == vm_model(es[k])
            &&& d.subrange(s.vm_items as int, es[k].start) == ser_vms(vms.take(k))
            &&& d.subrange(es[k].start, es[k].end) == ser_vm(vms[k])
            &&& d.subrange(es[k].end, s.svc_count_pos as int) == ser_vms(vms.skip(k + 1))
            &&& d.subrange(es[k].start, es[k].flags_pos) == ser_lp(vms[k].fragment) + seq![
                vms[k].method_type,
            ]
            &&& d.subrange(es[k].flags_pos + 2, es[k].end) == ser_lp(vms[k].key)
        }),
{
    let items = s.vm_items as int;
    let n = s.vm_count as nat;
    lemma_decoded_pieces(d, s);
    lemma_vm_run_split(d, items, n, k);
    lemma_vm_run_kth(d, items, n, k);
    let es = vms_of(d, s);
    lemma_vm_entry_fields(d, es[k].start);
}

/// The `k`-th entry of a full walk of `n` services from `off` starts where
/// the walk of the first `k` ends.
proof fn lemma_svc_run_kth(d: Seq<u8>, off: int, n: nat, k: int)
    requires
        0 <= off <= d.len(),
        svc_run(d, off, n).len() == n,
        0 <= k < n,
    ensures
        svc_run(d, off, k as nat) == svc_run(d, off, n).take(k),
        svc_run(d, off, (k + 1) as nat) == svc_run(d, off, n).take(k + 1),
        svc_entry_at(d, svc_run_end(svc_run(d, off, k as nat), off)) == Some(svc_run(d, off, n)[k]),
        svc_run(d, off, n)[k].start == svc_run_end(svc_run(d, off, k as nat), off),
        svc_run_end(svc_run(d, off, (k + 1) as nat), off) == svc_run(d, off, n)[k].end,
{
    crate::state::lemma_svc_run_prefix(d, off, k as nat, n);
    crate::state::lemma_svc_run_prefix(d, off, (k + 1) as nat, n);
    crate::state::lemma_svc_run_stops(d, off, k as nat, n);
    crate::state::lemma_svc_run_stops(d, off, (k + 1) as nat, n);
    crate::state::lemma_svc_run_stops(d, off, k as nat, k as nat);
    crate::state::lemma_svc_run_stops(d, off, (k + 1) as nat, (k + 1) as nat);
    let run_k1 = svc_run(d, off, (k + 1) as nat);
    assert(run_k1[k] == svc_run(d, off, n)[k]);
}

/// The bytes of a full walk of services around its `k`-th entry.
proof fn lemma_svc_run_split(d: Seq<u8>, off: int, n: nat, k: int)
    requires
        0 <= off <= d.len(),
        svc_run(d, off, n).len() == n,
        0 <= k < n,
    ensures
        ({
            let es = svc_run(d, off, n);
            let svcs = svc_models(es);
            &&& off <= es[k].start <= es[k].end <= svc_run_end(es, off) <= d.len()
            &&& d.subrange(off, es[k].start) == ser_services(svcs.take(k))
            &&& d.subrange(es[k].start, es[k].end) == ser_service(svcs[k])
            &&& d.subrange(es[k].end, svc_run_end(es, off)) == ser_services(svcs.skip(k + 1))
        }),
{
    let es = svc_run(d, off, n);
    let svcs = svc_models(es);
    lemma_svc_run_kth(d, off, n, k);
    let e = es[k];
    let last = svc_run_end(es, off);
    crate::state::lemma_svc_run_bounds(d, off, k as nat);
    crate::state::lemma_svc_run_bounds(d, off, (k + 1) as nat);
    crate::state::lemma_svc_run_bounds(d, off, n);
    assert(d.subrange(off, e.start) == ser_services(svcs.take(k))) by {
        lemma_svc_run_bytes(d, off, k as nat);
        assert(svc_models(svc_run(d, off, k as nat)) =~= svcs.take(k));
    }
    assert(d.subrange(e.start, e.end) == ser_service(svcs[k])) by {
        lemma_svc_entry_bytes(d, e.start);
    }
    let pre = ser_services(svcs.take(k + 1));
    assert(d.subrange(off, e.end) == pre) by {
        lemma_svc_run_bytes(d, off, (k + 1) as nat);
        assert(svc_models(svc_run(d, off, (k + 1) as nat)) =~= svcs.take(k + 1));
    }
    let whole = d.subrange(off, last);
    let post = ser_services(svcs.skip(k + 1));
    assert(whole == pre + post) by {
        lemma_svc_run_bytes(d, off, n);
        assert(svcs =~= svcs.take(k + 1) + svcs.skip(k + 1));
        lemma_ser_services_concat(svcs.take(k + 1), svcs.skip(k + 1));
    }
    lemma_suffix_after(d, off, e.end, last, pre, post);
}

/// The bytes of the service section of a decodable buffer around its
/// `k`-th entry.
pub proof fn lemma_svc_split(d: Seq<u8>, s: Sections, k: int)
    requires
        sections_shape(d, s),
        0 <= k < s.svc_count,
    ensures
        ({
            let es = services_of(d, s);
            let svcs = doc_of(d, s).services;
            &&& s.svc_items <= es[k].start <= es[k].end <= s.end
            &&& svcs[k] == svc_model(es[k])
            &&& d.subrange(s.svc_items as int, es[k].start) == ser_services(svcs.take(k))
            &&& d.subrange(es[k].start, es[k].end) == ser_service(svcs[k])
            &&& d.subrange(es[k].end, s.end as int) == ser_services(svcs.skip(k + 1))
        }),
{
    lemma_decoded_pieces(d, s);
    lemma_svc_run_split(d, s.svc_items as int, s.svc_count as nat, k);
}

// ---------------------------------------------------------------------------
// Writing entries
// ---------------------------------------------------------------------------

/// Appends a borsh `Vec<u8>`.
pub fn push_lp(out: &mut Vec<u8>, bytes: &[u8])
    requires
        bytes@.len() <= u32::MAX,
    ensures
        final(out)@ == old(out)@ + ser_lp(bytes@),
{
    let ghost start = out@;
    crate::bytes::push_u32(out, bytes.len() as u32);
    crate::bytes::push_bytes(out, bytes);
    assert(final(out)@ =~= start + ser_lp(bytes@));
}

/// Appends a verification method entry.
pub fn push_vm(out: &mut Vec<u8>, fragment: &[u8], method_type: u8, flags: u16, key: &[u8])
    requires
        fragment@.len() <= u32::MAX,
        key@.len() <= u32::MAX,
    ensures
        final(out)@ == old(out)@ + ser_vm(
            VerificationMethod { fragment: fragment@, method_type, flags, key: key@ },
        ),
{
    let ghost start = out@;
    push_lp(out, fragment);
    out.push(method_type);
    crate::bytes::push_u16(out, flags);
    push_lp(out, key);
    assert(final(out)@ =~= start + ser_vm(
        VerificationMethod { fragment: fragment@, method_type, flags, key: key@ },
    ));
}

/// Appends a service entry.
pub fn push_service(out: &mut Vec<u8>, fragment: &[u8], service_type: &[u8], endpoint: &[u8])
    requires
        fragment@.len() <= u32::MAX,
        service_type@.len() <= u32::MAX,
        endpoint@.len() <= u32::MAX,
    ensures
        final(out)@ == old(out)@ + ser_service(
            Service { fragment: fragment@, service_type: service_type@, endpoint: endpoint@ },
        ),
{
    let ghost start = out@;
    push_lp(out, fragment);
    push_lp(out, service_type);
    push_lp(out, endpoint);
    assert(final(out)@ =~= start + ser_service(
        Service { fragment: fragment@, service_type: service_type@, endpoint: endpoint@ },
    ));
}

} // verus!
