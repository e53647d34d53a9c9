//! What the walk over a DID account's sections reads: only the bytes from
//! the sections' start to the end it finds. The discriminator and the
//! scalar header before the sections are not read (their checks are the
//! caller's), and bytes after the end are ignored.

use vstd::prelude::*;

use crate::state::{
    lemma_lp_run_bounds, lemma_lp_run_stops, lemma_svc_run_bounds, lemma_svc_run_stops,
    lemma_vm_run_bounds, lemma_vm_run_stops, lp_at, lp_entry_at, lp_run, lp_run_end,
    parse_sections, read_u32_at, svc_entry_at, svc_run, svc_run_end, vm_entry_at, vm_run,
    vm_run_end, OFF_SECTIONS,
};

verus! {

/// `d` and `e` hold the same bytes in `[lo, hi)`, and both reach `hi`.
pub open spec fn agree(d: Seq<u8>, e: Seq<u8>, lo: int, hi: int) -> bool {
    &&& 0 <= lo <= hi
    &&& hi <= d.len()
    &&& hi <= e.len()
    &&& forall|i: int| lo <= i < hi ==> e[i] == d[i]
}

proof fn lemma_u32_agree(d: Seq<u8>, e: Seq<u8>, lo: int, hi: int, off: int)
    requires
        agree(d, e, lo, hi),
        lo <= off,
        off + 4 <= hi,
    ensures
        read_u32_at(e, off) == read_u32_at(d, off),
{
    assert(e.subrange(off, off + 4) =~= d.subrange(off, off + 4));
}

proof fn lemma_lp_agree(d: Seq<u8>, e: Seq<u8>, lo: int, hi: int, off: int)
    requires
        agree(d, e, lo, hi),
        lo <= off,
        lp_at(d, off) matches Some((_, end)) && end <= hi,
    ensures
        lp_at(e, off) == lp_at(d, off),
{
    lemma_u32_agree(d, e, lo, hi, off);
    let n = read_u32_at(d, off)->0;
    assert(e.subrange(off + 4, off + 4 + n) =~= d.subrange(off + 4, off + 4 + n));
}

proof fn lemma_vm_entry_agree(d: Seq<u8>, e: Seq<u8>, lo: int, hi: int, off: int)
    requires
        agree(d, e, lo, hi),
        lo <= off,
        vm_entry_at(d, off) is Some,
        vm_entry_at(d, off)->0.end <= hi,
    ensures
        vm_entry_at(e, off) == vm_entry_at(d, off),
{
    let (_, o1) = lp_at(d, off)->0;
    lemma_lp_agree(d, e, lo, hi, off);
    lemma_lp_agree(d, e, lo, hi, o1 + 3);
    assert(e.subrange(o1 + 1, o1 + 3) =~= d.subrange(o1 + 1, o1 + 3));
    assert(e[o1] == d[o1]);
}

proof fn lemma_svc_entry_agree(d: Seq<u8>, e: Seq<u8>, lo: int, hi: int, off: int)
    requires
        agree(d, e, lo, hi),
        lo <= off,
        svc_entry_at(d, off) is Some,
        svc_entry_at(d, off)->0.end <= hi,
    ensures
        svc_entry_at(e, off) == svc_entry_at(d, off),
{
    let (_, o1) = lp_at(d, off)->0;
    let (_, o2) = lp_at(d, o1)->0;
    lemma_lp_agree(d, e, lo, hi, off);
    lemma_lp_agree(d, e, lo, hi, o1);
    lemma_lp_agree(d, e, lo, hi, o2);
}

/// A complete walk of `n` length-prefixed items reads only the bytes it
/// spans.
proof fn lemma_lp_run_agree(d: Seq<u8>, e: Seq<u8>, lo: int, hi: int, off: int, n: nat)
    requires
        agree(d, e, lo, hi),
        lo <= off <= hi,
        lp_run(d, off, n).len() == n,
        lp_run_end(lp_run(d, off, n), off) <= hi,
    ensures
        lp_run(e, off, n) == lp_run(d, off, n),
    decreases n,
{
    if n > 0 {
        let prev = lp_run(d, off, (n - 1) as nat);
        lemma_lp_run_stops(d, off, (n - 1) as nat, (n - 1) as nat);
        assert(prev.len() == n - 1);
        lemma_lp_run_bounds(d, off, (n - 1) as nat);
        let p = lp_run_end(prev, off);
        let x = lp_entry_at(d, p)->0;
        assert(lp_run(d, off, n) == prev.push(x));
        assert(lp_run_end(lp_run(d, off, n), off) == x.end);
        lemma_lp_run_agree(d, e, lo, hi, off, (n - 1) as nat);
        lemma_lp_agree(d, e, lo, hi, p);
    }
}

proof fn lemma_vm_run_agree(d: Seq<u8>, e: Seq<u8>, lo: int, hi: int, off: int, n: nat)
    requires
        agree(d, e, lo, hi),
        lo <= off <= hi,
        vm_run(d, off, n).len() == n,
        vm_run_end(vm_run(d, off, n), off) <= hi,
    ensures
        vm_run(e, off, n) == vm_run(d, off, n),
    decreases n,
{
    if n > 0 {
        let prev = vm_run(d, off, (n - 1) as nat);
        lemma_vm_run_stops(d, off, (n - 1) as nat, (n - 1) as nat);
        assert(prev.len() == n - 1);
        lemma_vm_run_bounds(d, off, (n - 1) as nat);
        let p = vm_run_end(prev, off);
        let x = vm_entry_at(d, p)->0;
        assert(vm_run(d, off, n) == prev.push(x));
        assert(vm_run_end(vm_run(d, off, n), off) == x.end);
        assert(x.end >= p);
        lemma_vm_run_agree(d, e, lo, hi, off, (n - 1) as nat);
        lemma_vm_entry_agree(d, e, lo, hi, p);
    }
}

proof fn lemma_svc_run_agree(d: Seq<u8>, e: Seq<u8>, lo: int, hi: int, off: int, n: nat)
    requires
        agree(d, e, lo, hi),
        lo <= off <= hi,
        svc_run(d, off, n).len() == n,
        svc_run_end(svc_run(d, off, n), off) <= hi,
    ensures
        svc_run(e, off, n) == svc_run(d, off, n),
    decreases n,
{
    if n > 0 {
        let prev = svc_run(d, off, (n - 1) as nat);
        lemma_svc_run_stops(d, off, (n - 1) as nat, (n - 1) as nat);
        assert(prev.len() == n - 1);
        lemma_svc_run_bounds(d, off, (n - 1) as nat);
        let p = svc_run_end(prev, off);
        let x = svc_entry_at(d, p)->0;
        assert(svc_run(d, off, n) == prev.push(x));
        assert(svc_run_end(svc_run(d, off, n), off) == x.end);
        assert(x.end >= p);
        lemma_svc_run_agree(d, e, lo, hi, off, (n - 1) as nat);
        lemma_svc_entry_agree(d, e, lo, hi, p);
    }
}

/// Where the walk over the sections of `d` goes: each count and run
/// starts where the previous one ended, up to the end it finds.
proof fn lemma_walk_span(d: Seq<u8>)
    requires
        parse_sections(d) is Some,
        d.len() <= usize::MAX,
    ensures
        ({
            let s = parse_sections(d)->0;
            let nc = read_u32_at(d, OFF_SECTIONS as int)->0;
            let oc_pos = OFF_SECTIONS + 4 + 32 * nc;
            let oc = read_u32_at(d, oc_pos)->0;
            let ocs = lp_run(d, oc_pos + 4, oc as nat);
            let vm_pos = lp_run_end(ocs, oc_pos + 4);
            let vc = read_u32_at(d, vm_pos)->0;
            let vms = vm_run(d, vm_pos + 4, vc as nat);
            let svc_pos = vm_run_end(vms, vm_pos + 4);
            let sc = read_u32_at(d, svc_pos)->0;
            let svcs = svc_run(d, svc_pos + 4, sc as nat);
            &&& OFF_SECTIONS + 4 <= oc_pos
            &&& oc_pos + 4 <= vm_pos
            &&& ocs.len() == oc
            &&& vm_pos + 4 <= svc_pos
            &&& vms.len() == vc
            &&& svc_pos + 4 <= s.end
            &&& svcs.len() == sc
            &&& s.end == svc_run_end(svcs, svc_pos + 4)
            &&& s.end <= d.len()
        }),
{
    let nc = read_u32_at(d, OFF_SECTIONS as int)->0;
    let oc_pos = OFF_SECTIONS + 4 + 32 * nc;
    let oc = read_u32_at(d, oc_pos)->0;
    lemma_lp_run_bounds(d, oc_pos + 4, oc as nat);
    lemma_lp_run_stops(d, oc_pos + 4, oc as nat, oc as nat);
    let vm_pos = lp_run_end(lp_run(d, oc_pos + 4, oc as nat), oc_pos + 4);
    let vc = read_u32_at(d, vm_pos)->0;
    lemma_vm_run_bounds(d, vm_pos + 4, vc as nat);
    lemma_vm_run_stops(d, vm_pos + 4, vc as nat, vc as nat);
    let svc_pos = vm_run_end(vm_run(d, vm_pos + 4, vc as nat), vm_pos + 4);
    let sc = read_u32_at(d, svc_pos)->0;
    lemma_svc_run_bounds(d, svc_pos + 4, sc as nat);
    lemma_svc_run_stops(d, svc_pos + 4, sc as nat, sc as nat);
}

/// The walk over the sections reads only the bytes from the sections'
/// start to the end it finds: any buffer that holds the same bytes there,
/// whatever its header and whatever follows, walks to the same sections.
pub proof fn law_parse_reads_only_the_sections(d: Seq<u8>, e: Seq<u8>)
    requires
        parse_sections(d) is Some,
        d.len() <= usize::MAX,
        e.len() >= parse_sections(d)->0.end,
        e.subrange(OFF_SECTIONS as int, parse_sections(d)->0.end as int) == d.subrange(
            OFF_SECTIONS as int,
            parse_sections(d)->0.end as int,
        ),
    ensures
        parse_sections(e) == parse_sections(d),
{
    lemma_walk_span(d);
    let s = parse_sections(d)->0;
    let lo = OFF_SECTIONS as int;
    let hi = s.end as int;
    let nc = read_u32_at(d, lo)->0;
    let oc_pos = lo + 4 + 32 * nc;
    let oc = read_u32_at(d, oc_pos)->0;
    let oc_items = oc_pos + 4;
    let vm_pos = lp_run_end(lp_run(d, oc_items, oc as nat), oc_items);
    let vc = read_u32_at(d, vm_pos)->0;
    let svc_pos = vm_run_end(vm_run(d, vm_pos + 4, vc as nat), vm_pos + 4);
    let sc = read_u32_at(d, svc_pos)->0;
    assert forall|i: int| lo <= i < hi implies e[i] == d[i] by {
        assert(e.subrange(lo, hi)[i - lo] == d.subrange(lo, hi)[i - lo]);
    }
    assert(agree(d, e, lo, hi));
    lemma_u32_agree(d, e, lo, hi, lo);
    lemma_u32_agree(d, e, lo, hi, oc_pos);
    lemma_lp_run_agree(d, e, lo, hi, oc_items, oc as nat);
    lemma_u32_agree(d, e, lo, hi, vm_pos);
    lemma_vm_run_agree(d, e, lo, hi, vm_pos + 4, vc as nat);
    lemma_u32_agree(d, e, lo, hi, svc_pos);
    lemma_svc_run_agree(d, e, lo, hi, svc_pos + 4, sc as nat);
}

/// Bytes appended after an account's data leave the walk unchanged.
pub proof fn law_parse_ignores_appended_bytes(d: Seq<u8>, extra: Seq<u8>)
    requires
        parse_sections(d) is Some,
        d.len() <= usize::MAX,
    ensures
        parse_sections(d + extra) == parse_sections(d),
{
    let s = parse_sections(d)->0;
    lemma_walk_span(d);
    assert((d + extra).subrange(OFF_SECTIONS as int, s.end as int) =~= d.subrange(
        OFF_SECTIONS as int,
        s.end as int,
    ));
    law_parse_reads_only_the_sections(d, d + extra);
}

/// The discriminator and the scalar header are not read: changing any of
/// the bytes before the sections leaves the walk unchanged.
pub proof fn law_parse_ignores_the_header(d: Seq<u8>, e: Seq<u8>)
    requires
        parse_sections(d) is Some,
        d.len() <= usize::MAX,
        e.len() == d.len(),
        e.subrange(OFF_SECTIONS as int, e.len() as int) == d.subrange(
            OFF_SECTIONS as int,
            d.len() as int,
        ),
    ensures
        parse_sections(e) == parse_sections(d),
{
    let s = parse_sections(d)->0;
    lemma_walk_span(d);
    assert(e.subrange(OFF_SECTIONS as int, s.end as int) =~= d.subrange(
        OFF_SECTIONS as int,
        s.end as int,
    )) by {
        assert forall|i: int| OFF_SECTIONS <= i < s.end implies e[i] == d[i] by {
            assert(e.subrange(OFF_SECTIONS as int, e.len() as int)[i - OFF_SECTIONS]
                == d.subrange(OFF_SECTIONS as int, d.len() as int)[i - OFF_SECTIONS]);
        }
    }
    law_parse_reads_only_the_sections(d, e);
}

} // verus!
