//! Byte-level view of the `DidAccount` borsh layout.
//!
//! Layout (offsets from the start of account data):
//!
//! ```text
//! 0   [u8; 8]  account discriminator sha256("account:DidAccount")[..8]
//! 8   u64      version (LE)
//! 16  u8       bump
//! 17  [u8;32]  subject
//! 49  u8       deactivated (0 | 1)
//! 50  i64      updated_at (LE)
//! 58  vec      native_controllers:   u32 count, then count * [u8; 32]
//! ..  vec      other_controllers:    u32 count, then count * (u32 len, bytes)
//! ..  vec      verification_methods: u32 count, then count * VM
//! ..  vec      services:             u32 count, then count * Service
//!
//! VM      = u32 fragment_len, fragment, u8 method_type, u16 flags (LE),
//!           u32 key_len, key
//! Service = u32 fragment_len, fragment, u32 type_len, type,
//!           u32 endpoint_len, endpoint
//! ```
//!
//! The spec functions of this module describe what a walk over the buffer
//! finds; the executable functions perform the walk and are proved to find
//! exactly that.

use vstd::prelude::*;

use crate::bytes::{get_u16, get_u32, get_u64, i64_le, le_u16, le_u32, le_u64, u64_le};
use crate::address::{find_program_address, found_address, registry_id, registry_program_id, seeds_view};
use crate::error::{require, DidError, RegistryError};

verus! {

/// sha256("account:DidAccount")[..8] - written at initialize, checked on
/// every load.
pub const ACCOUNT_DISCRIMINATOR: [u8; 8] = [77, 88, 239, 141, 251, 29, 237, 243];

/// PDA seed prefix: ["bio-did", subject].
pub const DID_SEED: [u8; 7] = [98, 105, 111, 45, 100, 105, 100];

/// Seed prefix of an owned subject: ["bio-did-owned", authority, nonce_le].
pub const OWNED_SEED: [u8; 13] = [98, 105, 111, 45, 100, 105, 100, 45, 111, 119, 110, 101, 100];

/// Reserved fragment for the subject's initial verification method.
pub const DEFAULT_FRAGMENT: [u8; 7] = [100, 101, 102, 97, 117, 108, 116];

pub const MAX_VERIFICATION_METHODS: usize = 16;
pub const MAX_SERVICES: usize = 16;
pub const MAX_NATIVE_CONTROLLERS: usize = 8;
pub const MAX_OTHER_CONTROLLERS: usize = 8;
pub const MAX_FRAGMENT_LEN: usize = 32;
pub const MAX_SERVICE_TYPE_LEN: usize = 64;
pub const MAX_ENDPOINT_LEN: usize = 512;
pub const MAX_CONTROLLER_LEN: usize = 128;
pub const MAX_KEY_DATA_LEN: usize = 2592;

// Verification relationship / property bitflags (low five bits mirror the
// W3C DID verification relationships).
pub const VM_FLAG_AUTHENTICATION: u16 = 1;
pub const VM_FLAG_ASSERTION: u16 = 2;
pub const VM_FLAG_KEY_AGREEMENT: u16 = 4;
pub const VM_FLAG_CAPABILITY_INVOCATION: u16 = 8;
pub const VM_FLAG_CAPABILITY_DELEGATION: u16 = 16;

/// A protected method can only be removed, re-flagged, or newly added when
/// its own key signs as the transaction authority.
pub const VM_FLAG_PROTECTED: u16 = 256;

pub const VM_RELATIONSHIP_MASK: u16 = 31;

pub const VM_VALID_MASK: u16 = 287;

/// All five relationships plus protection - assigned to the subject's
/// initial "default" verification method.
pub const VM_FLAGS_DEFAULT: u16 = 287;

/// Verification method type tags (borsh enum discriminants).
pub const VM_TYPE_ED25519: u8 = 0;
pub const VM_TYPE_X25519: u8 = 1;
pub const VM_TYPE_SECP256K1: u8 = 2;

/// ML-DSA-87 (FIPS 204); the on-chain tag name predates the final standard.
pub const VM_TYPE_DILITHIUM5: u8 = 3;

// Fixed field offsets.
pub const OFF_VERSION: usize = 8;
pub const OFF_BUMP: usize = 16;
pub const OFF_SUBJECT: usize = 17;
pub const OFF_DEACTIVATED: usize = 49;
pub const OFF_UPDATED_AT: usize = 50;

/// Offset of the `native_controllers` count - the first vector section.
pub const OFF_SECTIONS: usize = 58;

/// Discriminator + scalars + the four vector length prefixes.
pub const BASE_SPACE: usize = 74;

/// The deactivated tombstone (all vectors empty).
pub const TOMBSTONE_SPACE: usize = 74;

/// A fresh account holding only the subject's "default" method.
pub const INITIAL_SPACE: usize = 124;

/// Expected raw key length per method type; `None` for unknown tags.
pub open spec fn spec_expected_key_len(method_type: u8) -> Option<usize> {
    if method_type == VM_TYPE_ED25519 || method_type == VM_TYPE_X25519 {
        Some(32)
    } else if method_type == VM_TYPE_SECP256K1 {
        Some(33)
    } else if method_type == VM_TYPE_DILITHIUM5 {
        Some(2592)
    } else {
        None
    }
}

/// Expected raw key length per method type; `None` for unknown tags.
pub fn expected_key_len(method_type: u8) -> (r: Option<usize>)
    ensures
        r == spec_expected_key_len(method_type),
{
    if method_type == VM_TYPE_ED25519 || method_type == VM_TYPE_X25519 {
        Some(32)
    } else if method_type == VM_TYPE_SECP256K1 {
        Some(33)
    } else if method_type == VM_TYPE_DILITHIUM5 {
        Some(2592)
    } else {
        None
    }
}

/// Serialized size of one verification method entry.
pub fn vm_space(fragment_len: usize, key_len: usize) -> (r: usize)
    requires
        fragment_len + key_len + 11 <= usize::MAX,
    ensures
        r == 4 + fragment_len + 1 + 2 + 4 + key_len,
{
    4 + fragment_len + 1 + 2 + 4 + key_len
}

/// Serialized size of one service entry.
pub fn service_space(fragment_len: usize, type_len: usize, endpoint_len: usize) -> (r: usize)
    requires
        fragment_len + type_len + endpoint_len + 12 <= usize::MAX,
    ensures
        r == 4 + fragment_len + 4 + type_len + 4 + endpoint_len,
{
    4 + fragment_len + 4 + type_len + 4 + endpoint_len
}

// ---------------------------------------------------------------------------
// What a bounds-checked walk finds
// ---------------------------------------------------------------------------

/// The `u32` stored at `off`, if four bytes are there.
pub open spec fn read_u32_at(d: Seq<u8>, off: int) -> Option<u32> {
    if 0 <= off && off + 4 <= d.len() {
        Some(le_u32(d.subrange(off, off + 4)))
    } else {
        None
    }
}

/// A borsh `Vec<u8>` at `off` (u32 length, then payload): its payload and
/// the offset just past it, if it fits.
pub open spec fn lp_at(d: Seq<u8>, off: int) -> Option<(Seq<u8>, int)> {
    match read_u32_at(d, off) {
        Some(n) => if off + 4 + n <= d.len() {
            Some((d.subrange(off + 4, off + 4 + n), off + 4 + n))
        } else {
            None
        },
        None => None,
    }
}

/// One length-prefixed item of a section: its span and payload.
pub struct LpEntry {
    pub start: int,
    pub bytes: Seq<u8>,
    pub end: int,
}

/// One verification method entry: its span, fields, and the offset of its
/// flags.
pub struct VmEntry {
    pub start: int,
    pub fragment: Seq<u8>,
    pub method_type: u8,
    pub flags_pos: int,
    pub flags: u16,
    pub key: Seq<u8>,
    pub end: int,
}

/// One service entry: its span and fields.
pub struct SvcEntry {
    pub start: int,
    pub fragment: Seq<u8>,
    pub service_type: Seq<u8>,
    pub endpoint: Seq<u8>,
    pub end: int,
}

pub open spec fn lp_entry_at(d: Seq<u8>, off: int) -> Option<LpEntry> {
    match lp_at(d, off) {
        Some((bytes, end)) => Some(LpEntry { start: off, bytes, end }),
        None => None,
    }
}

pub open spec fn vm_entry_at(d: Seq<u8>, off: int) -> Option<VmEntry> {
    match lp_at(d, off) {
        Some((fragment, o1)) => if o1 + 3 <= d.len() {
            match lp_at(d, o1 + 3) {
                Some((key, o2)) => Some(
                    VmEntry {
                        start: off,
                        fragment,
                        method_type: d[o1],
                        flags_pos: o1 + 1,
                        flags: le_u16(d.subrange(o1 + 1, o1 + 3)),
                        key,
                        end: o2,
                    },
                ),
                None => None,
            }
        } else {
            None
        },
        None => None,
    }
}

pub open spec fn svc_entry_at(d: Seq<u8>, off: int) -> Option<SvcEntry> {
    match lp_at(d, off) {
        Some((fragment, o1)) => match lp_at(d, o1) {
            Some((service_type, o2)) => match lp_at(d, o2) {
                Some((endpoint, o3)) => Some(
                    SvcEntry { start: off, fragment, service_type, endpoint, end: o3 },
                ),
                None => None,
            },
            None => None,
        },
        None => None,
    }
}

/// Where a run of entries that started at `off` ends.
pub open spec fn lp_run_end(es: Seq<LpEntry>, off: int) -> int {
    if es.len() == 0 {
        off
    } else {
        es.last().end
    }
}

pub open spec fn vm_run_end(es: Seq<VmEntry>, off: int) -> int {
    if es.len() == 0 {
        off
    } else {
        es.last().end
    }
}

pub open spec fn svc_run_end(es: Seq<SvcEntry>, off: int) -> int {
    if es.len() == 0 {
        off
    } else {
        es.last().end
    }
}

/// The entries that a walk of at most `n` length-prefixed items from `off`
/// reads before it runs out of items or of bytes.
pub open spec fn lp_run(d: Seq<u8>, off: int, n: nat) -> Seq<LpEntry>
    decreases n,
{
    if n == 0 {
        seq![]
    } else {
        let prev = lp_run(d, off, (n - 1) as nat);
        if prev.len() == n - 1 {
            match lp_entry_at(d, lp_run_end(prev, off)) {
                Some(e) => prev.push(e),
                None => prev,
            }
        } else {
            prev
        }
    }
}

/// The verification method entries that a walk of at most `n` entries from
/// `off` reads before it runs out of entries or of bytes.
pub open spec fn vm_run(d: Seq<u8>, off: int, n: nat) -> Seq<VmEntry>
    decreases n,
{
    if n == 0 {
        seq![]
    } else {
        let prev = vm_run(d, off, (n - 1) as nat);
        if prev.len() == n - 1 {
            match vm_entry_at(d, vm_run_end(prev, off)) {
                Some(e) => prev.push(e),
                None => prev,
            }
        } else {
            prev
        }
    }
}

/// The service entries that a walk of at most `n` entries from `off` reads
/// before it runs out of entries or of bytes.
pub open spec fn svc_run(d: Seq<u8>, off: int, n: nat) -> Seq<SvcEntry>
    decreases n,
{
    if n == 0 {
        seq![]
    } else {
        let prev = svc_run(d, off, (n - 1) as nat);
        if prev.len() == n - 1 {
            match svc_entry_at(d, svc_run_end(prev, off)) {
                Some(e) => prev.push(e),
                None => prev,
            }
        } else {
            prev
        }
    }
}

/// A walk never reads more entries than asked for, and one that stopped
/// early stays stopped.
pub proof fn lemma_lp_run_stops(d: Seq<u8>, off: int, k: nat, n: nat)
    requires
        k <= n,
    ensures
        lp_run(d, off, n).len() <= n,
        lp_run(d, off, k).len() < k ==> lp_run(d, off, n) == lp_run(d, off, k),
    decreases n,
{
    if n > 0 {
        lemma_lp_run_stops(d, off, if k < n { k } else { (n - 1) as nat }, (n - 1) as nat);
    }
}

pub proof fn lemma_vm_run_stops(d: Seq<u8>, off: int, k: nat, n: nat)
    requires
        k <= n,
    ensures
        vm_run(d, off, n).len() <= n,
        vm_run(d, off, k).len() < k ==> vm_run(d, off, n) == vm_run(d, off, k),
    decreases n,
{
    if n > 0 {
        lemma_vm_run_stops(d, off, if k < n { k } else { (n - 1) as nat }, (n - 1) as nat);
    }
}

pub proof fn lemma_svc_run_stops(d: Seq<u8>, off: int, k: nat, n: nat)
    requires
        k <= n,
    ensures
        svc_run(d, off, n).len() <= n,
        svc_run(d, off, k).len() < k ==> svc_run(d, off, n) == svc_run(d, off, k),
    decreases n,
{
    if n > 0 {
        lemma_svc_run_stops(d, off, if k < n { k } else { (n - 1) as nat }, (n - 1) as nat);
    }
}

/// A walk ends between its start and the end of the buffer.
pub proof fn lemma_lp_run_bounds(d: Seq<u8>, off: int, n: nat)
    requires
        0 <= off <= d.len(),
    ensures
        off <= lp_run_end(lp_run(d, off, n), off) <= d.len(),
    decreases n,
{
    if n > 0 {
        lemma_lp_run_bounds(d, off, (n - 1) as nat);
    }
}

pub proof fn lemma_vm_run_bounds(d: Seq<u8>, off: int, n: nat)
    requires
        0 <= off <= d.len(),
    ensures
        off <= vm_run_end(vm_run(d, off, n), off) <= d.len(),
    decreases n,
{
    if n > 0 {
        lemma_vm_run_bounds(d, off, (n - 1) as nat);
    }
}

pub proof fn lemma_svc_run_bounds(d: Seq<u8>, off: int, n: nat)
    requires
        0 <= off <= d.len(),
    ensures
        off <= svc_run_end(svc_run(d, off, n), off) <= d.len(),
    decreases n,
{
    if n > 0 {
        lemma_svc_run_bounds(d, off, (n - 1) as nat);
    }
}

/// Offsets of the four vector sections inside the account data, computed by
/// a single bounds-checked walk. `*_count_pos` is the offset of the u32
/// count; `*_items` is the offset of the first item byte.
#[derive(Clone, Copy, Debug)]
pub struct Sections {
    pub nc_count: usize,
    pub nc_items: usize,
    pub oc_count: usize,
    pub oc_count_pos: usize,
    pub oc_items: usize,
    pub vm_count: usize,
    pub vm_count_pos: usize,
    pub vm_items: usize,
    pub svc_count: usize,
    pub svc_count_pos: usize,
    pub svc_items: usize,
    /// Total serialized size (== account data length for a healthy account).
    pub end: usize,
}

/// The section map of `d`, when the walk over all four vector sections
/// stays inside the buffer.
pub open spec fn parse_sections(d: Seq<u8>) -> Option<Sections> {
    match read_u32_at(d, OFF_SECTIONS as int) {
        None => None,
        Some(nc) => {
            let nc_items = OFF_SECTIONS + 4;
            let oc_pos = nc_items + 32 * nc;
            if oc_pos > d.len() {
                None
            } else {
                match read_u32_at(d, oc_pos) {
                    None => None,
                    Some(oc) => {
                        let oc_items = oc_pos + 4;
                        let ocs = lp_run(d, oc_items, oc as nat);
                        if ocs.len() < oc {
                            None
                        } else {
                            let vm_pos = lp_run_end(ocs, oc_items);
                            match read_u32_at(d, vm_pos) {
                                None => None,
                                Some(vc) => {
                                    let vm_items = vm_pos + 4;
                                    let vms = vm_run(d, vm_items, vc as nat);
                                    if vms.len() < vc {
                                        None
                                    } else {
                                        let svc_pos = vm_run_end(vms, vm_items);
                                        match read_u32_at(d, svc_pos) {
                                            None => None,
                                            Some(sc) => {
                                                let svc_items = svc_pos + 4;
                                                let svcs = svc_run(d, svc_items, sc as nat);
                                                if svcs.len() < sc {
                                                    None
                                                } else {
                                                    Some(
                                                        Sections {
                                                            nc_count: nc as usize,
                                                            nc_items: nc_items as usize,
                                                            oc_count: oc as usize,
                                                            oc_count_pos: oc_pos as usize,
                                                            oc_items: oc_items as usize,
                                                            vm_count: vc as usize,
                                                            vm_count_pos: vm_pos as usize,
                                                            vm_items: vm_items as usize,
                                                            svc_count: sc as usize,
                                                            svc_count_pos: svc_pos as usize,
                                                            svc_items: svc_items as usize,
                                                            end: svc_run_end(
                                                                svcs,
                                                                svc_items,
                                                            ) as usize,
                                                        },
                                                    )
                                                }
                                            },
                                        }
                                    }
                                },
                            }
                        }
                    },
                }
            }
        },
    }
}

// ---------------------------------------------------------------------------
// Bounds-checked cursor reads
// ---------------------------------------------------------------------------

/// Reads a `u32` at `*off` and advances the cursor past it.
pub fn read_u32(data: &[u8], off: &mut usize) -> (r: Result<u32, RegistryError>)
    ensures
        match read_u32_at(data@, *old(off) as int) {
            Some(v) => r == Ok::<u32, RegistryError>(v) && *final(off) == *old(off) + 4,
            None => r == Err::<u32, RegistryError>(RegistryError::InvalidAccountData)
                && *final(off) == *old(off),
        },
{
    let len = data.len();
    if *off > len || len - *off < 4 {
        return Err(RegistryError::InvalidAccountData);
    }
    let v = get_u32(data, *off);
    *off = *off + 4;
    Ok(v)
}

/// Reads `len` bytes at `*off` and advances the cursor past them.
pub fn read_bytes<'a>(data: &'a [u8], off: &mut usize, len: usize) -> (r: Result<
    &'a [u8],
    RegistryError,
>)
    ensures
        if *old(off) + len <= data@.len() {
            &&& r is Ok
            &&& r->Ok_0@ == data@.subrange(*old(off) as int, *old(off) + len)
            &&& *final(off) == *old(off) + len
        } else {
            r == Err::<&[u8], RegistryError>(RegistryError::InvalidAccountData) && *final(off) == *old(off)
        },
{
    let n = data.len();
    if *off > n || n - *off < len {
        return Err(RegistryError::InvalidAccountData);
    }
    let start = *off;
    let bytes = &data[start..start + len];
    *off = start + len;
    Ok(bytes)
}

/// Reads a borsh `String`/`Vec<u8>`: u32 length prefix + payload.
pub fn read_len_prefixed<'a>(data: &'a [u8], off: &mut usize) -> (r: Result<
    &'a [u8],
    RegistryError,
>)
    ensures
        match lp_at(data@, *old(off) as int) {
            Some((bytes, end)) => r is Ok && r->Ok_0@ == bytes && *final(off) == end,
            None => r == Err::<&[u8], RegistryError>(RegistryError::InvalidAccountData),
        },
{
    let len = read_u32(data, off)? as usize;
    read_bytes(data, off, len)
}

// ---------------------------------------------------------------------------
// Section map
// ---------------------------------------------------------------------------

/// Walks `count` length-prefixed items from `items`; the offset past them.
fn walk_lp(data: &[u8], items: usize, count: usize) -> (r: Result<usize, RegistryError>)
    requires
        items <= data@.len(),
    ensures
        items <= lp_run_end(lp_run(data@, items as int, count as nat), items as int) <= data@.len(),
        r == (if lp_run(data@, items as int, count as nat).len() == count {
            Ok::<usize, RegistryError>(lp_run_end(lp_run(data@, items as int, count as nat), items as int) as usize)
        } else {
            Err(RegistryError::InvalidAccountData)
        }),
{
    let ghost d = data@;
    proof {
        lemma_lp_run_bounds(d, items as int, count as nat);
    }
    let mut off = items;
    let mut i: usize = 0;
    while i < count
        invariant
            i <= count,
            lp_run(d, items as int, i as nat).len() == i,
            off == lp_run_end(lp_run(d, items as int, i as nat), items as int),
                data@ == d,
            items <= d.len(),
            items <= lp_run_end(lp_run(d, items as int, count as nat), items as int) <= d.len(),
        decreases count - i,
    {
        let ghost prev = lp_run(d, items as int, i as nat);
        let r = read_len_prefixed(data, &mut off);
        if r.is_err() {
            proof {
                assert(lp_run(d, items as int, (i + 1) as nat) == prev);
                lemma_lp_run_stops(d, items as int, (i + 1) as nat, count as nat);
            }
            return Err(RegistryError::InvalidAccountData);
        }
        i = i + 1;
    }
    Ok(off)
}

/// Walks `count` verification method entries from `items`; the offset past
/// them.
fn walk_vms(data: &[u8], items: usize, count: usize) -> (r: Result<usize, RegistryError>)
    requires
        items <= data@.len(),
    ensures
        items <= vm_run_end(vm_run(data@, items as int, count as nat), items as int) <= data@.len(),
        r == (if vm_run(data@, items as int, count as nat).len() == count {
            Ok::<usize, RegistryError>(vm_run_end(vm_run(data@, items as int, count as nat), items as int) as usize)
        } else {
            Err(RegistryError::InvalidAccountData)
        }),
{
    let ghost d = data@;
    proof {
        lemma_vm_run_bounds(d, items as int, count as nat);
    }
    let mut off = items;
    let mut i: usize = 0;
    while i < count
        invariant
            i <= count,
            vm_run(d, items as int, i as nat).len() == i,
            off == vm_run_end(vm_run(d, items as int, i as nat), items as int),
                data@ == d,
            items <= d.len(),
            items <= vm_run_end(vm_run(d, items as int, count as nat), items as int) <= d.len(),
        decreases count - i,
    {
        let ghost prev = vm_run(d, items as int, i as nat);
        match read_vm(data, off) {
            Ok(vm) => {
                off = vm.end;
            },
            Err(_) => {
                proof {
                    assert(vm_run(d, items as int, (i + 1) as nat) == prev);
                    lemma_vm_run_stops(d, items as int, (i + 1) as nat, count as nat);
                }
                return Err(RegistryError::InvalidAccountData);
            },
        }
        i = i + 1;
    }
    Ok(off)
}

/// Walks `count` service entries from `items`; the offset past them.
fn walk_services(data: &[u8], items: usize, count: usize) -> (r: Result<usize, RegistryError>)
    requires
        items <= data@.len(),
    ensures
        items <= svc_run_end(svc_run(data@, items as int, count as nat), items as int) <= data@.len(),
        r == (if svc_run(data@, items as int, count as nat).len() == count {
            Ok::<usize, RegistryError>(svc_run_end(svc_run(data@, items as int, count as nat), items as int) as usize)
        } else {
            Err(RegistryError::InvalidAccountData)
        }),
{
    let ghost d = data@;
    proof {
        lemma_svc_run_bounds(d, items as int, count as nat);
    }
    let mut off = items;
    let mut i: usize = 0;
    while i < count
        invariant
            i <= count,
            svc_run(d, items as int, i as nat).len() == i,
            off == svc_run_end(svc_run(d, items as int, i as nat), items as int),
                data@ == d,
            items <= d.len(),
            items <= svc_run_end(svc_run(d, items as int, count as nat), items as int) <= d.len(),
        decreases count - i,
    {
        let ghost prev = svc_run(d, items as int, i as nat);
        match read_service(data, off) {
            Ok(svc) => {
                off = svc.end;
            },
            Err(_) => {
                proof {
                    assert(svc_run(d, items as int, (i + 1) as nat) == prev);
                    lemma_svc_run_stops(d, items as int, (i + 1) as nat, count as nat);
                }
                return Err(RegistryError::InvalidAccountData);
            },
        }
        i = i + 1;
    }
    Ok(off)
}

impl Sections {
    /// Walk the vector sections. Expects `data` to start at the account
    /// discriminator; the discriminator itself is checked by the caller.
    pub fn parse(data: &[u8]) -> (r: Result<Self, RegistryError>)
        ensures
            r == match parse_sections(data@) {
                Some(s) => Ok::<Sections, RegistryError>(s),
                None => Err(RegistryError::InvalidAccountData),
            },
    {
        let ghost d = data@;
        let len = data.len();
        let mut off: usize = OFF_SECTIONS;

        let nc = read_u32(data, &mut off)?;
        let nc_count = nc as usize;
        let nc_items = off;
        let nc_bytes: u64 = (nc_count as u64) * 32;
        if nc_bytes > (len - off) as u64 {
            return Err(RegistryError::InvalidAccountData);
        }
        read_bytes(data, &mut off, nc_bytes as usize)?;
        assert(read_u32_at(d, 58) == Some(nc));
        assert(off == 62 + 32 * nc);

        let oc_count_pos = off;
        let oc = read_u32(data, &mut off)?;
        let oc_count = oc as usize;
        let oc_items = off;
        assert(read_u32_at(d, oc_count_pos as int) == Some(oc));
        let r = walk_lp(data, oc_items, oc_count);
        if r.is_err() {
            assert(lp_run(d, oc_items as int, oc as nat).len() < oc) by {
                lemma_lp_run_stops(d, oc_items as int, oc as nat, oc as nat);
            }
            return Err(RegistryError::InvalidAccountData);
        }
        off = r.unwrap();

        let vm_count_pos = off;
        let vc = read_u32(data, &mut off)?;
        let vm_count = vc as usize;
        let vm_items = off;
        assert(read_u32_at(d, vm_count_pos as int) == Some(vc));
        let r = walk_vms(data, vm_items, vm_count);
        if r.is_err() {
            assert(vm_run(d, vm_items as int, vc as nat).len() < vc) by {
                lemma_vm_run_stops(d, vm_items as int, vc as nat, vc as nat);
            }
            return Err(RegistryError::InvalidAccountData);
        }
        off = r.unwrap();

        let svc_count_pos = off;
        let sc = read_u32(data, &mut off)?;
        let svc_count = sc as usize;
        let svc_items = off;
        assert(read_u32_at(d, svc_count_pos as int) == Some(sc));
        let r = walk_services(data, svc_items, svc_count);
        if r.is_err() {
            assert(svc_run(d, svc_items as int, sc as nat).len() < sc) by {
                lemma_svc_run_stops(d, svc_items as int, sc as nat, sc as nat);
            }
            return Err(RegistryError::InvalidAccountData);
        }
        off = r.unwrap();

        Ok(
            Self {
                nc_count,
                nc_items,
                oc_count,
                oc_count_pos,
                oc_items,
                vm_count,
                vm_count_pos,
                vm_items,
                svc_count,
                svc_count_pos,
                svc_items,
                end: off,
            },
        )
    }
}

/// A parsed verification method entry, borrowed from the account buffer.
#[derive(Clone, Copy, Debug)]
pub struct VmRef<'a> {
    pub fragment: &'a [u8],
    pub method_type: u8,
    pub flags: u16,
    pub key: &'a [u8],
    /// Byte span of the whole entry within the account data.
    pub start: usize,
    pub end: usize,
    /// Offset of the u16 flags field (for in-place patching).
    pub flags_pos: usize,
}

impl<'a> View for VmRef<'a> {
    type V = VmEntry;

    open spec fn view(&self) -> VmEntry {
        VmEntry {
            start: self.start as int,
            fragment: self.fragment@,
            method_type: self.method_type,
            flags_pos: self.flags_pos as int,
            flags: self.flags,
            key: self.key@,
            end: self.end as int,
        }
    }
}

/// Reads the verification method entry that starts at `off`. The account
/// walk is bounds-checked at every read.
pub fn read_vm<'a>(data: &'a [u8], off: usize) -> (r: Result<VmRef<'a>, RegistryError>)
    ensures
        match vm_entry_at(data@, off as int) {
            Some(e) => r is Ok && r->Ok_0@ == e,
            None => r == Err::<VmRef, RegistryError>(RegistryError::InvalidAccountData),
        },
{
    let start = off;
    let mut off = off;
    let fragment = read_len_prefixed(data, &mut off)?;
    let method_type = read_bytes(data, &mut off, 1)?[0];
    let flags_pos = off;
    let flag_bytes = read_bytes(data, &mut off, 2)?;
    let flags = get_u16(flag_bytes, 0);
    let key = read_len_prefixed(data, &mut off)?;
    proof {
        assert(flag_bytes@.subrange(0, 2) =~= data@.subrange(flags_pos + 0, flags_pos + 2));
    }
    Ok(VmRef { fragment, method_type, flags, key, start, end: off, flags_pos })
}

/// A parsed service entry, borrowed from the account buffer.
#[derive(Clone, Copy, Debug)]
pub struct SvcRef<'a> {
    pub fragment: &'a [u8],
    pub start: usize,
    pub end: usize,
}

/// `r` is the borrowed form of the service entry `e`.
pub open spec fn svc_ref_of(r: SvcRef, e: SvcEntry) -> bool {
    &&& r.fragment@ == e.fragment
    &&& r.start == e.start
    &&& r.end == e.end
}

/// Reads the service entry that starts at `off`.
pub fn read_service<'a>(data: &'a [u8], off: usize) -> (r: Result<SvcRef<'a>, RegistryError>)
    ensures
        match svc_entry_at(data@, off as int) {
            Some(e) => r is Ok && svc_ref_of(r->Ok_0, e),
            None => r == Err::<SvcRef, RegistryError>(RegistryError::InvalidAccountData),
        },
{
    let start = off;
    let mut off = off;
    let fragment = read_len_prefixed(data, &mut off)?;
    read_len_prefixed(data, &mut off)?;
    read_len_prefixed(data, &mut off)?;
    Ok(SvcRef { fragment, start, end: off })
}

/// A shorter walk reads a prefix of what a longer walk reads.
pub proof fn lemma_lp_run_prefix(d: Seq<u8>, off: int, k: nat, n: nat)
    requires
        k <= n,
    ensures
        lp_run(d, off, k).len() <= lp_run(d, off, n).len(),
        lp_run(d, off, k) == lp_run(d, off, n).take(lp_run(d, off, k).len() as int),
    decreases n,
{
    if k < n {
        lemma_lp_run_prefix(d, off, k, (n - 1) as nat);
        let a = lp_run(d, off, k);
        let b = lp_run(d, off, (n - 1) as nat);
        let c = lp_run(d, off, n);
        assert(b == c.take(b.len() as int));
        assert(a =~= c.take(a.len() as int));
    } else {
        assert(lp_run(d, off, n) =~= lp_run(d, off, n).take(lp_run(d, off, n).len() as int));
    }
}

pub proof fn lemma_vm_run_prefix(d: Seq<u8>, off: int, k: nat, n: nat)
    requires
        k <= n,
    ensures
        vm_run(d, off, k).len() <= vm_run(d, off, n).len(),
        vm_run(d, off, k) == vm_run(d, off, n).take(vm_run(d, off, k).len() as int),
    decreases n,
{
    if k < n {
        lemma_vm_run_prefix(d, off, k, (n - 1) as nat);
        let a = vm_run(d, off, k);
        let b = vm_run(d, off, (n - 1) as nat);
        let c = vm_run(d, off, n);
        assert(b == c.take(b.len() as int));
        assert(a =~= c.take(a.len() as int));
    } else {
        assert(vm_run(d, off, n) =~= vm_run(d, off, n).take(vm_run(d, off, n).len() as int));
    }
}

pub proof fn lemma_svc_run_prefix(d: Seq<u8>, off: int, k: nat, n: nat)
    requires
        k <= n,
    ensures
        svc_run(d, off, k).len() <= svc_run(d, off, n).len(),
        svc_run(d, off, k) == svc_run(d, off, n).take(svc_run(d, off, k).len() as int),
    decreases n,
{
    if k < n {
        lemma_svc_run_prefix(d, off, k, (n - 1) as nat);
        let a = svc_run(d, off, k);
        let b = svc_run(d, off, (n - 1) as nat);
        let c = svc_run(d, off, n);
        assert(b == c.take(b.len() as int));
        assert(a =~= c.take(a.len() as int));
    } else {
        assert(svc_run(d, off, n) =~= svc_run(d, off, n).take(svc_run(d, off, n).len() as int));
    }
}

// ---------------------------------------------------------------------------
// Domain checks
// ---------------------------------------------------------------------------

/// Byte-wise equality of two byte strings.
pub fn bytes_eq(a: &[u8], b: &[u8]) -> (r: bool)
    ensures
        r == (a@ == b@),
{
    if a.len() != b.len() {
        return false;
    }
    let mut i: usize = 0;
    while i < a.len()
        invariant
            a@.len() == b@.len(),
            i <= a@.len(),
            a@.subrange(0, i as int) == b@.subrange(0, i as int),
        decreases a@.len() - i,
    {
        if a[i] != b[i] {
            assert(a@[i as int] != b@[i as int]);
            return false;
        }
        i = i + 1;
        assert(a@.subrange(0, i as int) =~= a@.subrange(0, i - 1) + seq![a@[i - 1]]);
        assert(b@.subrange(0, i as int) =~= b@.subrange(0, i - 1) + seq![b@[i - 1]]);
    }
    assert(a@ =~= a@.subrange(0, a@.len() as int));
    assert(b@ =~= b@.subrange(0, b@.len() as int));
    true
}

/// An Ed25519 method carrying capabilityInvocation: an update authority.
pub open spec fn is_authority(e: VmEntry) -> bool {
    e.method_type == VM_TYPE_ED25519 && e.flags & VM_FLAG_CAPABILITY_INVOCATION != 0
}

/// `e` is an update authority whose key is `signer`.
pub open spec fn authorizes(e: VmEntry, signer: Seq<u8>) -> bool {
    is_authority(e) && e.key == signer
}

/// The verification method entries that the section map `s` points at.
pub open spec fn vms_of(d: Seq<u8>, s: Sections) -> Seq<VmEntry> {
    vm_run(d, s.vm_items as int, s.vm_count as nat)
}

/// The service entries that the section map `s` points at.
pub open spec fn services_of(d: Seq<u8>, s: Sections) -> Seq<SvcEntry> {
    svc_run(d, s.svc_items as int, s.svc_count as nat)
}

/// What `require_authority` decides: a deactivated DID refuses every
/// signer; otherwise the signer must be the key of an Ed25519 method with
/// capabilityInvocation, found before the walk runs out of bytes.
pub open spec fn spec_require_authority(d: Seq<u8>, s: Sections, signer: Seq<u8>) -> Result<(), RegistryError> {
    let es = vms_of(d, s);
    if d[OFF_DEACTIVATED as int] != 0 {
        Err(RegistryError::Domain(DidError::DidDeactivated))
    } else if exists|i: int| 0 <= i < es.len() && authorizes(#[trigger] es[i], signer) {
        Ok(())
    } else if es.len() < s.vm_count {
        Err(RegistryError::InvalidAccountData)
    } else {
        Err(RegistryError::Domain(DidError::Unauthorized))
    }
}

/// True when `signer` may mutate this DID: not deactivated, and the signer
/// matches an Ed25519 verification method carrying capabilityInvocation.
pub fn require_authority(data: &[u8], s: &Sections, signer: &[u8; 32]) -> (r: Result<(), RegistryError>)
    requires
        data@.len() > OFF_DEACTIVATED,
    ensures
        r == spec_require_authority(data@, *s, signer@),
{
    let ghost d = data@;
    let ghost es = vms_of(d, *s);
    require(data[OFF_DEACTIVATED] == 0, DidError::DidDeactivated)?;
    let signer_bytes = signer.as_slice();
    let mut off = s.vm_items;
    let mut i: usize = 0;
    while i < s.vm_count
        invariant
            i <= s.vm_count,
            vm_run(d, s.vm_items as int, i as nat).len() == i,
            off == vm_run_end(vm_run(d, s.vm_items as int, i as nat), s.vm_items as int),
            forall|j: int| 0 <= j < i ==> !authorizes(#[trigger] vm_run(d, s.vm_items as int, i as nat)[j], signer@),
            data@ == d,
            signer_bytes@ == signer@,
            es == vms_of(d, *s),
            d[OFF_DEACTIVATED as int] == 0,
        decreases s.vm_count - i,
    {
        let ghost prev = vm_run(d, s.vm_items as int, i as nat);
        proof {
            lemma_vm_run_prefix(d, s.vm_items as int, i as nat, (i + 1) as nat);
            lemma_vm_run_prefix(d, s.vm_items as int, (i + 1) as nat, s.vm_count as nat);
            lemma_vm_run_prefix(d, s.vm_items as int, i as nat, s.vm_count as nat);
        }
        let r = read_vm(data, off);
        match r {
            Ok(vm) => {
                let ghost next = vm_run(d, s.vm_items as int, (i + 1) as nat);
                assert(next == prev.push(vm@));
                if vm.method_type == VM_TYPE_ED25519 && vm.flags & VM_FLAG_CAPABILITY_INVOCATION != 0
                    && bytes_eq(vm.key, signer_bytes) {
                    assert(next.len() == i + 1);
                    assert(next == es.take(next.len() as int));
                    assert(next[i as int] == es[i as int]);
                    assert(es[i as int] == vm@);
                    assert(authorizes(es[i as int], signer@));
                    return Ok(());
                }
                assert forall|j: int| 0 <= j < i + 1 implies !authorizes(#[trigger] next[j], signer@) by {
                    if j < i {
                        assert(next[j] == prev[j]);
                    }
                }
                off = vm.end;
            },
            Err(_) => {
                proof {
                    assert(vm_run(d, s.vm_items as int, (i + 1) as nat) == prev);
                    lemma_vm_run_stops(d, s.vm_items as int, (i + 1) as nat, s.vm_count as nat);
                    assert(es == prev);
                }
                return Err(RegistryError::InvalidAccountData);
            },
        }
        i = i + 1;
    }
    Err(RegistryError::Domain(DidError::Unauthorized))
}

/// Number of update authorities among `es`.
pub open spec fn count_authorities(es: Seq<VmEntry>) -> nat
    decreases es.len(),
{
    if es.len() == 0 {
        0
    } else {
        count_authorities(es.drop_last()) + if is_authority(es.last()) {
            1nat
        } else {
            0nat
        }
    }
}

/// What `authority_count` returns: the number of Ed25519 methods holding
/// capabilityInvocation, or an error when the walk runs out of bytes.
pub open spec fn spec_authority_count(d: Seq<u8>, s: Sections) -> Result<usize, RegistryError> {
    let es = vms_of(d, s);
    if es.len() < s.vm_count {
        Err(RegistryError::InvalidAccountData)
    } else {
        Ok(count_authorities(es) as usize)
    }
}

/// Number of Ed25519 methods holding capabilityInvocation.
pub fn authority_count(data: &[u8], s: &Sections) -> (r: Result<usize, RegistryError>)
    ensures
        r == spec_authority_count(data@, *s),
        r is Ok ==> r->Ok_0 == count_authorities(vms_of(data@, *s)),
{
    let ghost d = data@;
    let mut n: usize = 0;
    let mut off = s.vm_items;
    let mut i: usize = 0;
    while i < s.vm_count
        invariant
            i <= s.vm_count,
            vm_run(d, s.vm_items as int, i as nat).len() == i,
            off == vm_run_end(vm_run(d, s.vm_items as int, i as nat), s.vm_items as int),
            n == count_authorities(vm_run(d, s.vm_items as int, i as nat)),
            n <= i,
            data@ == d,
        decreases s.vm_count - i,
    {
        let ghost prev = vm_run(d, s.vm_items as int, i as nat);
        let r = read_vm(data, off);
        match r {
            Ok(vm) => {
                let ghost next = vm_run(d, s.vm_items as int, (i + 1) as nat);
                assert(next == prev.push(vm@));
                assert(next.drop_last() =~= prev);
                if vm.method_type == VM_TYPE_ED25519 && vm.flags & VM_FLAG_CAPABILITY_INVOCATION != 0 {
                    n = n + 1;
                }
                off = vm.end;
            },
            Err(_) => {
                proof {
                    assert(vm_run(d, s.vm_items as int, (i + 1) as nat) == prev);
                    lemma_vm_run_stops(d, s.vm_items as int, (i + 1) as nat, s.vm_count as nat);
                }
                return Err(RegistryError::InvalidAccountData);
            },
        }
        i = i + 1;
    }
    Ok(n)
}

/// `k` is the first position of `es` whose fragment is `f`.
pub open spec fn vm_first_match(es: Seq<VmEntry>, f: Seq<u8>, k: int) -> bool {
    &&& 0 <= k < es.len()
    &&& es[k].fragment == f
    &&& forall|j: int| 0 <= j < k ==> (#[trigger] es[j]).fragment != f
}

/// `k` is the first position of `es` whose fragment is `f`.
pub open spec fn svc_first_match(es: Seq<SvcEntry>, f: Seq<u8>, k: int) -> bool {
    &&& 0 <= k < es.len()
    &&& es[k].fragment == f
    &&& forall|j: int| 0 <= j < k ==> (#[trigger] es[j]).fragment != f
}

/// Some entry of `es` carries fragment `f`.
pub open spec fn vm_fragment_in(es: Seq<VmEntry>, f: Seq<u8>) -> bool {
    exists|i: int| 0 <= i < es.len() && (#[trigger] es[i]).fragment == f
}

/// Some entry of `es` carries fragment `f`.
pub open spec fn svc_fragment_in(es: Seq<SvcEntry>, f: Seq<u8>) -> bool {
    exists|i: int| 0 <= i < es.len() && (#[trigger] es[i]).fragment == f
}

/// What a search for the verification method with fragment `f` finds: the
/// first entry that carries it, nothing, or an error when the walk runs out
/// of bytes before finding it.
pub open spec fn spec_find_vm(d: Seq<u8>, s: Sections, f: Seq<u8>) -> Result<Option<VmEntry>, RegistryError> {
    let es = vms_of(d, s);
    if vm_fragment_in(es, f) {
        Ok(Some(es[choose|k: int| vm_first_match(es, f, k)]))
    } else if es.len() < s.vm_count {
        Err(RegistryError::InvalidAccountData)
    } else {
        Ok(None)
    }
}

/// What a search for the service with fragment `f` finds.
pub open spec fn spec_find_service(d: Seq<u8>, s: Sections, f: Seq<u8>) -> Result<Option<SvcEntry>, RegistryError> {
    let es = services_of(d, s);
    if svc_fragment_in(es, f) {
        Ok(Some(es[choose|k: int| svc_first_match(es, f, k)]))
    } else if es.len() < s.svc_count {
        Err(RegistryError::InvalidAccountData)
    } else {
        Ok(None)
    }
}

/// Finds the first verification method whose fragment is `fragment`.
pub fn find_vm<'a>(data: &'a [u8], s: &Sections, fragment: &[u8]) -> (r: Result<Option<VmRef<'a>>, RegistryError>)
    ensures
        match r {
            Ok(Some(vm)) => spec_find_vm(data@, *s, fragment@) == Ok::<Option<VmEntry>, RegistryError>(Some(vm@)),
            Ok(None) => spec_find_vm(data@, *s, fragment@) == Ok::<Option<VmEntry>, RegistryError>(None),
            Err(e) => spec_find_vm(data@, *s, fragment@) == Err::<Option<VmEntry>, RegistryError>(e),
        },
{
    let ghost d = data@;
    let ghost es = vms_of(d, *s);
    let ghost f = fragment@;
    let mut off = s.vm_items;
    let mut i: usize = 0;
    while i < s.vm_count
        invariant
            i <= s.vm_count,
            vm_run(d, s.vm_items as int, i as nat).len() == i,
            off == vm_run_end(vm_run(d, s.vm_items as int, i as nat), s.vm_items as int),
            forall|j: int| 0 <= j < i ==> (#[trigger] vm_run(d, s.vm_items as int, i as nat)[j]).fragment != f,
            data@ == d,
            fragment@ == f,
            es == vms_of(d, *s),
        decreases s.vm_count - i,
    {
        let ghost prev = vm_run(d, s.vm_items as int, i as nat);
        proof {
            lemma_vm_run_prefix(d, s.vm_items as int, i as nat, (i + 1) as nat);
            lemma_vm_run_prefix(d, s.vm_items as int, (i + 1) as nat, s.vm_count as nat);
            lemma_vm_run_prefix(d, s.vm_items as int, i as nat, s.vm_count as nat);
        }
        let r = read_vm(data, off);
        match r {
            Ok(vm) => {
                let ghost next = vm_run(d, s.vm_items as int, (i + 1) as nat);
                assert(next == prev.push(vm@));
                assert(next == es.take(next.len() as int));
                assert forall|j: int| 0 <= j <= i implies #[trigger] es[j] == next[j] by {
                    assert(next[j] == es.take(next.len() as int)[j]);
                }
                if bytes_eq(vm.fragment, fragment) {
                    assert forall|j: int| 0 <= j < i implies (#[trigger] es[j]).fragment != f by {
                        assert(es[j] == next[j]);
                        assert(next[j] == prev[j]);
                    }
                    assert(vm_first_match(es, f, i as int));
                    assert(vm_fragment_in(es, f));
                    let ghost k = choose|k: int| vm_first_match(es, f, k);
                    assert(k == i) by {
                        if k < i {
                            assert(es[k].fragment != f);
                        } else if k > i {
                            assert(es[i as int].fragment != f);
                        }
                    }
                    return Ok(Some(vm));
                }
                assert forall|j: int| 0 <= j < i + 1 implies (#[trigger] next[j]).fragment != f by {
                    if j < i {
                        assert(next[j] == prev[j]);
                    }
                }
                off = vm.end;
            },
            Err(_) => {
                proof {
                    assert(vm_run(d, s.vm_items as int, (i + 1) as nat) == prev);
                    lemma_vm_run_stops(d, s.vm_items as int, (i + 1) as nat, s.vm_count as nat);
                    assert(es == prev);
                }
                return Err(RegistryError::InvalidAccountData);
            },
        }
        i = i + 1;
    }
    Ok(None)
}

/// Finds the first service whose fragment is `fragment`.
pub fn find_service<'a>(data: &'a [u8], s: &Sections, fragment: &[u8]) -> (r: Result<Option<SvcRef<'a>>, RegistryError>)
    ensures
        match r {
            Ok(Some(svc)) => spec_find_service(data@, *s, fragment@) matches Ok(Some(e)) && svc_ref_of(svc, e),
            Ok(None) => spec_find_service(data@, *s, fragment@) == Ok::<Option<SvcEntry>, RegistryError>(None),
            Err(e) => spec_find_service(data@, *s, fragment@) == Err::<Option<SvcEntry>, RegistryError>(e),
        },
{
    let ghost d = data@;
    let ghost es = services_of(d, *s);
    let ghost f = fragment@;
    let mut off = s.svc_items;
    let mut i: usize = 0;
    while i < s.svc_count
        invariant
            i <= s.svc_count,
            svc_run(d, s.svc_items as int, i as nat).len() == i,
            off == svc_run_end(svc_run(d, s.svc_items as int, i as nat), s.svc_items as int),
            forall|j: int| 0 <= j < i ==> (#[trigger] svc_run(d, s.svc_items as int, i as nat)[j]).fragment != f,
            data@ == d,
            fragment@ == f,
            es == services_of(d, *s),
        decreases s.svc_count - i,
    {
        let ghost prev = svc_run(d, s.svc_items as int, i as nat);
        proof {
            lemma_svc_run_prefix(d, s.svc_items as int, i as nat, (i + 1) as nat);
            lemma_svc_run_prefix(d, s.svc_items as int, (i + 1) as nat, s.svc_count as nat);
            lemma_svc_run_prefix(d, s.svc_items as int, i as nat, s.svc_count as nat);
        }
        let r = read_service(data, off);
        match r {
            Ok(svc) => {
                let ghost next = svc_run(d, s.svc_items as int, (i + 1) as nat);
                let ghost e = next[i as int];
                assert(next == prev.push(e));
                assert(next == es.take(next.len() as int));
                assert forall|j: int| 0 <= j <= i implies #[trigger] es[j] == next[j] by {
                    assert(next[j] == es.take(next.len() as int)[j]);
                }
                if bytes_eq(svc.fragment, fragment) {
                    assert forall|j: int| 0 <= j < i implies (#[trigger] es[j]).fragment != f by {
                        assert(es[j] == next[j]);
                        assert(next[j] == prev[j]);
                    }
                    assert(svc_first_match(es, f, i as int));
                    assert(svc_fragment_in(es, f));
                    let ghost k = choose|k: int| svc_first_match(es, f, k);
                    assert(k == i) by {
                        if k < i {
                            assert(es[k].fragment != f);
                        } else if k > i {
                            assert(es[i as int].fragment != f);
                        }
                    }
                    assert(svc_ref_of(svc, es[i as int]));
                    assert(spec_find_service(d, *s, f) == Ok::<Option<SvcEntry>, RegistryError>(Some(es[i as int])));
                    return Ok(Some(svc));
                }
                assert forall|j: int| 0 <= j < i + 1 implies (#[trigger] next[j]).fragment != f by {
                    if j < i {
                        assert(next[j] == prev[j]);
                    }
                }
                off = svc.end;
            },
            Err(_) => {
                proof {
                    assert(svc_run(d, s.svc_items as int, (i + 1) as nat) == prev);
                    lemma_svc_run_stops(d, s.svc_items as int, (i + 1) as nat, s.svc_count as nat);
                    assert(es == prev);
                }
                return Err(RegistryError::InvalidAccountData);
            },
        }
        i = i + 1;
    }
    Ok(None)
}

/// What `require_fragment_free` decides: fragments are unique across
/// verification methods and services.
pub open spec fn spec_require_fragment_free(d: Seq<u8>, s: Sections, f: Seq<u8>) -> Result<(), RegistryError> {
    match spec_find_vm(d, s, f) {
        Err(e) => Err(e),
        Ok(Some(_)) => Err(RegistryError::Domain(DidError::FragmentAlreadyInUse)),
        Ok(None) => match spec_find_service(d, s, f) {
            Err(e) => Err(e),
            Ok(Some(_)) => Err(RegistryError::Domain(DidError::FragmentAlreadyInUse)),
            Ok(None) => Ok(()),
        },
    }
}

/// Fragments are unique across verification methods AND services.
pub fn require_fragment_free(data: &[u8], s: &Sections, fragment: &[u8]) -> (r: Result<(), RegistryError>)
    ensures
        r == spec_require_fragment_free(data@, *s, fragment@),
{
    match find_vm(data, s, fragment)? {
        Some(_) => return Err(RegistryError::Domain(DidError::FragmentAlreadyInUse)),
        None => {},
    }
    match find_service(data, s, fragment)? {
        Some(_) => Err(RegistryError::Domain(DidError::FragmentAlreadyInUse)),
        None => Ok(()),
    }
}

/// Flag sanity per key type:
/// - only known bits may be set;
/// - capabilityInvocation implies on-chain signing, so Ed25519 only;
/// - X25519 is a key-agreement key and cannot sign anything.
pub open spec fn flags_allowed(method_type: u8, flags: u16) -> bool {
    &&& flags & !VM_VALID_MASK == 0
    &&& (flags & VM_FLAG_CAPABILITY_INVOCATION != 0 ==> method_type == VM_TYPE_ED25519)
    &&& (method_type == VM_TYPE_X25519 ==> flags & VM_RELATIONSHIP_MASK & !VM_FLAG_KEY_AGREEMENT == 0)
}

/// Checks the flags of a verification method against its key type.
pub fn validate_vm_flags(method_type: u8, flags: u16) -> (r: Result<(), RegistryError>)
    ensures
        r == (if flags_allowed(method_type, flags) {
            Ok::<(), RegistryError>(())
        } else {
            Err(RegistryError::Domain(DidError::InvalidFlags))
        }),
{
    require(flags & !VM_VALID_MASK == 0, DidError::InvalidFlags)?;
    if flags & VM_FLAG_CAPABILITY_INVOCATION != 0 {
        require(method_type == VM_TYPE_ED25519, DidError::InvalidFlags)?;
    }
    if method_type == VM_TYPE_X25519 {
        require(
            flags & VM_RELATIONSHIP_MASK & !VM_FLAG_KEY_AGREEMENT == 0,
            DidError::InvalidFlags,
        )?;
    }
    Ok(())
}

/// `[A-Za-z0-9_-]`.
pub open spec fn is_fragment_byte(b: u8) -> bool {
    (48 <= b <= 57) || (65 <= b <= 90) || (97 <= b <= 122) || b == 95 || b == 45
}

/// Fragment charset: 1..=MAX_FRAGMENT_LEN of [A-Za-z0-9_-].
pub open spec fn spec_valid_fragment(f: Seq<u8>) -> bool {
    &&& 1 <= f.len() <= MAX_FRAGMENT_LEN
    &&& forall|i: int| 0 <= i < f.len() ==> is_fragment_byte(#[trigger] f[i])
}

/// Fragment charset: 1..=MAX_FRAGMENT_LEN of [A-Za-z0-9_-].
pub fn valid_fragment(fragment: &[u8]) -> (r: bool)
    ensures
        r == spec_valid_fragment(fragment@),
{
    if fragment.len() == 0 || fragment.len() > MAX_FRAGMENT_LEN {
        return false;
    }
    let mut i: usize = 0;
    while i < fragment.len()
        invariant
            i <= fragment@.len(),
            forall|j: int| 0 <= j < i ==> is_fragment_byte(#[trigger] fragment@[j]),
        decreases fragment@.len() - i,
    {
        let b = fragment[i];
        if !((b >= 48 && b <= 57) || (b >= 65 && b <= 90) || (b >= 97 && b <= 122) || b == 95 || b == 45) {
            return false;
        }
        i = i + 1;
    }
    true
}

/// Printable ASCII without whitespace: 0x21..=0x7e.
pub open spec fn is_uri_byte(b: u8) -> bool {
    0x21 <= b <= 0x7e
}

/// Printable ASCII (no whitespace), bounded length.
pub open spec fn spec_valid_uri_ascii(v: Seq<u8>, max_len: usize) -> bool {
    &&& 1 <= v.len() <= max_len
    &&& forall|i: int| 0 <= i < v.len() ==> is_uri_byte(#[trigger] v[i])
}

/// Printable ASCII (no whitespace), bounded length.
pub fn valid_uri_ascii(value: &[u8], max_len: usize) -> (r: bool)
    ensures
        r == spec_valid_uri_ascii(value@, max_len),
{
    if value.len() == 0 || value.len() > max_len {
        return false;
    }
    let mut i: usize = 0;
    while i < value.len()
        invariant
            i <= value@.len(),
            forall|j: int| 0 <= j < i ==> is_uri_byte(#[trigger] value@[j]),
        decreases value@.len() - i,
    {
        let b = value[i];
        if !(b >= 0x21 && b <= 0x7e) {
            return false;
        }
        i = i + 1;
    }
    true
}

/// The stored `version`.
pub open spec fn spec_version(d: Seq<u8>) -> u64 {
    le_u64(d.subrange(OFF_VERSION as int, OFF_VERSION + 8))
}

/// `version + 1`, saturating at `u64::MAX`.
pub open spec fn bumped(v: u64) -> u64 {
    if v == u64::MAX {
        v
    } else {
        (v + 1) as u64
    }
}

/// The account data after `touch`: version bumped (saturating), updated_at
/// set to `now`, every other byte unchanged.
pub open spec fn spec_touch(d: Seq<u8>, now: i64) -> Seq<u8> {
    d.subrange(0, OFF_VERSION as int) + u64_le(bumped(spec_version(d))) + d.subrange(
        OFF_VERSION + 8,
        OFF_UPDATED_AT as int,
    ) + i64_le(now) + d.subrange(OFF_UPDATED_AT + 8, d.len() as int)
}

/// Writes `bytes` over `data[off..off + bytes.len()]`.
fn write_at(data: &mut [u8], off: usize, bytes: &[u8])
    requires
        off + bytes@.len() <= old(data)@.len(),
    ensures
        final(data)@ == old(data)@.subrange(0, off as int) + bytes@ + old(data)@.subrange(
            off + bytes@.len(),
            old(data)@.len() as int,
        ),
{
    let ghost start = data@;
    let n = data.len();
    let mut i: usize = 0;
    while i < bytes.len()
        invariant
            i <= bytes@.len(),
            n == start.len(),
            off + bytes@.len() <= start.len(),
            data@.len() == start.len(),
            data@ =~= start.subrange(0, off as int) + bytes@.subrange(0, i as int) + start.subrange(
                off + i,
                start.len() as int,
            ),
        decreases bytes@.len() - i,
    {
        data[off + i] = bytes[i];
        i = i + 1;
        assert(data@ =~= start.subrange(0, off as int) + bytes@.subrange(0, i as int) + start.subrange(
            off + i,
            start.len() as int,
        ));
    }
    assert(bytes@.subrange(0, bytes@.len() as int) =~= bytes@);
}

/// Bump `version` (saturating) and stamp `updated_at`.
pub fn touch(data: &mut [u8], now: i64)
    requires
        old(data)@.len() >= OFF_SECTIONS,
    ensures
        final(data)@ == spec_touch(old(data)@, now),
{
    let ghost d = data@;
    let version = get_u64(data, OFF_VERSION);
    let next = version.saturating_add(1);
    assert(next == bumped(spec_version(d)));
    let mut enc: Vec<u8> = Vec::new();
    crate::bytes::push_u64(&mut enc, next);
    proof {
        crate::bytes::lemma_u64_le(next);
        assert(enc@ =~= u64_le(next));
    }
    write_at(data, OFF_VERSION, enc.as_slice());
    let ghost d1 = data@;
    assert(d1.subrange(0, OFF_UPDATED_AT as int) =~= d.subrange(0, OFF_VERSION as int) + u64_le(next)
        + d.subrange(OFF_VERSION + 8, OFF_UPDATED_AT as int));
    assert(d1.subrange(OFF_UPDATED_AT + 8, d1.len() as int) =~= d.subrange(OFF_UPDATED_AT + 8, d.len() as int));
    let mut stamp: Vec<u8> = Vec::new();
    crate::bytes::push_i64(&mut stamp, now);
    proof {
        crate::bytes::lemma_i64_le(now);
        assert(stamp@ =~= i64_le(now));
    }
    write_at(data, OFF_UPDATED_AT, stamp.as_slice());
    assert(data@ =~= spec_touch(d, now));
}

/// Current `version` field.
pub fn version(data: &[u8]) -> (v: u64)
    requires
        data@.len() >= OFF_VERSION + 8,
    ensures
        v == spec_version(data@),
{
    get_u64(data, OFF_VERSION)
}

/// The views of borrowed method entries.
pub open spec fn vm_views(v: Seq<VmRef>) -> Seq<VmEntry> {
    v.map_values(|r: VmRef| r@)
}

/// Visits the verification method entries in order, every read bounds
/// checked: all `s.vm_count` of them, or `InvalidAccountData` where the
/// walk runs out of bytes.
pub fn for_each_vm<'a>(data: &'a [u8], s: &Sections) -> (r: Result<Vec<VmRef<'a>>, RegistryError>)
    ensures
        if vms_of(data@, *s).len() == s.vm_count {
            r is Ok && vm_views(r->Ok_0@) == vms_of(data@, *s)
        } else {
            r == Err::<Vec<VmRef<'a>>, RegistryError>(RegistryError::InvalidAccountData)
        },
{
    let ghost d = data@;
    let mut out: Vec<VmRef<'a>> = Vec::new();
    let mut off = s.vm_items;
    let mut i: usize = 0;
    while i < s.vm_count
        invariant
            i <= s.vm_count,
            data@ == d,
            vm_run(d, s.vm_items as int, i as nat).len() == i,
            off == vm_run_end(vm_run(d, s.vm_items as int, i as nat), s.vm_items as int),
            vm_views(out@) == vm_run(d, s.vm_items as int, i as nat),
        decreases s.vm_count - i,
    {
        let ghost prev = vm_run(d, s.vm_items as int, i as nat);
        proof {
            lemma_vm_run_stops(d, s.vm_items as int, (i + 1) as nat, s.vm_count as nat);
        }
        match read_vm(data, off) {
            Ok(vm) => {
                let ghost old_out = out@;
                out.push(vm);
                assert(vm_views(out@) =~= vm_views(old_out).push(vm@));
                off = vm.end;
            },
            Err(_) => {
                assert(vm_run(d, s.vm_items as int, (i + 1) as nat) == prev);
                return Err(RegistryError::InvalidAccountData);
            },
        }
        i = i + 1;
    }
    Ok(out)
}

/// Visits the service entries in order, every read bounds checked: all
/// `s.svc_count` of them, or `InvalidAccountData` where the walk runs out
/// of bytes.
pub fn for_each_service<'a>(data: &'a [u8], s: &Sections) -> (r: Result<Vec<SvcRef<'a>>, RegistryError>)
    ensures
        if services_of(data@, *s).len() == s.svc_count {
            &&& r is Ok
            &&& r->Ok_0@.len() == s.svc_count
            &&& forall|j: int|
                0 <= j < s.svc_count ==> svc_ref_of(
                    #[trigger] r->Ok_0@[j],
                    services_of(data@, *s)[j],
                )
        } else {
            r == Err::<Vec<SvcRef<'a>>, RegistryError>(RegistryError::InvalidAccountData)
        },
{
    let ghost d = data@;
    let mut out: Vec<SvcRef<'a>> = Vec::new();
    let mut off = s.svc_items;
    let mut i: usize = 0;
    while i < s.svc_count
        invariant
            i <= s.svc_count,
            data@ == d,
            svc_run(d, s.svc_items as int, i as nat).len() == i,
            off == svc_run_end(svc_run(d, s.svc_items as int, i as nat), s.svc_items as int),
            out@.len() == i,
            forall|j: int|
                0 <= j < i ==> svc_ref_of(
                    #[trigger] out@[j],
                    svc_run(d, s.svc_items as int, i as nat)[j],
                ),
        decreases s.svc_count - i,
    {
        let ghost prev = svc_run(d, s.svc_items as int, i as nat);
        proof {
            lemma_svc_run_stops(d, s.svc_items as int, (i + 1) as nat, s.svc_count as nat);
        }
        match read_service(data, off) {
            Ok(svc) => {
                let ghost next = svc_run(d, s.svc_items as int, (i + 1) as nat);
                let ghost e = svc_entry_at(d, off as int)->0;
                assert(next == prev.push(e));
                out.push(svc);
                assert forall|j: int| 0 <= j < i + 1 implies svc_ref_of(
                    #[trigger] out@[j],
                    next[j],
                ) by {
                    if j < i {
                        assert(next[j] == prev[j]);
                    }
                }
                off = svc.end;
            },
            Err(_) => {
                assert(svc_run(d, s.svc_items as int, (i + 1) as nat) == prev);
                return Err(RegistryError::InvalidAccountData);
            },
        }
        i = i + 1;
    }
    Ok(out)
}

// ---------------------------------------------------------------------------
// Owned DIDs
// ---------------------------------------------------------------------------

/// The seeds of the subject of an owned DID: ["bio-did-owned", authority,
/// nonce_le].
pub open spec fn owned_subject_seeds(authority: Seq<u8>, nonce: u64) -> Seq<Seq<u8>> {
    seq![OWNED_SEED@, authority, u64_le(nonce)]
}

/// The subject that `initialize_owned(nonce)` creates under `authority`:
/// the program address of `owned_subject_seeds`, where one derives.
pub fn owned_subject(authority: &[u8; 32], nonce: u64) -> (r: Option<[u8; 32]>)
    ensures
        match found_address(owned_subject_seeds(authority@, nonce), registry_id()) {
            Some((a, _)) => r is Some && r->0@ == a,
            None => r is None,
        },
{
    let id = registry_program_id();
    let mut nonce_le: Vec<u8> = Vec::new();
    crate::bytes::push_u64(&mut nonce_le, nonce);
    let seeds: [&[u8]; 3] = [OWNED_SEED.as_slice(), authority.as_slice(), nonce_le.as_slice()];
    let seed_list = seeds.as_slice();
    proof {
        assert(seed_list@ == seeds@);
        assert(nonce_le@ =~= u64_le(nonce));
        assert(seeds_view(seed_list) =~= owned_subject_seeds(authority@, nonce));
    }
    match find_program_address(seed_list, &id) {
        Some((a, _)) => Some(a),
        None => None,
    }
}

} // verus!
