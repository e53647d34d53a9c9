//! Key buffers: staging accounts for a verification method whose key does
//! not fit in one transaction. A buffer sits at the PDA
//! ["bio-did-key", did_account, authority] and is bound to both.
//!
//! Layout (offsets from the start of account data):
//!
//! ```text
//! 0    [u8; 8]   account discriminator sha256("account:KeyBuffer")[..8]
//! 8    [u8; 32]  did_account
//! 40   [u8; 32]  authority
//! 72   u8        bump
//! 73   u8        method_type
//! 74   u16       flags (LE)
//! 76   u32       key_len (LE)
//! 80   u32       written (LE): the key bytes received so far
//! 84   u32       fragment_len (LE)
//! 88   [u8; 32]  fragment, zero padded
//! 120  [u8]      key, key_len bytes
//! ```

use vstd::prelude::*;

use crate::accounts::{copy_32, Account};
use crate::address::{create_program_address, created_address, registry_id, registry_program_id, seeds_view};
use crate::bytes::{get_u16, get_u32, le_u16, le_u32, push_bytes, push_u16, push_u32, u16_le, u32_le};
use crate::error::{DidError, RegistryError};
use crate::state::{bytes_eq, MAX_FRAGMENT_LEN};

verus! {

/// sha256("account:KeyBuffer")[..8].
pub const KEY_BUFFER_DISCRIMINATOR: [u8; 8] = [150, 138, 44, 35, 255, 159, 45, 0];

/// `bio-did-key`
pub const KEY_BUFFER_SEED: [u8; 11] = [98, 105, 111, 45, 100, 105, 100, 45, 107, 101, 121];

pub const KB_OFF_DID_ACCOUNT: usize = 8;

pub const KB_OFF_AUTHORITY: usize = 40;

pub const KB_OFF_BUMP: usize = 72;

pub const KB_OFF_METHOD_TYPE: usize = 73;

pub const KB_OFF_FLAGS: usize = 74;

pub const KB_OFF_KEY_LEN: usize = 76;

pub const KB_OFF_WRITTEN: usize = 80;

pub const KB_OFF_FRAGMENT_LEN: usize = 84;

pub const KB_OFF_FRAGMENT: usize = 88;

pub const KB_OFF_KEY: usize = 120;

/// The size of the header; a buffer holds the header and the key.
pub const KEY_BUFFER_HEADER: usize = 120;

/// `n` zero bytes.
pub open spec fn zeros(n: nat) -> Seq<u8> {
    Seq::new(n, |i: int| 0u8)
}

/// The content of a new buffer: the header, with nothing written yet, and
/// room for the key.
pub open spec fn kb_initial(
    did_account: Seq<u8>,
    authority: Seq<u8>,
    bump: u8,
    method_type: u8,
    flags: u16,
    key_len: u32,
    fragment: Seq<u8>,
) -> Seq<u8> {
    KEY_BUFFER_DISCRIMINATOR@ + did_account + authority + seq![bump, method_type] + u16_le(flags)
        + u32_le(key_len) + u32_le(0) + u32_le(fragment.len() as u32) + fragment + zeros(
        (MAX_FRAGMENT_LEN - fragment.len()) as nat,
    ) + zeros(key_len as nat)
}

/// The header fields of a buffer's data.
pub open spec fn kb_key_len(d: Seq<u8>) -> u32 {
    le_u32(d.subrange(KB_OFF_KEY_LEN as int, KB_OFF_KEY_LEN + 4))
}

pub open spec fn kb_written(d: Seq<u8>) -> u32 {
    le_u32(d.subrange(KB_OFF_WRITTEN as int, KB_OFF_WRITTEN + 4))
}

pub open spec fn kb_fragment_len(d: Seq<u8>) -> u32 {
    le_u32(d.subrange(KB_OFF_FRAGMENT_LEN as int, KB_OFF_FRAGMENT_LEN + 4))
}

pub open spec fn kb_flags(d: Seq<u8>) -> u16 {
    le_u16(d.subrange(KB_OFF_FLAGS as int, KB_OFF_FLAGS + 2))
}

pub open spec fn kb_did_account(d: Seq<u8>) -> Seq<u8> {
    d.subrange(KB_OFF_DID_ACCOUNT as int, KB_OFF_DID_ACCOUNT + 32)
}

pub open spec fn kb_authority(d: Seq<u8>) -> Seq<u8> {
    d.subrange(KB_OFF_AUTHORITY as int, KB_OFF_AUTHORITY + 32)
}

pub open spec fn kb_fragment(d: Seq<u8>) -> Seq<u8> {
    d.subrange(KB_OFF_FRAGMENT as int, KB_OFF_FRAGMENT + kb_fragment_len(d))
}

pub open spec fn kb_key(d: Seq<u8>) -> Seq<u8> {
    d.subrange(KB_OFF_KEY as int, d.len() as int)
}

/// A buffer's data is well formed: the discriminator, a fragment that fits
/// its slot, and exactly the room its key needs.
pub open spec fn kb_well_formed(d: Seq<u8>) -> bool {
    &&& d.len() >= KEY_BUFFER_HEADER
    &&& d.subrange(0, 8) == KEY_BUFFER_DISCRIMINATOR@
    &&& kb_fragment_len(d) <= MAX_FRAGMENT_LEN
    &&& d.len() == KEY_BUFFER_HEADER + kb_key_len(d)
}

/// The seeds of a buffer's address, with its bump.
pub open spec fn kb_seeds(did_account: Seq<u8>, authority: Seq<u8>, bump: u8) -> Seq<Seq<u8>> {
    seq![KEY_BUFFER_SEED@, did_account, authority, seq![bump]]
}

/// What checking a buffer decides: writable, owned by the registry, well
/// formed, bound to `authority` (and to `did`, where one is given), at the
/// address its header's seeds derive.
pub open spec fn spec_verify_key_buffer(kb: Account, authority: Seq<u8>, did: Option<Seq<u8>>) -> Result<
    (),
    RegistryError,
> {
    let d = kb.data@;
    if !kb.is_writable {
        Err(RegistryError::Immutable)
    } else if kb.owner@ != registry_id() {
        Err(RegistryError::InvalidAccountOwner)
    } else if !kb_well_formed(d) {
        Err(RegistryError::InvalidAccountData)
    } else if kb_authority(d) != authority {
        Err(RegistryError::Domain(DidError::KeyBufferMismatch))
    } else if did matches Some(a) && kb_did_account(d) != a {
        Err(RegistryError::Domain(DidError::KeyBufferMismatch))
    } else if created_address(
        kb_seeds(kb_did_account(d), kb_authority(d), d[KB_OFF_BUMP as int]),
        registry_id(),
    ) != Some(kb.address@) {
        Err(RegistryError::InvalidSeeds)
    } else {
        Ok(())
    }
}

/// Whether `d` is a well-formed buffer's data.
pub fn kb_check_layout(d: &[u8]) -> (r: bool)
    ensures
        r == kb_well_formed(d@),
{
    let n = d.len();
    if n < KEY_BUFFER_HEADER || !bytes_eq(&d[0..8], KEY_BUFFER_DISCRIMINATOR.as_slice()) {
        return false;
    }
    let key_len = get_u32(d, KB_OFF_KEY_LEN);
    let fragment_len = get_u32(d, KB_OFF_FRAGMENT_LEN);
    fragment_len as usize <= MAX_FRAGMENT_LEN && (n - KEY_BUFFER_HEADER) as u64 == key_len as u64
}

/// Checks that `kb` is a buffer bound to `authority`, and to `did` where
/// one is given.
pub fn verify_key_buffer(kb: &Account, authority: &[u8; 32], did: Option<&[u8; 32]>) -> (r: Result<
    (),
    RegistryError,
>)
    ensures
        r == spec_verify_key_buffer(
            *kb,
            authority@,
            match did {
                Some(a) => Some(a@),
                None => None,
            },
        ),
{
    if !kb.is_writable {
        return Err(RegistryError::Immutable);
    }
    let id = registry_program_id();
    if !bytes_eq(kb.owner.as_slice(), id.as_slice()) {
        return Err(RegistryError::InvalidAccountOwner);
    }
    let d = kb.data.as_slice();
    if !kb_check_layout(d) {
        return Err(RegistryError::InvalidAccountData);
    }
    let bound_did = copy_32(d, KB_OFF_DID_ACCOUNT);
    let bound_authority = copy_32(d, KB_OFF_AUTHORITY);
    if !bytes_eq(bound_authority.as_slice(), authority.as_slice()) {
        return Err(RegistryError::Domain(DidError::KeyBufferMismatch));
    }
    match did {
        Some(a) => {
            if !bytes_eq(bound_did.as_slice(), a.as_slice()) {
                return Err(RegistryError::Domain(DidError::KeyBufferMismatch));
            }
        },
        None => {},
    }
    let bump = [d[KB_OFF_BUMP]];
    let seeds: [&[u8]; 4] = [
        KEY_BUFFER_SEED.as_slice(),
        bound_did.as_slice(),
        bound_authority.as_slice(),
        bump.as_slice(),
    ];
    let seed_list = seeds.as_slice();
    proof {
        assert(seed_list@ == seeds@);
        assert(bump@ =~= seq![d@[KB_OFF_BUMP as int]]);
        assert(seeds_view(seed_list) =~= kb_seeds(
            kb_did_account(d@),
            kb_authority(d@),
            d@[KB_OFF_BUMP as int],
        ));
    }
    match create_program_address(seed_list, &id) {
        Some(a) => {
            if !bytes_eq(a.as_slice(), kb.address.as_slice()) {
                return Err(RegistryError::InvalidSeeds);
            }
        },
        None => return Err(RegistryError::InvalidSeeds),
    }
    Ok(())
}

/// Appends `n` zero bytes.
fn push_zeros(out: &mut Vec<u8>, n: usize)
    ensures
        final(out)@ == old(out)@ + zeros(n as nat),
{
    let ghost start = out@;
    let mut i: usize = 0;
    while i < n
        invariant
            i <= n,
            out@ == start + zeros(i as nat),
        decreases n - i,
    {
        out.push(0u8);
        i = i + 1;
        assert(out@ =~= start + zeros(i as nat));
    }
}

/// The content of a new buffer.
pub fn key_buffer_initial_data(
    did_account: &[u8; 32],
    authority: &[u8; 32],
    bump: u8,
    method_type: u8,
    flags: u16,
    key_len: u32,
    fragment: &[u8],
) -> (out: Vec<u8>)
    requires
        fragment@.len() <= MAX_FRAGMENT_LEN,
    ensures
        out@ == kb_initial(did_account@, authority@, bump, method_type, flags, key_len, fragment@),
        out@.len() == KEY_BUFFER_HEADER + key_len,
{
    let mut out: Vec<u8> = Vec::new();
    push_bytes(&mut out, KEY_BUFFER_DISCRIMINATOR.as_slice());
    push_bytes(&mut out, did_account.as_slice());
    push_bytes(&mut out, authority.as_slice());
    out.push(bump);
    out.push(method_type);
    push_u16(&mut out, flags);
    push_u32(&mut out, key_len);
    push_u32(&mut out, 0);
    push_u32(&mut out, fragment.len() as u32);
    push_bytes(&mut out, fragment);
    push_zeros(&mut out, MAX_FRAGMENT_LEN - fragment.len());
    push_zeros(&mut out, key_len as usize);
    proof {
        crate::bytes::lemma_u16_le(flags);
        crate::bytes::lemma_u32_le(key_len);
        crate::bytes::lemma_u32_le(0);
        crate::bytes::lemma_u32_le(fragment.len() as u32);
    }
    assert(out@ =~= kb_initial(did_account@, authority@, bump, method_type, flags, key_len, fragment@));
    out
}

/// Where a chunk of `chunk_len` bytes at `offset` leaves a buffer that has
/// `written` of its `key_len` key bytes: chunks arrive in order, each
/// continuing exactly where the previous one ended, so `written` is always
/// a prefix of the key.
pub open spec fn spec_write_key_chunk(written: u32, key_len: u32, offset: u32, chunk_len: nat) -> Result<
    u32,
    RegistryError,
> {
    if chunk_len == 0 || offset != written {
        Err(RegistryError::Domain(DidError::InvalidKeyChunk))
    } else if offset + chunk_len > usize::MAX {
        Err(RegistryError::ArithmeticOverflow)
    } else if offset + chunk_len > key_len {
        Err(RegistryError::Domain(DidError::InvalidKeyChunk))
    } else {
        Ok((offset + chunk_len) as u32)
    }
}

/// The new `written` after a chunk.
pub fn write_key_chunk(written: u32, key_len: u32, offset: u32, chunk_len: usize) -> (r: Result<
    u32,
    RegistryError,
>)
    ensures
        r == spec_write_key_chunk(written, key_len, offset, chunk_len as nat),
{
    if chunk_len == 0 || offset != written {
        return Err(RegistryError::Domain(DidError::InvalidKeyChunk));
    }
    let end = match (offset as usize).checked_add(chunk_len) {
        Some(e) => e,
        None => return Err(RegistryError::ArithmeticOverflow),
    };
    if end as u64 > key_len as u64 {
        return Err(RegistryError::Domain(DidError::InvalidKeyChunk));
    }
    Ok(end as u32)
}

/// The fields of a well-formed buffer, read.
pub struct KeyBufferRef<'a> {
    pub method_type: u8,
    pub flags: u16,
    pub key_len: u32,
    pub written: u32,
    pub fragment: &'a [u8],
    pub key: &'a [u8],
}

/// Reads the fields of a well-formed buffer.
pub fn read_key_buffer<'a>(d: &'a [u8]) -> (r: KeyBufferRef<'a>)
    requires
        kb_well_formed(d@),
    ensures
        r.method_type == d@[KB_OFF_METHOD_TYPE as int],
        r.flags == kb_flags(d@),
        r.key_len == kb_key_len(d@),
        r.written == kb_written(d@),
        r.fragment@ == kb_fragment(d@),
        r.key@ == kb_key(d@),
{
    let n = d.len();
    let fragment_len = get_u32(d, KB_OFF_FRAGMENT_LEN) as usize;
    KeyBufferRef {
        method_type: d[KB_OFF_METHOD_TYPE],
        flags: get_u16(d, KB_OFF_FLAGS),
        key_len: get_u32(d, KB_OFF_KEY_LEN),
        written: get_u32(d, KB_OFF_WRITTEN),
        fragment: &d[KB_OFF_FRAGMENT..KB_OFF_FRAGMENT + fragment_len],
        key: &d[KB_OFF_KEY..n],
    }
}

} // verus!
