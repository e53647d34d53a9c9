//! Instruction-argument cursor (borsh wire format, borrowed slices).

use vstd::prelude::*;

use crate::accounts::{
    check_authority_signer, check_payer, check_system_program, spec_check_authority_signer,
    spec_check_payer, spec_check_system_program, spec_verify_did_account, verify_did_account,
    Account,
};
use crate::bytes::{get_u16, get_u32, le_u16};
use crate::error::RegistryError;
use crate::model::{decode_document, doc_of, lemma_parse_shape, sections_shape};
use crate::events::{event_data, event_for, spec_event, spec_event_for};
use crate::ix::Instruction;
use crate::state::{
    bumped, lp_at, read_u32_at, spec_touch, spec_version, touch, version, Sections, OFF_SECTIONS,
};

verus! {

/// What an instruction that edits a DID account decided: the subject the
/// account belongs to, and the account's new content before `touch`
/// stamps its version and time.
#[derive(Clone, Debug)]
pub struct Update {
    pub subject: [u8; 32],
    pub data: Vec<u8>,
}

/// How the edit `ix` ends: the decided content, stamped by `touch` at
/// `now` (version up by one, saturating; update time `now`), and the one
/// event the edit emits (`DidDeactivated` for a deactivation,
/// `DidModified` otherwise), which carries the new version.
pub fn finish_edit(update: Update, did_address: &[u8; 32], ix: Instruction, now: i64) -> (r: (
    Vec<u8>,
    Vec<u8>,
))
    requires
        update.data@.len() >= OFF_SECTIONS,
    ensures
        r.0@ == spec_touch(update.data@, now),
        spec_version(r.0@) == bumped(spec_version(update.data@)),
        r.1@ == spec_event(
            spec_event_for(ix)@,
            did_address@,
            update.subject@,
            bumped(spec_version(update.data@)),
        ),
        r.1@.len() == 80,
{
    let ghost old = update.data@;
    let subject = update.subject;
    let mut data = update.data;
    touch(data.as_mut_slice(), now);
    proof {
        assert(data@.subrange(8, 16) =~= crate::bytes::u64_le(bumped(spec_version(old))));
        crate::bytes::lemma_u64_le(bumped(spec_version(old)));
    }
    let v = version(data.as_slice());
    let event = event_for(ix);
    let ev = event_data(&event, did_address, &subject, v);
    (data, ev)
}

/// `k` unless the check `r` failed.
pub open spec fn after_check<T>(r: Result<(), RegistryError>, k: Result<T, RegistryError>) -> Result<
    T,
    RegistryError,
> {
    match r {
        Err(e) => Err(e),
        Ok(_) => k,
    }
}

/// The account checks of the instructions that resize a DID account,
/// `[payer, authority, did_account, system_program]`: on success, the
/// subject of the DID account.
pub open spec fn spec_mutation_accounts(a: Seq<Account>) -> Result<Seq<u8>, RegistryError> {
    if a.len() < 4 {
        Err(RegistryError::NotEnoughAccountKeys)
    } else {
        after_check(
            spec_check_payer(a[0]),
            after_check(
                spec_check_authority_signer(a[1]),
                after_check(spec_check_system_program(a[3]), spec_verify_did_account(a[2])),
            ),
        )
    }
}

/// The account checks of the instructions that resize a DID account.
pub fn check_mutation_accounts(accounts: &[Account]) -> (r: Result<[u8; 32], RegistryError>)
    ensures
        match spec_mutation_accounts(accounts@) {
            Ok(subject) => r is Ok && r->Ok_0@ == subject,
            Err(e) => r == Err::<[u8; 32], RegistryError>(e),
        },
{
    if accounts.len() < 4 {
        return Err(RegistryError::NotEnoughAccountKeys);
    }
    check_payer(&accounts[0])?;
    check_authority_signer(&accounts[1])?;
    check_system_program(&accounts[3])?;
    verify_did_account(&accounts[2])
}

/// Walks the sections of a DID account's data, and ties the section map to
/// the document that the data encodes.
pub fn parse_document(data: &[u8]) -> (r: Result<Sections, RegistryError>)
    ensures
        match decode_document(data@) {
            None => r == Err::<Sections, RegistryError>(RegistryError::InvalidAccountData),
            Some(doc) => r is Ok && sections_shape(data@, r->Ok_0) && doc == doc_of(
                data@,
                r->Ok_0,
            ),
        },
{
    let n = data.len();
    let s = Sections::parse(data)?;
    proof {
        lemma_parse_shape(data@);
    }
    Ok(s)
}

/// The `u16` stored at `off`, if two bytes are there.
pub open spec fn read_u16_at(d: Seq<u8>, off: int) -> Option<u16> {
    if 0 <= off && off + 2 <= d.len() {
        Some(le_u16(d.subrange(off, off + 2)))
    } else {
        None
    }
}

/// A borsh `String` at `off`: a length-prefixed payload that is UTF-8.
pub open spec fn str_at(d: Seq<u8>, off: int) -> Option<(Seq<u8>, int)> {
    match lp_at(d, off) {
        Some((b, end)) => if vstd::utf8::valid_utf8(b) {
            Some((b, end))
        } else {
            None
        },
        None => None,
    }
}

/// `core::str::from_utf8(bytes).is_ok()`. The contract claims that this
/// is vstd's `valid_utf8`, the definition of UTF-8 that `from_utf8`
/// documents.
#[verifier::external_body]
fn is_utf8(bytes: &[u8]) -> (r: bool)
    ensures
        r == vstd::utf8::valid_utf8(bytes@),
{
    core::str::from_utf8(bytes).is_ok()
}

/// Reads `len` argument bytes at `*off` and advances the cursor.
pub fn ix_read_bytes<'a>(data: &'a [u8], off: &mut usize, len: usize) -> (r: Result<
    &'a [u8],
    RegistryError,
>)
    ensures
        if *old(off) + len <= data@.len() {
            &&& r is Ok
            &&& r->Ok_0@ == data@.subrange(*old(off) as int, *old(off) + len)
            &&& *final(off) == *old(off) + len
        } else {
            r == Err::<&[u8], RegistryError>(RegistryError::InvalidInstructionData) && *final(off)
                == *old(off)
        },
{
    let n = data.len();
    if *off > n || n - *off < len {
        return Err(RegistryError::InvalidInstructionData);
    }
    let start = *off;
    let bytes = &data[start..start + len];
    *off = start + len;
    Ok(bytes)
}

/// Reads a little-endian `u32` argument.
pub fn ix_read_u32(data: &[u8], off: &mut usize) -> (r: Result<u32, RegistryError>)
    ensures
        match read_u32_at(data@, *old(off) as int) {
            Some(v) => r == Ok::<u32, RegistryError>(v) && *final(off) == *old(off) + 4,
            None => r == Err::<u32, RegistryError>(RegistryError::InvalidInstructionData)
                && *final(off) == *old(off),
        },
{
    let start = *off;
    let bytes = ix_read_bytes(data, off, 4)?;
    let v = get_u32(bytes, 0);
    assert(bytes@.subrange(0, 4) =~= data@.subrange(start as int, start + 4));
    Ok(v)
}

/// Reads a little-endian `u16` argument.
pub fn ix_read_u16(data: &[u8], off: &mut usize) -> (r: Result<u16, RegistryError>)
    ensures
        match read_u16_at(data@, *old(off) as int) {
            Some(v) => r == Ok::<u16, RegistryError>(v) && *final(off) == *old(off) + 2,
            None => r == Err::<u16, RegistryError>(RegistryError::InvalidInstructionData)
                && *final(off) == *old(off),
        },
{
    let start = *off;
    let bytes = ix_read_bytes(data, off, 2)?;
    let v = get_u16(bytes, 0);
    assert(bytes@.subrange(0, 2) =~= data@.subrange(start as int, start + 2));
    Ok(v)
}

/// Reads a `u8` argument.
pub fn ix_read_u8(data: &[u8], off: &mut usize) -> (r: Result<u8, RegistryError>)
    ensures
        if *old(off) < data@.len() {
            r == Ok::<u8, RegistryError>(data@[*old(off) as int]) && *final(off) == *old(off) + 1
        } else {
            r == Err::<u8, RegistryError>(RegistryError::InvalidInstructionData) && *final(off)
                == *old(off)
        },
{
    Ok(ix_read_bytes(data, off, 1)?[0])
}

/// Borsh `Vec<u8>` / byte payload of a `String`.
pub fn ix_read_len_prefixed<'a>(data: &'a [u8], off: &mut usize) -> (r: Result<
    &'a [u8],
    RegistryError,
>)
    ensures
        match lp_at(data@, *old(off) as int) {
            Some((bytes, end)) => r is Ok && r->Ok_0@ == bytes && *final(off) == end,
            None => r == Err::<&[u8], RegistryError>(RegistryError::InvalidInstructionData),
        },
{
    let len = ix_read_u32(data, off)? as usize;
    ix_read_bytes(data, off, len)
}

/// Borsh `String`: length-prefixed bytes that must be valid UTF-8 (borsh
/// enforces this; malformed arguments fail the same way).
pub fn ix_read_str<'a>(data: &'a [u8], off: &mut usize) -> (r: Result<&'a [u8], RegistryError>)
    ensures
        match str_at(data@, *old(off) as int) {
            Some((bytes, end)) => r is Ok && r->Ok_0@ == bytes && *final(off) == end,
            None => r == Err::<&[u8], RegistryError>(RegistryError::InvalidInstructionData),
        },
{
    let bytes = ix_read_len_prefixed(data, off)?;
    if !is_utf8(bytes) {
        return Err(RegistryError::InvalidInstructionData);
    }
    Ok(bytes)
}

/// The arguments of the instructions that name an entry: one borsh
/// `String`, the fragment, and nothing after it.
pub open spec fn spec_fragment_arg(args: Seq<u8>) -> Result<Seq<u8>, RegistryError> {
    match str_at(args, 0) {
        Some((f, end)) => if end == args.len() {
            Ok(f)
        } else {
            Err(RegistryError::InvalidInstructionData)
        },
        None => Err(RegistryError::InvalidInstructionData),
    }
}

/// Reads the fragment that names an entry.
pub fn read_fragment_arg<'a>(args: &'a [u8]) -> (r: Result<&'a [u8], RegistryError>)
    ensures
        match spec_fragment_arg(args@) {
            Ok(f) => r is Ok && r->Ok_0@ == f,
            Err(e) => r == Err::<&[u8], RegistryError>(e),
        },
{
    let mut off: usize = 0;
    let fragment = ix_read_str(args, &mut off)?;
    require_consumed(args, off)?;
    Ok(fragment)
}

/// Instruction arguments are exact: bytes past the last field are
/// rejected, the way borsh's `try_from_slice` rejects them.
pub fn require_consumed(data: &[u8], off: usize) -> (r: Result<(), RegistryError>)
    ensures
        r == (if off == data@.len() {
            Ok::<(), RegistryError>(())
        } else {
            Err(RegistryError::InvalidInstructionData)
        }),
{
    if off != data.len() {
        return Err(RegistryError::InvalidInstructionData);
    }
    Ok(())
}

} // verus!
