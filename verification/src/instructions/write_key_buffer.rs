//! Append one chunk of key material to a key buffer. Chunks arrive in
//! order, each continuing exactly where the previous one ended, so the
//! buffer never has holes and `written` is always a prefix of the key.
//!
//! ABI: [authority, key_buffer]

use vstd::prelude::*;

use crate::accounts::{check_authority_signer, spec_check_authority_signer, Account};
use crate::bytes::{push_bytes, push_u32, u32_le};
use crate::error::RegistryError;
use crate::instructions::shared::{after_check, ix_read_len_prefixed, ix_read_u32, require_consumed};
use crate::key_buffer::{
    kb_key_len, kb_written, read_key_buffer, spec_verify_key_buffer, spec_write_key_chunk,
    verify_key_buffer, write_key_chunk, KB_OFF_KEY, KB_OFF_WRITTEN,
};
use crate::state::{lp_at, read_u32_at};

verus! {

/// The arguments: `offset: u32, chunk: Vec<u8>`, exactly.
pub open spec fn spec_chunk_args(args: Seq<u8>) -> Result<(u32, Seq<u8>), RegistryError> {
    match read_u32_at(args, 0) {
        None => Err(RegistryError::InvalidInstructionData),
        Some(offset) => match lp_at(args, 4) {
            None => Err(RegistryError::InvalidInstructionData),
            Some((chunk, end)) => if end == args.len() {
                Ok((offset, chunk))
            } else {
                Err(RegistryError::InvalidInstructionData)
            },
        },
    }
}

/// The buffer `d` with `chunk` written at key offset `offset`, and
/// `written` set to `end`.
pub open spec fn with_chunk(d: Seq<u8>, offset: u32, chunk: Seq<u8>, end: u32) -> Seq<u8> {
    d.subrange(0, KB_OFF_WRITTEN as int) + u32_le(end) + d.subrange(
        KB_OFF_WRITTEN + 4,
        KB_OFF_KEY + offset,
    ) + chunk + d.subrange(KB_OFF_KEY + end, d.len() as int)
}

/// What `write_key_buffer` decides: on success, the buffer's new content.
pub open spec fn spec_write_key_buffer(accounts: Seq<Account>, args: Seq<u8>) -> Result<
    Seq<u8>,
    RegistryError,
> {
    if accounts.len() < 2 {
        Err(RegistryError::NotEnoughAccountKeys)
    } else {
        let d = accounts[1].data@;
        after_check(
            spec_check_authority_signer(accounts[0]),
            after_check(
                spec_verify_key_buffer(accounts[1], accounts[0].address@, None),
                match spec_chunk_args(args) {
                    Err(e) => Err(e),
                    Ok((offset, chunk)) => match spec_write_key_chunk(
                        kb_written(d),
                        kb_key_len(d),
                        offset,
                        chunk.len(),
                    ) {
                        Err(e) => Err(e),
                        Ok(end) => Ok(with_chunk(d, offset, chunk, end)),
                    },
                },
            ),
        )
    }
}

/// Write a chunk: validates the authority, the buffer, the arguments and
/// the chunk's place, and returns the buffer's new content.
pub fn process(accounts: &[Account], args: &[u8]) -> (r: Result<Vec<u8>, RegistryError>)
    ensures
        match spec_write_key_buffer(accounts@, args@) {
            Ok(data) => r is Ok && r->Ok_0@ == data,
            Err(e) => r is Err && r->Err_0 == e,
        },
{
    if accounts.len() < 2 {
        return Err(RegistryError::NotEnoughAccountKeys);
    }
    check_authority_signer(&accounts[0])?;
    verify_key_buffer(&accounts[1], &accounts[0].address, None)?;

    // Borsh args: offset: u32, chunk: Vec<u8>
    let mut off: usize = 0;
    let offset = ix_read_u32(args, &mut off)?;
    let chunk = ix_read_len_prefixed(args, &mut off)?;
    require_consumed(args, off)?;

    let d = accounts[1].data.as_slice();
    let kb = read_key_buffer(d);
    let end = write_key_chunk(kb.written, kb.key_len, offset, chunk.len())?;
    let n = d.len();
    let mut out: Vec<u8> = Vec::new();
    push_bytes(&mut out, &d[0..KB_OFF_WRITTEN]);
    push_u32(&mut out, end);
    push_bytes(&mut out, &d[KB_OFF_WRITTEN + 4..KB_OFF_KEY + offset as usize]);
    push_bytes(&mut out, chunk);
    push_bytes(&mut out, &d[KB_OFF_KEY + end as usize..n]);
    Ok(out)
}

} // verus!
