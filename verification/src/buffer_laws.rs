//! What holds of key buffers: a buffer is bound to the authority that
//! opened it and to one DID, only that authority uses it, and its key
//! arrives in order, chunk after chunk, without holes.

use vstd::prelude::*;

use crate::accounts::Account;
use crate::bytes::lemma_u32_le;
use crate::instructions::add_verification_method_from_buffer::spec_add_verification_method_from_buffer;
use crate::instructions::close_key_buffer::spec_close_key_buffer;
use crate::instructions::create_key_buffer::{spec_create_key_buffer, spec_key_buffer_args};
use crate::instructions::write_key_buffer::{spec_chunk_args, spec_write_key_buffer};
use crate::key_buffer::{
    kb_authority, kb_did_account, kb_flags, kb_fragment, kb_key, kb_key_len, kb_well_formed,
    kb_written, KB_OFF_METHOD_TYPE,
};

verus! {

/// A new buffer is bound to the authority that opened it and to one DID:
/// its header names the signer and the DID account, it has exactly the
/// room its declared key needs, and nothing of the key is written yet.
pub proof fn law_new_buffers_are_bound(accounts: Seq<Account>, args: Seq<u8>)
    requires
        spec_create_key_buffer(accounts, args) is Ok,
    ensures
        accounts[1].is_signer,
        kb_well_formed(spec_create_key_buffer(accounts, args)->Ok_0.1),
        kb_authority(spec_create_key_buffer(accounts, args)->Ok_0.1) == accounts[1].address@,
        kb_did_account(spec_create_key_buffer(accounts, args)->Ok_0.1) == accounts[2].address@,
        kb_key_len(spec_create_key_buffer(accounts, args)->Ok_0.1) == spec_key_buffer_args(
            args,
        )->Ok_0.3,
        kb_written(spec_create_key_buffer(accounts, args)->Ok_0.1) == 0,
{
    let (fragment, method_type, flags, key_len) = spec_key_buffer_args(args)->Ok_0;
    let d = spec_create_key_buffer(accounts, args)->Ok_0.1;
    lemma_u32_le(key_len);
    lemma_u32_le(0);
    lemma_u32_le(fragment.len() as u32);
    crate::bytes::lemma_u16_le(flags);
    assert(d.subrange(0, 8) =~= crate::key_buffer::KEY_BUFFER_DISCRIMINATOR@);
    assert(d.subrange(8, 40) =~= accounts[2].address@);
    assert(d.subrange(40, 72) =~= accounts[1].address@);
    assert(d.subrange(76, 80) =~= crate::bytes::u32_le(key_len));
    assert(d.subrange(80, 84) =~= crate::bytes::u32_le(0));
    assert(d.subrange(84, 88) =~= crate::bytes::u32_le(fragment.len() as u32));
}

/// A buffer answers only to the authority it is bound to: writing or
/// closing it needs that authority's signature, and adding the method it
/// stages needs that signature and the very DID the buffer was opened for.
pub proof fn law_buffers_answer_only_to_their_authority(accounts: Seq<Account>, args: Seq<u8>)
    ensures
        spec_write_key_buffer(accounts, args) is Ok ==> accounts[0].is_signer && kb_authority(
            accounts[1].data@,
        ) == accounts[0].address@,
        spec_close_key_buffer(accounts, args) is Ok ==> accounts[1].is_signer && kb_authority(
            accounts[2].data@,
        ) == accounts[1].address@,
        spec_add_verification_method_from_buffer(accounts, args) is Ok ==> accounts[1].is_signer
            && kb_authority(accounts[3].data@) == accounts[1].address@ && kb_did_account(
            accounts[3].data@,
        ) == accounts[2].address@,
{
}

/// The key arrives in order: a chunk is accepted only where the previous
/// one ended and only within the key; it lands at its offset and moves the
/// written mark past it, and the binding, the staged method's fields, the
/// bytes already written and the buffer's size stay as they were.
pub proof fn law_chunks_arrive_in_order(accounts: Seq<Account>, args: Seq<u8>)
    requires
        spec_write_key_buffer(accounts, args) is Ok,
    ensures
        ({
            let d = accounts[1].data@;
            let n = spec_write_key_buffer(accounts, args)->Ok_0;
            let offset = spec_chunk_args(args)->Ok_0.0;
            let chunk = spec_chunk_args(args)->Ok_0.1;
            &&& offset == kb_written(d)
            &&& chunk.len() > 0
            &&& kb_written(n) == offset + chunk.len()
            &&& kb_written(n) <= kb_key_len(n)
            &&& kb_key_len(n) == kb_key_len(d)
            &&& n.len() == d.len()
            &&& kb_well_formed(n)
            &&& kb_authority(n) == kb_authority(d)
            &&& kb_did_account(n) == kb_did_account(d)
            &&& kb_fragment(n) == kb_fragment(d)
            &&& kb_flags(n) == kb_flags(d)
            &&& n[KB_OFF_METHOD_TYPE as int] == d[KB_OFF_METHOD_TYPE as int]
            &&& kb_key(n).subrange(0, offset as int) == kb_key(d).subrange(0, offset as int)
            &&& kb_key(n).subrange(offset as int, kb_written(n) as int) == chunk
        }),
{
    let d = accounts[1].data@;
    let n = spec_write_key_buffer(accounts, args)->Ok_0;
    let (offset, chunk) = spec_chunk_args(args)->Ok_0;
    let end = (offset + chunk.len()) as u32;
    lemma_u32_le(end);
    assert(n == crate::instructions::write_key_buffer::with_chunk(d, offset, chunk, end));
    assert(n.len() == d.len());
    assert(n.subrange(0, 80) =~= d.subrange(0, 80));
    assert(n.subrange(80, 84) =~= crate::bytes::u32_le(end));
    assert(n.subrange(84, 120) =~= d.subrange(84, 120));
    assert(n.subrange(76, 80) =~= d.subrange(76, 80));
    assert(n.subrange(0, 8) =~= d.subrange(0, 8));
    assert(kb_authority(n) =~= kb_authority(d));
    assert(kb_did_account(n) =~= kb_did_account(d));
    assert(n.subrange(74, 76) =~= d.subrange(74, 76));
    assert(n.subrange(84, 88) =~= d.subrange(84, 88));
    assert(kb_fragment(n) =~= kb_fragment(d));
    assert(kb_key(n).subrange(0, offset as int) =~= kb_key(d).subrange(0, offset as int));
    assert(kb_key(n).subrange(offset as int, end as int) =~= chunk);
}

} // verus!
