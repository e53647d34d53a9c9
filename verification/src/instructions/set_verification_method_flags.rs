//! Replace the relationship/property flags of a verification method.
//! The only mutation that never resizes: ABI is [authority, did_account].

use vstd::prelude::*;

use crate::accounts::{
    check_authority_signer, spec_check_authority_signer, spec_verify_did_account,
    verify_did_account, Account,
};
use crate::bytes::{push_bytes, push_u16, u16_le, u32_le};
use crate::error::{require, DidError, RegistryError};
use crate::instructions::shared::{
    after_check, ix_read_str, ix_read_u16, parse_document, read_u16_at, require_consumed, str_at,
    Update,
};
use crate::model::{
    decode_document, doc_of, lemma_decoded_prefix, lemma_decoded_serializes,
    lemma_ser_vms_update, lemma_vm_split, sections_shape, ser_controllers,
    ser_document, ser_head, ser_lp, ser_service_section, ser_vm, ser_vms,
    vm_model, Document, VerificationMethod,
};
use crate::rules::{
    authorities, authority_rule, lemma_authority_bridge, lemma_count_bridge,
    lemma_find_vm_bridge, vm_fragment_used, vm_is_authority, vm_position,
};
use crate::state::{
    authority_count, bytes_eq, find_vm, flags_allowed, require_authority, validate_vm_flags,
    vms_of, Sections, ACCOUNT_DISCRIMINATOR, OFF_SECTIONS, VM_FLAG_CAPABILITY_INVOCATION,
    VM_FLAG_PROTECTED, VM_TYPE_ED25519,
};

verus! {

/// The account checks of this instruction, `[authority, did_account]`:
/// on success, the subject of the DID account.
pub open spec fn spec_flag_accounts(a: Seq<Account>) -> Result<Seq<u8>, RegistryError> {
    if a.len() < 2 {
        Err(RegistryError::NotEnoughAccountKeys)
    } else {
        after_check(spec_check_authority_signer(a[0]), spec_verify_did_account(a[1]))
    }
}

/// The arguments: the fragment and the new flags, and nothing after them.
pub open spec fn spec_flag_args(args: Seq<u8>) -> Result<(Seq<u8>, u16), RegistryError> {
    match str_at(args, 0) {
        None => Err(RegistryError::InvalidInstructionData),
        Some((f, o1)) => match read_u16_at(args, o1) {
            None => Err(RegistryError::InvalidInstructionData),
            Some(flags) => if o1 + 2 == args.len() {
                Ok((f, flags))
            } else {
                Err(RegistryError::InvalidInstructionData)
            },
        },
    }
}

/// When a document lets `signer` give the method with fragment `f` the
/// flags `flags`: on success, the position of that method. Changing a
/// protected method, or granting or revoking protection, takes the
/// method's own key; the flags must fit the key type; the last update
/// authority never loses capabilityInvocation.
pub open spec fn set_flags_rule(doc: Document, signer: Seq<u8>, f: Seq<u8>, flags: u16) -> Result<
    int,
    RegistryError,
> {
    let vms = doc.verification_methods;
    match authority_rule(doc, signer) {
        Err(e) => Err(e),
        Ok(_) => if !vm_fragment_used(vms, f) {
            Err(RegistryError::Domain(DidError::VerificationMethodNotFound))
        } else {
            let k = vm_position(vms, f);
            let vm = vms[k];
            if (vm.flags | flags) & VM_FLAG_PROTECTED != 0 && vm.key != signer {
                Err(RegistryError::Domain(DidError::ProtectedVerificationMethod))
            } else if !flags_allowed(vm.method_type, flags) {
                Err(RegistryError::Domain(DidError::InvalidFlags))
            } else if vm_is_authority(vm) && flags & VM_FLAG_CAPABILITY_INVOCATION == 0
                && authorities(vms) <= 1 {
                Err(RegistryError::Domain(DidError::LastAuthority))
            } else {
                Ok(k)
            }
        },
    }
}

/// The document whose `k`-th method carries `flags`.
pub open spec fn with_flags(doc: Document, k: int, flags: u16) -> Document {
    let vms = doc.verification_methods;
    Document {
        verification_methods: vms.update(k, VerificationMethod { flags, ..vms[k] }),
        ..doc
    }
}

/// The bytes of an account buffer past the document it holds; kept by an
/// update that does not resize the account.
pub open spec fn trailing_bytes(d: Seq<u8>) -> Seq<u8> {
    match decode_document(d) {
        Some(doc) => d.subrange(ser_document(doc).len() as int, d.len() as int),
        None => seq![],
    }
}

/// What `set_verification_method_flags` decides: on success, the subject,
/// and the document the account holds afterwards (before `touch`).
pub open spec fn spec_set_verification_method_flags(accounts: Seq<Account>, args: Seq<u8>) -> Result<
    (Seq<u8>, Document),
    RegistryError,
> {
    match spec_flag_accounts(accounts) {
        Err(e) => Err(e),
        Ok(subject) => match spec_flag_args(args) {
            Err(e) => Err(e),
            Ok((f, flags)) => match decode_document(accounts[1].data@) {
                None => Err(RegistryError::InvalidAccountData),
                Some(doc) => match set_flags_rule(doc, accounts[0].address@, f, flags) {
                    Err(e) => Err(e),
                    Ok(k) => Ok((subject, with_flags(doc, k, flags))),
                },
            },
        },
    }
}

/// The account checks of this instruction.
pub fn check_flag_accounts(accounts: &[Account]) -> (r: Result<[u8; 32], RegistryError>)
    ensures
        match spec_flag_accounts(accounts@) {
            Ok(subject) => r is Ok && r->Ok_0@ == subject,
            Err(e) => r == Err::<[u8; 32], RegistryError>(e),
        },
{
    if accounts.len() < 2 {
        return Err(RegistryError::NotEnoughAccountKeys);
    }
    check_authority_signer(&accounts[0])?;
    verify_did_account(&accounts[1])
}

/// Reads the fragment and the new flags.
pub fn read_flag_args<'a>(args: &'a [u8]) -> (r: Result<(&'a [u8], u16), RegistryError>)
    ensures
        match spec_flag_args(args@) {
            Ok((f, flags)) => r is Ok && r->Ok_0.0@ == f && r->Ok_0.1 == flags,
            Err(e) => r == Err::<(&[u8], u16), RegistryError>(e),
        },
{
    let mut off: usize = 0;
    let fragment = ix_read_str(args, &mut off)?;
    let new_flags = ix_read_u16(args, &mut off)?;
    require_consumed(args, off)?;
    Ok((fragment, new_flags))
}

/// The bytes of a decoded document before the flags of its `k`-th method.
#[verifier::opaque]
pub open spec fn before_flags(doc: Document, k: int) -> Seq<u8> {
    let vms = doc.verification_methods;
    ser_head(doc) + ser_controllers(doc) + u32_le(vms.len() as u32) + ser_vms(vms.take(k)) + (
    ser_lp(vms[k].fragment) + seq![vms[k].method_type])
}

/// The bytes of a decoded document after the flags of its `k`-th method.
#[verifier::opaque]
pub open spec fn after_flags(doc: Document, k: int) -> Seq<u8> {
    let vms = doc.verification_methods;
    ser_lp(vms[k].key) + (ser_vms(vms.skip(k + 1)) + ser_service_section(doc))
}

/// The serialization of a document whose `k`-th method carries `flags`,
/// from the pieces of the serialization of the document.
proof fn lemma_with_flags_bytes(doc: Document, k: int, flags: u16)
    requires
        0 <= k < doc.verification_methods.len(),
    ensures
        ser_document(doc) == before_flags(doc, k) + u16_le(doc.verification_methods[k].flags)
            + after_flags(doc, k),
        ser_document(with_flags(doc, k, flags)) == before_flags(doc, k) + u16_le(flags)
            + after_flags(doc, k),
{
    reveal(before_flags);
    reveal(after_flags);
    let vms = doc.verification_methods;
    let new_doc = with_flags(doc, k, flags);
    let v = VerificationMethod { flags, ..vms[k] };
    assert(new_doc.verification_methods =~= vms.update(k, v));
    assert(vms.update(k, v).take(k) =~= vms.take(k));
    assert(vms.update(k, v).skip(k + 1) =~= vms.skip(k + 1));
    lemma_doc_vm_bytes(doc, k);
    lemma_doc_vm_bytes(new_doc, k);
    let x = ser_head(doc) + ser_controllers(doc) + u32_le(vms.len() as u32) + ser_vms(vms.take(k));
    let y = ser_vms(vms.skip(k + 1)) + ser_service_section(doc);
    let a = ser_lp(vms[k].fragment) + seq![vms[k].method_type];
    let b = ser_lp(vms[k].key);
    assert(ser_vm(vms[k]) =~= a + u16_le(vms[k].flags) + b);
    assert(ser_vm(v) =~= a + u16_le(flags) + b);
    assert(x + (a + u16_le(vms[k].flags) + b) + y =~= (x + a) + u16_le(vms[k].flags) + (b + y));
    assert(x + (a + u16_le(flags) + b) + y =~= (x + a) + u16_le(flags) + (b + y));
}

/// The serialization of a document around its `k`-th method.
proof fn lemma_doc_vm_bytes(doc: Document, k: int)
    requires
        0 <= k < doc.verification_methods.len(),
    ensures
        ({
            let vms = doc.verification_methods;
            ser_document(doc) == ser_head(doc) + ser_controllers(doc) + u32_le(vms.len() as u32)
                + ser_vms(vms.take(k)) + ser_vm(vms[k]) + (ser_vms(vms.skip(k + 1))
                + ser_service_section(doc))
        }),
{
    let vms = doc.verification_methods;
    lemma_ser_vms_update(vms, k, vms[k]);
    assert(vms.update(k, vms[k]) =~= vms);
    let h = ser_head(doc) + ser_controllers(doc);
    let c = u32_le(vms.len() as u32);
    let t = ser_vms(vms.take(k));
    let m = ser_vm(vms[k]);
    let u = ser_vms(vms.skip(k + 1));
    let z = ser_service_section(doc);
    assert(ser_document(doc) == h + (c + (t + m + u)) + z);
    assert(h + (c + (t + m + u)) + z =~= h + c + t + m + (u + z));
}

/// A two-byte field inside a known prefix of a buffer, and the buffer
/// around it.
proof fn lemma_field_split(d: Seq<u8>, e: int, pre: Seq<u8>, m: Seq<u8>, post: Seq<u8>)
    requires
        0 <= e <= d.len(),
        d.subrange(0, e) == pre + m + post,
        m.len() == 2,
    ensures
        pre.len() + 2 + post.len() == e,
        d.subrange(0, pre.len() as int) == pre,
        d.subrange(pre.len() + 2int, d.len() as int) == post + d.subrange(e, d.len() as int),
{
    let p = pre.len() as int;
    assert((pre + m + post).len() == e);
    assert(d.subrange(0, p) =~= (pre + m + post).subrange(0, p));
    assert(d.subrange(p + 2, d.len() as int) =~= (pre + m + post).subrange(p + 2, e) + d.subrange(
        e,
        d.len() as int,
    ));
}

/// The buffer with the two bytes at `pos` replaced by `flags`.
fn patch_flags(data: &[u8], pos: usize, flags: u16) -> (out: Vec<u8>)
    requires
        pos + 2 <= data@.len(),
    ensures
        out@ == data@.subrange(0, pos as int) + u16_le(flags) + data@.subrange(
            pos + 2,
            data@.len() as int,
        ),
{
    let n = data.len();
    let mut out: Vec<u8> = Vec::new();
    push_bytes(&mut out, &data[0..pos]);
    push_u16(&mut out, flags);
    push_bytes(&mut out, &data[pos + 2..n]);
    out
}

/// The flags of the `k`-th method sit at the end of `before_flags`.
proof fn lemma_flags_offset(d: Seq<u8>, s: Sections, k: int)
    requires
        sections_shape(d, s),
        d.subrange(0, 8) == ACCOUNT_DISCRIMINATOR@,
        0 <= k < s.vm_count,
    ensures
        before_flags(doc_of(d, s), k).len() == vms_of(d, s)[k].flags_pos,
{
    reveal(before_flags);
    let doc = doc_of(d, s);
    let e = vms_of(d, s)[k];
    let vms = doc.verification_methods;
    assert((ser_head(doc) + ser_controllers(doc)).len() == s.vm_count_pos) by {
        lemma_decoded_prefix(d, s);
    }
    assert(ser_vms(vms.take(k)).len() == e.start - s.vm_items && (ser_lp(vms[k].fragment)
        + seq![vms[k].method_type]).len() == e.flags_pos - e.start) by {
        lemma_vm_split(d, s, k);
    }
    assert(s.vm_items == s.vm_count_pos + 4);
}

/// A decoded document's buffer, split at the flags of its `k`-th method.
proof fn lemma_flags_content(d: Seq<u8>, s: Sections, k: int)
    requires
        sections_shape(d, s),
        d.subrange(0, 8) == ACCOUNT_DISCRIMINATOR@,
        0 <= k < s.vm_count,
    ensures
        s.end <= d.len(),
        d.subrange(0, s.end as int) == before_flags(doc_of(d, s), k) + u16_le(
            doc_of(d, s).verification_methods[k].flags,
        ) + after_flags(doc_of(d, s), k),
{
    let doc = doc_of(d, s);
    assert(doc.verification_methods.len() == s.vm_count);
    lemma_decoded_serializes(d, s);
    lemma_with_flags_bytes(doc, k, 0);
}

/// Patching the flags of the `k`-th method in place yields the
/// serialization of the changed document, followed by the bytes that
/// trailed the old one.
proof fn lemma_flags_patch(d: Seq<u8>, s: Sections, k: int, flags: u16)
    requires
        sections_shape(d, s),
        d.subrange(0, 8) == ACCOUNT_DISCRIMINATOR@,
        0 <= k < s.vm_count,
    ensures
        vms_of(d, s)[k].flags_pos + 2 <= d.len(),
        d.subrange(0, vms_of(d, s)[k].flags_pos) + u16_le(flags) + d.subrange(
            vms_of(d, s)[k].flags_pos + 2,
            d.len() as int,
        ) == ser_document(with_flags(doc_of(d, s), k, flags)) + d.subrange(
            s.end as int,
            d.len() as int,
        ),
{
    lemma_flags_offset(d, s, k);
    lemma_flags_content(d, s, k);
    lemma_patch_bytes(d, s.end as int, vms_of(d, s)[k].flags_pos, doc_of(d, s), k, flags);
}

/// Patching the flags of the `k`-th method of a document whose
/// serialization is a prefix of `d`.
proof fn lemma_patch_bytes(d: Seq<u8>, end: int, fp: int, doc: Document, k: int, flags: u16)
    requires
        0 <= k < doc.verification_methods.len(),
        before_flags(doc, k).len() == fp,
        0 <= end <= d.len(),
        d.subrange(0, end) == before_flags(doc, k) + u16_le(doc.verification_methods[k].flags)
            + after_flags(doc, k),
    ensures
        fp + 2 <= d.len(),
        d.subrange(0, fp) + u16_le(flags) + d.subrange(fp + 2, d.len() as int) == ser_document(
            with_flags(doc, k, flags),
        ) + d.subrange(end, d.len() as int),
{
    let pre = before_flags(doc, k);
    let post = after_flags(doc, k);
    let tail = d.subrange(end, d.len() as int);
    assert(u16_le(doc.verification_methods[k].flags).len() == 2);
    lemma_with_flags_bytes(doc, k, flags);
    lemma_field_split(d, end, pre, u16_le(doc.verification_methods[k].flags), post);
    lemma_concat_tail(pre + u16_le(flags), post, tail);
}

/// Regrouping a concatenation.
proof fn lemma_concat_tail(a: Seq<u8>, b: Seq<u8>, c: Seq<u8>)
    ensures
        a + (b + c) == a + b + c,
{
    assert(a + (b + c) =~= a + b + c);
}

/// The buffer of a decoded document whose `k`-th method gets `flags`,
/// patched in place.
fn rewrite_flags(data: &[u8], s: &Sections, Ghost(k): Ghost<int>, flags_pos: usize, flags: u16) -> (out:
    Vec<u8>)
    requires
        sections_shape(data@, *s),
        data@.subrange(0, 8) == ACCOUNT_DISCRIMINATOR@,
        0 <= k < s.vm_count,
        flags_pos == vms_of(data@, *s)[k].flags_pos,
    ensures
        out@ == ser_document(with_flags(doc_of(data@, *s), k, flags)) + data@.subrange(
            s.end as int,
            data@.len() as int,
        ),
{
    proof {
        lemma_flags_patch(data@, *s, k, flags);
    }
    patch_flags(data, flags_pos, flags)
}

/// Applies the rules of giving the method with fragment `fragment` the
/// flags `flags` in the document that `data` holds, on behalf of `signer`;
/// on success, the buffer with the flags patched in place.
pub fn set_flags_in(data: &[u8], signer: &[u8; 32], fragment: &[u8], flags: u16) -> (r: Result<
    Vec<u8>,
    RegistryError,
>)
    requires
        data@.len() >= OFF_SECTIONS,
        data@.subrange(0, 8) == ACCOUNT_DISCRIMINATOR@,
    ensures
        match decode_document(data@) {
            None => r == Err::<Vec<u8>, RegistryError>(RegistryError::InvalidAccountData),
            Some(doc) => match set_flags_rule(doc, signer@, fragment@, flags) {
                Err(e) => r == Err::<Vec<u8>, RegistryError>(e),
                Ok(k) => r is Ok && r->Ok_0@ == ser_document(with_flags(doc, k, flags))
                    + trailing_bytes(data@),
            },
        },
{
    let s = parse_document(data)?;
    let ghost d = data@;
    let ghost doc = doc_of(d, s);
    let ghost vms = doc.verification_methods;
    proof {
        lemma_authority_bridge(d, s, signer@);
        lemma_find_vm_bridge(d, s, fragment@);
        lemma_count_bridge(vms_of(d, s));
    }
    require_authority(data, &s, signer)?;
    let found = find_vm(data, &s, fragment)?;
    let vm = match found {
        Some(vm) => vm,
        None => return Err(RegistryError::Domain(DidError::VerificationMethodNotFound)),
    };
    let ghost k = vm_position(vms, fragment@);
    assert(vm@ == vms_of(d, s)[k]);
    assert(vms[k] == vm_model(vm@) && k < s.vm_count);
    // Changing a protected method, or granting/revoking protection,
    // requires the method's own key as authority.
    if (vm.flags | flags) & VM_FLAG_PROTECTED != 0 {
        require(bytes_eq(vm.key, signer.as_slice()), DidError::ProtectedVerificationMethod)?;
    }
    validate_vm_flags(vm.method_type, flags)?;
    // Never orphan the DID by stripping the last capabilityInvocation key.
    let was_authority = vm.method_type == VM_TYPE_ED25519 && vm.flags
        & VM_FLAG_CAPABILITY_INVOCATION != 0;
    let stays_authority = flags & VM_FLAG_CAPABILITY_INVOCATION != 0;
    if was_authority && !stays_authority {
        let count = authority_count(data, &s)?;
        require(count > 1, DidError::LastAuthority)?;
    }
    assert(set_flags_rule(doc, signer@, fragment@, flags) == Ok::<int, RegistryError>(k));
    proof {
        lemma_decoded_serializes(d, s);
    }
    let out = rewrite_flags(data, &s, Ghost(k), vm.flags_pos, flags);
    Ok(out)
}

/// Set the flags of a verification method: validates the accounts, the
/// arguments and the rules, and returns the account's new content, the
/// same bytes with the method's flags replaced.
pub fn process(accounts: &[Account], args: &[u8]) -> (r: Result<Update, RegistryError>)
    ensures
        match spec_set_verification_method_flags(accounts@, args@) {
            Ok((subject, doc)) => r is Ok && r->Ok_0.subject@ == subject && r->Ok_0.data@
                == ser_document(doc) + trailing_bytes(accounts@[1].data@),
            Err(e) => r == Err::<Update, RegistryError>(e),
        },
{
    let subject = check_flag_accounts(accounts)?;
    let (fragment, flags) = read_flag_args(args)?;
    let data = set_flags_in(accounts[1].data.as_slice(), &accounts[0].address, fragment, flags)?;
    Ok(Update { subject, data })
}

} // verus!
