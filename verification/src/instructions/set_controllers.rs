//! Replace the controller sets (authority required). The two borsh vectors
//! in the instruction args are byte identical to their on-chain form, so
//! after validation they are copied in verbatim and the tail (verification
//! methods + services) moves by the size delta.

use vstd::prelude::*;

use crate::accounts::Account;
use crate::bytes::{push_bytes, u32_le};
use crate::error::{require, DidError, RegistryError};
use crate::instructions::shared::{
    check_mutation_accounts, ix_read_bytes, ix_read_str, ix_read_u32, parse_document,
    spec_mutation_accounts, Update,
};
use crate::model::{
    decode_document, doc_of, keys_at, lemma_controller_bytes, lemma_decoded_pieces,
    lemma_decoded_prefix, lp_bytes, sections_shape, ser_document, ser_head,
    ser_keys, ser_lps, ser_service_section, ser_vm_section, Document,
};
use crate::rules::{authority_rule, lemma_authority_bridge};
use crate::state::{
    bytes_eq, lemma_lp_run_prefix, lemma_lp_run_stops, lp_run, lp_run_end, read_u32_at,
    require_authority, spec_valid_uri_ascii, valid_uri_ascii, Sections, ACCOUNT_DISCRIMINATOR,
    MAX_CONTROLLER_LEN, MAX_NATIVE_CONTROLLERS, MAX_OTHER_CONTROLLERS, OFF_SECTIONS,
};

verus! {

/// `did:`
pub const DID_PREFIX: [u8; 4] = [100, 105, 100, 58];

/// `did:bio:`
pub const BIO_PREFIX: [u8; 8] = [100, 105, 100, 58, 98, 105, 111, 58];

/// `c` starts with `p`.
pub open spec fn has_prefix(c: Seq<u8>, p: Seq<u8>) -> bool {
    p.len() <= c.len() && c.subrange(0, p.len() as int) == p
}

/// The views of borrowed byte strings.
pub open spec fn slices_view(v: Seq<&[u8]>) -> Seq<Seq<u8>> {
    v.map_values(|s: &[u8]| s@)
}

/// The arguments: `native_controllers: Vec<[u8; 32]>`, `other_controllers:
/// Vec<String>`, exactly. On success, the two lists.
pub open spec fn spec_controller_args(args: Seq<u8>) -> Result<
    (Seq<Seq<u8>>, Seq<Seq<u8>>),
    RegistryError,
> {
    match read_u32_at(args, 0) {
        None => Err(RegistryError::InvalidInstructionData),
        Some(nc) => if 4 + 32 * nc > args.len() {
            Err(RegistryError::InvalidInstructionData)
        } else {
            match read_u32_at(args, 4 + 32 * nc) {
                None => Err(RegistryError::InvalidInstructionData),
                Some(oc) => {
                    let items = 8 + 32 * nc;
                    let run = lp_run(args, items, oc as nat);
                    if run.len() < oc {
                        Err(RegistryError::InvalidInstructionData)
                    } else if exists|i: int|
                        0 <= i < oc && !vstd::utf8::valid_utf8(#[trigger] run[i].bytes) {
                        Err(RegistryError::InvalidInstructionData)
                    } else if lp_run_end(run, items) != args.len() {
                        Err(RegistryError::InvalidInstructionData)
                    } else {
                        Ok((keys_at(args, 4, nc as nat), lp_bytes(run)))
                    }
                },
            }
        },
    }
}

/// Native controllers: none is the DID's own subject, none repeats.
pub open spec fn natives_ok(ns: Seq<Seq<u8>>, subject: Seq<u8>) -> bool {
    &&& forall|i: int| 0 <= i < ns.len() ==> #[trigger] ns[i] != subject
    &&& forall|i: int, j: int| 0 <= j < i < ns.len() ==> ns[j] != ns[i]
}

/// A controller in DID form: bounded printable ASCII starting with `did:`,
/// and not `did:bio:`, whose controllers take the native (key) form.
pub open spec fn is_other_controller(c: Seq<u8>) -> bool {
    &&& spec_valid_uri_ascii(c, MAX_CONTROLLER_LEN)
    &&& has_prefix(c, DID_PREFIX@)
    &&& !has_prefix(c, BIO_PREFIX@)
}

/// Other controllers: each in DID form, none repeats.
pub open spec fn others_ok(os: Seq<Seq<u8>>) -> bool {
    &&& forall|i: int| 0 <= i < os.len() ==> is_other_controller(#[trigger] os[i])
    &&& forall|i: int, j: int| 0 <= j < i < os.len() ==> os[j] != os[i]
}

/// When a document accepts the controller lists `ns` and `os` from
/// `signer`.
pub open spec fn controllers_rule(
    doc: Document,
    signer: Seq<u8>,
    ns: Seq<Seq<u8>>,
    os: Seq<Seq<u8>>,
) -> Result<(), RegistryError> {
    match authority_rule(doc, signer) {
        Err(e) => Err(e),
        Ok(_) => if ns.len() > MAX_NATIVE_CONTROLLERS || os.len() > MAX_OTHER_CONTROLLERS {
            Err(RegistryError::Domain(DidError::TooManyControllers))
        } else if !natives_ok(ns, doc.subject) || !others_ok(os) {
            Err(RegistryError::Domain(DidError::InvalidController))
        } else {
            Ok(())
        },
    }
}

/// The document with the controller lists `ns` and `os`.
pub open spec fn with_controllers(doc: Document, ns: Seq<Seq<u8>>, os: Seq<Seq<u8>>) -> Document {
    Document { native_controllers: ns, other_controllers: os, ..doc }
}

/// What `set_controllers` decides: on success, the subject and the
/// document the account holds afterwards (before `touch`).
pub open spec fn spec_set_controllers(accounts: Seq<Account>, args: Seq<u8>) -> Result<
    (Seq<u8>, Document),
    RegistryError,
> {
    match spec_mutation_accounts(accounts) {
        Err(e) => Err(e),
        Ok(subject) => match spec_controller_args(args) {
            Err(e) => Err(e),
            Ok((ns, os)) => match decode_document(accounts[2].data@) {
                None => Err(RegistryError::InvalidAccountData),
                Some(doc) => match controllers_rule(doc, accounts[1].address@, ns, os) {
                    Err(e) => Err(e),
                    Ok(_) => Ok((subject, with_controllers(doc, ns, os))),
                },
            },
        },
    }
}

/// Reads the controller lists: the number of native controllers (stored
/// back to back from offset 4) and the other controllers.
pub fn read_controller_args<'a>(args: &'a [u8]) -> (r: Result<(usize, Vec<&'a [u8]>), RegistryError>)
    ensures
        match spec_controller_args(args@) {
            Ok((ns, os)) => r is Ok && r->Ok_0.0 == ns.len() && slices_view(r->Ok_0.1@) == os
                && 4 + 32 * ns.len() <= args@.len() && args@ == u32_le(ns.len() as u32)
                + ser_keys(ns) + u32_le(os.len() as u32) + ser_lps(os),
            Err(e) => r is Err && r->Err_0 == e,
        },
{
    let ghost a = args@;
    let n = args.len();
    let mut off: usize = 0;
    let nc = ix_read_u32(args, &mut off)?;
    // The loops run for the full on-wire count: they advance the cursor.
    let mut i: u32 = 0;
    while i < nc
        invariant
            i <= nc,
            off == 4 + 32 * i,
            off <= n,
            n == a.len(),
            args@ == a,
            read_u32_at(a, 0) == Some(nc),
        decreases nc - i,
    {
        let r = ix_read_bytes(args, &mut off, 32);
        if r.is_err() {
            return Err(RegistryError::InvalidInstructionData);
        }
        i = i + 1;
    }
    let oc = ix_read_u32(args, &mut off)?;
    let items = off;
    let ghost run = lp_run(a, items as int, oc as nat);
    let mut others: Vec<&'a [u8]> = Vec::new();
    let mut j: u32 = 0;
    while j < oc
        invariant
            j <= oc,
            items == 8 + 32 * nc,
            items <= off <= n,
            n == a.len(),
            args@ == a,
            read_u32_at(a, 0) == Some(nc),
            read_u32_at(a, 4 + 32 * nc) == Some(oc),
            run == lp_run(a, items as int, oc as nat),
            lp_run(a, items as int, j as nat).len() == j,
            off == lp_run_end(lp_run(a, items as int, j as nat), items as int),
            forall|k: int|
                0 <= k < j ==> vstd::utf8::valid_utf8(
                    #[trigger] lp_run(a, items as int, j as nat)[k].bytes,
                ),
            slices_view(others@) == lp_bytes(lp_run(a, items as int, j as nat)),
        decreases oc - j,
    {
        let ghost prev = lp_run(a, items as int, j as nat);
        proof {
            lemma_lp_run_prefix(a, items as int, j as nat, (j + 1) as nat);
            lemma_lp_run_prefix(a, items as int, (j + 1) as nat, oc as nat);
            lemma_lp_run_stops(a, items as int, (j + 1) as nat, oc as nat);
            crate::state::lemma_lp_run_bounds(a, items as int, (j + 1) as nat);
        }
        let start = off;
        let r = ix_read_str(args, &mut off);
        match r {
            Ok(c) => {
                let ghost next = lp_run(a, items as int, (j + 1) as nat);
                assert(next == prev.push(crate::state::lp_entry_at(a, start as int)->0));
                let ghost old_others = others@;
                others.push(c);
                proof {
                    assert(forall|k: int| 0 <= k < j ==> #[trigger] next[k] == prev[k]);
                    assert(slices_view(others@) =~= slices_view(old_others).push(c@));
                    assert(lp_bytes(next) =~= lp_bytes(prev).push(c@));
                }
            },
            Err(_) => {
                proof {
                    if crate::state::lp_at(a, start as int) is Some {
                        let next = lp_run(a, items as int, (j + 1) as nat);
                        assert(next == prev.push(crate::state::lp_entry_at(a, start as int)->0));
                        assert(next.len() == j + 1);
                        assert(next == run.take(j + 1));
                        assert(run[j as int] == next[j as int]);
                        assert(!vstd::utf8::valid_utf8(run[j as int].bytes));
                    } else {
                        assert(lp_run(a, items as int, (j + 1) as nat) == prev);
                    }
                }
                return Err(RegistryError::InvalidInstructionData);
            },
        }
        j = j + 1;
    }
    if off != n {
        return Err(RegistryError::InvalidInstructionData);
    }
    proof {
        lemma_controller_bytes(a, nc, oc);
        assert(a.subrange(0, a.len() as int) =~= a);
    }
    Ok((nc as usize, others))
}

/// `c` starts with `p`.
fn starts_with(c: &[u8], p: &[u8]) -> (r: bool)
    ensures
        r == has_prefix(c@, p@),
{
    if p.len() > c.len() {
        return false;
    }
    bytes_eq(&c[0..p.len()], p)
}

/// The native controllers stored back to back from offset 4 of `args`
/// pass `natives_ok`.
fn natives_valid(args: &[u8], nc: usize, subject: &[u8]) -> (r: bool)
    requires
        4 + 32 * nc <= args@.len(),
    ensures
        r == natives_ok(keys_at(args@, 4, nc as nat), subject@),
{
    let ghost ns = keys_at(args@, 4, nc as nat);
    let n = args.len();
    let mut i: usize = 0;
    while i < nc
        invariant
            i <= nc,
            n == args@.len(),
            4 + 32 * nc <= args@.len(),
            ns == keys_at(args@, 4, nc as nat),
            forall|k: int| 0 <= k < i ==> #[trigger] ns[k] != subject@,
            forall|k: int, l: int| 0 <= l < k < i ==> ns[l] != ns[k],
        decreases nc - i,
    {
        let key = &args[4 + 32 * i..4 + 32 * i + 32];
        assert(key@ == ns[i as int]);
        if bytes_eq(key, subject) {
            return false;
        }
        let mut j: usize = 0;
        while j < i
            invariant
                j <= i < nc,
                n == args@.len(),
                4 + 32 * nc <= args@.len(),
                ns == keys_at(args@, 4, nc as nat),
                key@ == ns[i as int],
                forall|l: int| 0 <= l < j ==> #[trigger] ns[l] != ns[i as int],
            decreases i - j,
        {
            let other = &args[4 + 32 * j..4 + 32 * j + 32];
            assert(other@ == ns[j as int]);
            if bytes_eq(other, key) {
                return false;
            }
            j = j + 1;
        }
        i = i + 1;
    }
    true
}

/// One other controller is in DID form.
fn other_valid(c: &[u8]) -> (r: bool)
    ensures
        r == is_other_controller(c@),
{
    // did:bio controllers must use the native (pubkey) form; everything
    // else must at least look like a DID.
    valid_uri_ascii(c, MAX_CONTROLLER_LEN) && starts_with(c, DID_PREFIX.as_slice()) && !starts_with(
        c,
        BIO_PREFIX.as_slice(),
    )
}

/// The other controllers pass `others_ok`.
fn others_valid(os: &Vec<&[u8]>) -> (r: bool)
    ensures
        r == others_ok(slices_view(os@)),
{
    let ghost v = slices_view(os@);
    let mut i: usize = 0;
    while i < os.len()
        invariant
            i <= os@.len(),
            v == slices_view(os@),
            forall|k: int| 0 <= k < i ==> is_other_controller(#[trigger] v[k]),
            forall|k: int, l: int| 0 <= l < k < i ==> v[l] != v[k],
        decreases os@.len() - i,
    {
        let c = os[i];
        assert(c@ == v[i as int]);
        if !other_valid(c) {
            return false;
        }
        let mut j: usize = 0;
        while j < i
            invariant
                j <= i < os@.len(),
                v == slices_view(os@),
                c@ == v[i as int],
                forall|l: int| 0 <= l < j ==> #[trigger] v[l] != v[i as int],
            decreases i - j,
        {
            assert(os[j as int]@ == v[j as int]);
            if bytes_eq(os[j], c) {
                return false;
            }
            j = j + 1;
        }
        i = i + 1;
    }
    true
}

/// The serialization of a document with new controller lists, from the
/// pieces of the serialization of the document.
proof fn lemma_with_controllers_bytes(doc: Document, ns: Seq<Seq<u8>>, os: Seq<Seq<u8>>)
    ensures
        ser_document(with_controllers(doc, ns, os)) == ser_head(doc) + (u32_le(ns.len() as u32)
            + ser_keys(ns) + u32_le(os.len() as u32) + ser_lps(os)) + (ser_vm_section(doc)
            + ser_service_section(doc)),
{
    let new_doc = with_controllers(doc, ns, os);
    assert(ser_head(new_doc) == ser_head(doc));
    assert(ser_vm_section(new_doc) == ser_vm_section(doc));
    assert(ser_service_section(new_doc) == ser_service_section(doc));
    assert(ser_document(new_doc) =~= ser_head(doc) + (u32_le(ns.len() as u32) + ser_keys(ns)
        + u32_le(os.len() as u32) + ser_lps(os)) + (ser_vm_section(doc) + ser_service_section(
        doc,
    )));
}

/// The bytes of a decoded document around its controller section.
proof fn lemma_controller_frame(d: Seq<u8>, s: Sections)
    requires
        sections_shape(d, s),
        d.subrange(0, 8) == ACCOUNT_DISCRIMINATOR@,
    ensures
        OFF_SECTIONS <= s.vm_count_pos <= s.end <= d.len(),
        d.subrange(0, OFF_SECTIONS as int) == ser_head(doc_of(d, s)),
        d.subrange(s.vm_count_pos as int, s.end as int) == ser_vm_section(doc_of(d, s))
            + ser_service_section(doc_of(d, s)),
{
    lemma_decoded_pieces(d, s);
    lemma_decoded_prefix(d, s);
    crate::model::lemma_split2(d, s.vm_count_pos as int, s.svc_count_pos as int, s.end as int);
}

/// Applies the rules of replacing the controllers of the document that
/// `data` holds with those that `args` encodes (`nc` native ones from
/// offset 4, and `others`), on behalf of `signer`; on success, the
/// serialization of the document with the new controllers.
pub fn set_controllers_in(
    data: &[u8],
    signer: &[u8; 32],
    args: &[u8],
    nc: usize,
    others: &Vec<&[u8]>,
) -> (r: Result<Vec<u8>, RegistryError>)
    requires
        data@.len() >= OFF_SECTIONS,
        data@.subrange(0, 8) == ACCOUNT_DISCRIMINATOR@,
        4 + 32 * nc <= args@.len(),
        args@ == u32_le(nc as u32) + ser_keys(keys_at(args@, 4, nc as nat)) + u32_le(
            others@.len() as u32,
        ) + ser_lps(slices_view(others@)),
    ensures
        ({
            let ns = keys_at(args@, 4, nc as nat);
            let os = slices_view(others@);
            match decode_document(data@) {
                None => r == Err::<Vec<u8>, RegistryError>(RegistryError::InvalidAccountData),
                Some(doc) => match controllers_rule(doc, signer@, ns, os) {
                    Err(e) => r == Err::<Vec<u8>, RegistryError>(e),
                    Ok(_) => r is Ok && r->Ok_0@ == ser_document(with_controllers(doc, ns, os)),
                },
            }
        }),
{
    let ghost ns = keys_at(args@, 4, nc as nat);
    let ghost os = slices_view(others@);
    let s = parse_document(data)?;
    let ghost d = data@;
    let ghost doc = doc_of(d, s);
    proof {
        lemma_authority_bridge(d, s, signer@);
        lemma_controller_frame(d, s);
    }
    require_authority(data, &s, signer)?;
    require(
        nc <= MAX_NATIVE_CONTROLLERS && others.len() <= MAX_OTHER_CONTROLLERS,
        DidError::TooManyControllers,
    )?;
    // No self-control loops, no duplicates.
    let subject = &data[17..49];
    assert(subject@ == doc.subject);
    require(natives_valid(args, nc, subject), DidError::InvalidController)?;
    require(others_valid(others), DidError::InvalidController)?;
    assert(controllers_rule(doc, signer@, ns, os) == Ok::<(), RegistryError>(()));

    // The new sections replace the old ones; the tail moves by the delta.
    let mut out: Vec<u8> = Vec::new();
    push_bytes(&mut out, &data[0..OFF_SECTIONS]);
    push_bytes(&mut out, args);
    push_bytes(&mut out, &data[s.vm_count_pos..s.end]);
    proof {
        lemma_with_controllers_bytes(doc, ns, os);
    }
    assert(out@ =~= ser_document(with_controllers(doc, ns, os)));
    Ok(out)
}

/// Set the controllers: validates the accounts, the arguments and the
/// rules, and returns the account's new content, which holds the new
/// controller lists.
pub fn process(accounts: &[Account], args: &[u8]) -> (r: Result<Update, RegistryError>)
    ensures
        match spec_set_controllers(accounts@, args@) {
            Ok((subject, doc)) => r is Ok && r->Ok_0.subject@ == subject && r->Ok_0.data@
                == ser_document(doc),
            Err(e) => r == Err::<Update, RegistryError>(e),
        },
{
    let subject = check_mutation_accounts(accounts)?;
    let (nc, others) = read_controller_args(args)?;
    let data = set_controllers_in(accounts[2].data.as_slice(), &accounts[1].address, args, nc, &others)?;
    Ok(Update { subject, data })
}

} // verus!
