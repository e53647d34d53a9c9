//! Unit tests of the registry's decisions: argument decoding, account
//! checks, routing, the account walk, rent, and each refusal.

use bio_did_registry::accounts::{check_payer, check_system_program, verify_did_account, Account};
use bio_did_registry::error::{require, DidError, RegistryError};
use bio_did_registry::instructions::shared::{
    ix_read_bytes, ix_read_len_prefixed, ix_read_str, ix_read_u16, ix_read_u32, ix_read_u8,
    Update,
};
use bio_did_registry::instructions::{
    add_service, add_verification_method, deactivate, initialize, initialize_owned,
    remove_service, remove_verification_method, set_controllers, set_verification_method_flags,
};
use bio_did_registry::ix::{program_id, route, Instruction};
use bio_did_registry::rent::{
    rent_from_classic, rent_from_condensed, settlement, storage_bytes, RentQuote, Settlement,
};
use bio_did_registry::state::{
    authority_count, expected_key_len, for_each_service, for_each_vm, owned_subject,
    read_len_prefixed, require_authority, require_fragment_free, service_space, touch,
    valid_fragment, valid_uri_ascii, validate_vm_flags, version, vm_space, Sections,
    INITIAL_SPACE, TOMBSTONE_SPACE,
};

const PROGRAM_ID: &str = "H1gnV4GjNT3UV7AgGNUCkSaciuVVtM7hKb8JhPV3Xxy6";
const NOW: i64 = 1_700_000_000;

fn registry_id() -> [u8; 32] {
    five8_const::decode_32_const(PROGRAM_ID)
}

/// A distinct Ed25519 public key (a point of the curve) for each `seed`.
fn key(seed: u8) -> [u8; 32] {
    let mut candidate = [seed; 32];
    for i in 0..=255u8 {
        candidate[0] = i;
        if solana_address::bytes_are_curve_point(candidate) {
            return candidate;
        }
    }
    panic!("no curve point for seed {seed}");
}

/// 32 bytes that are not a point of the curve.
fn off_curve(seed: u8) -> [u8; 32] {
    let mut candidate = [seed; 32];
    for i in 0..=255u8 {
        candidate[0] = i;
        if !solana_address::bytes_are_curve_point(candidate) {
            return candidate;
        }
    }
    panic!("every candidate is on the curve");
}

fn pda(seeds: &[&[u8]]) -> ([u8; 32], u8) {
    let (a, b) = solana_address::Address::find_program_address(
        seeds,
        &solana_address::Address::new_from_array(registry_id()),
    );
    (a.to_bytes(), b)
}

fn account(address: [u8; 32], owner: [u8; 32], signer: bool, writable: bool, data: Vec<u8>) -> Account {
    Account {
        address,
        owner,
        lamports: 1_000_000_000,
        is_signer: signer,
        is_writable: writable,
        data,
    }
}

fn system() -> Account {
    account([0u8; 32], [0u8; 32], false, false, Vec::new())
}

/// The DID account of `subject`, freshly initialized.
fn fresh_did(subject: [u8; 32]) -> Account {
    let (address, _) = pda(&[b"bio-did", &subject]);
    let accounts = vec![
        account(subject, [0u8; 32], true, true, Vec::new()),
        account(address, [0u8; 32], false, true, Vec::new()),
        system(),
    ];
    let creation = initialize::process(&accounts, &subject).unwrap();
    let data = initialize::initial_account_data(&creation, NOW);
    account(address, registry_id(), false, true, data)
}

fn edit_accounts(did: &Account, authority: [u8; 32]) -> Vec<Account> {
    vec![
        account(authority, [0u8; 32], true, true, Vec::new()),
        account(authority, [0u8; 32], true, false, Vec::new()),
        did.clone(),
        system(),
    ]
}

/// Runs an edit and stores its result, stamped, in `did`.
fn edit(
    did: &mut Account,
    ix: fn(&[Account], &[u8]) -> Result<Update, RegistryError>,
    authority: [u8; 32],
    args: &[u8],
) -> Result<(), RegistryError> {
    let update = ix(&edit_accounts(did, authority), args)?;
    let mut data = update.data;
    touch(&mut data, NOW + 1);
    did.data = data;
    Ok(())
}

fn put_str(buf: &mut Vec<u8>, s: &[u8]) {
    buf.extend_from_slice(&(s.len() as u32).to_le_bytes());
    buf.extend_from_slice(s);
}

fn vm_args(fragment: &[u8], method_type: u8, flags: u16, key: &[u8]) -> Vec<u8> {
    let mut args = Vec::new();
    put_str(&mut args, fragment);
    args.push(method_type);
    args.extend_from_slice(&flags.to_le_bytes());
    put_str(&mut args, key);
    args
}

fn service_args(fragment: &[u8], service_type: &[u8], endpoint: &[u8]) -> Vec<u8> {
    let mut args = Vec::new();
    put_str(&mut args, fragment);
    put_str(&mut args, service_type);
    put_str(&mut args, endpoint);
    args
}

fn fragment_args(fragment: &[u8]) -> Vec<u8> {
    let mut args = Vec::new();
    put_str(&mut args, fragment);
    args
}

fn controller_args(native: &[[u8; 32]], other: &[&[u8]]) -> Vec<u8> {
    let mut args = Vec::new();
    args.extend_from_slice(&(native.len() as u32).to_le_bytes());
    for k in native {
        args.extend_from_slice(k);
    }
    args.extend_from_slice(&(other.len() as u32).to_le_bytes());
    for s in other {
        put_str(&mut args, s);
    }
    args
}

fn domain(e: DidError) -> RegistryError {
    RegistryError::Domain(e)
}

// ---------------------------------------------------------------------------
// Argument cursor
// ---------------------------------------------------------------------------

#[test]
fn test_ix_readers_decode_borsh() {
    let data = [1u8, 2, 3, 4, 5, 6, 7, 2, 0, 0, 0, 0xaa, 0xbb, 9];
    let mut off = 0usize;
    assert_eq!(ix_read_u32(&data, &mut off), Ok(0x0403_0201));
    assert_eq!(off, 4);
    assert_eq!(ix_read_u16(&data, &mut off), Ok(0x0605));
    assert_eq!(ix_read_u8(&data, &mut off), Ok(7));
    assert_eq!(ix_read_len_prefixed(&data, &mut off), Ok(&[0xaau8, 0xbb][..]));
    assert_eq!(off, 13);
    assert_eq!(ix_read_bytes(&data, &mut off, 1), Ok(&[9u8][..]));
    assert_eq!(ix_read_u8(&data, &mut off), Err(RegistryError::InvalidInstructionData));
    assert_eq!(off, 14);
    let mut off = 13usize;
    assert_eq!(ix_read_u16(&data, &mut off), Err(RegistryError::InvalidInstructionData));
    assert_eq!(off, 13);
}

#[test]
fn test_ix_read_str_requires_utf8() {
    let mut good = Vec::new();
    put_str(&mut good, "héllo".as_bytes());
    let mut off = 0usize;
    assert_eq!(ix_read_str(&good, &mut off), Ok("héllo".as_bytes()));
    let mut bad = Vec::new();
    put_str(&mut bad, &[0xff, 0xfe]);
    let mut off = 0usize;
    assert_eq!(ix_read_str(&bad, &mut off), Err(RegistryError::InvalidInstructionData));
}

#[test]
fn test_account_reader_reports_account_data() {
    let data = [3u8, 0, 0, 0, b'a', b'b'];
    let mut off = 0usize;
    assert_eq!(read_len_prefixed(&data, &mut off), Err(RegistryError::InvalidAccountData));
}

// ---------------------------------------------------------------------------
// Sizes and checks
// ---------------------------------------------------------------------------

#[test]
fn test_sizes() {
    assert_eq!(expected_key_len(0), Some(32));
    assert_eq!(expected_key_len(1), Some(32));
    assert_eq!(expected_key_len(2), Some(33));
    assert_eq!(expected_key_len(3), Some(2592));
    assert_eq!(expected_key_len(4), None);
    assert_eq!(vm_space(7, 32), 4 + 7 + 1 + 2 + 4 + 32);
    assert_eq!(service_space(8, 11, 20), 4 + 8 + 4 + 11 + 4 + 20);
}

#[test]
fn test_fragment_and_uri_charsets() {
    assert!(valid_fragment(b"rotation-1"));
    assert!(valid_fragment(b"A_z-9"));
    assert!(!valid_fragment(b""));
    assert!(!valid_fragment(b"no spaces!"));
    assert!(!valid_fragment(&[b'a'; 33]));
    assert!(valid_fragment(&[b'a'; 32]));
    assert!(valid_uri_ascii(b"ipfs://cid", 64));
    assert!(!valid_uri_ascii(b"not a uri", 64));
    assert!(!valid_uri_ascii(b"", 64));
    assert!(!valid_uri_ascii(b"abcd", 3));
}

#[test]
fn test_flag_rules() {
    // Unknown bits.
    assert_eq!(validate_vm_flags(0, 1 << 12), Err(domain(DidError::InvalidFlags)));
    // X25519 is key agreement only.
    assert_eq!(validate_vm_flags(1, 1), Err(domain(DidError::InvalidFlags)));
    assert_eq!(validate_vm_flags(1, 4), Ok(()));
    // X25519 may also be protected, but not sign.
    assert_eq!(validate_vm_flags(1, 4 | 256), Ok(()));
    assert_eq!(validate_vm_flags(1, 16), Err(domain(DidError::InvalidFlags)));
    // capabilityInvocation is Ed25519 only.
    assert_eq!(validate_vm_flags(3, 8), Err(domain(DidError::InvalidFlags)));
    assert_eq!(validate_vm_flags(0, 8 | 256), Ok(()));
    assert_eq!(require(true, DidError::InvalidFlags), Ok(()));
    assert_eq!(require(false, DidError::LastAuthority), Err(domain(DidError::LastAuthority)));
}

#[test]
fn test_account_checks() {
    let payer = account(key(1), [0u8; 32], true, true, Vec::new());
    assert_eq!(check_payer(&payer), Ok(()));
    let unsigned = account(key(1), [0u8; 32], false, true, Vec::new());
    assert_eq!(check_payer(&unsigned), Err(RegistryError::MissingRequiredSignature));
    let readonly = account(key(1), [0u8; 32], true, false, Vec::new());
    assert_eq!(check_payer(&readonly), Err(RegistryError::Immutable));
    assert_eq!(check_system_program(&system()), Ok(()));
    let other = account(key(2), [0u8; 32], false, false, Vec::new());
    assert_eq!(check_system_program(&other), Err(RegistryError::IncorrectProgramId));
}

#[test]
fn test_verify_did_account() {
    let subject = key(3);
    let did = fresh_did(subject);
    assert_eq!(verify_did_account(&did), Ok(subject));

    let mut readonly = did.clone();
    readonly.is_writable = false;
    assert_eq!(verify_did_account(&readonly), Err(RegistryError::Immutable));

    let mut foreign = did.clone();
    foreign.owner = [0u8; 32];
    assert_eq!(verify_did_account(&foreign), Err(RegistryError::InvalidAccountOwner));

    let mut short = did.clone();
    short.data.truncate(70);
    assert_eq!(verify_did_account(&short), Err(RegistryError::InvalidAccountData));

    let mut wrong_disc = did.clone();
    wrong_disc.data[0] ^= 1;
    assert_eq!(verify_did_account(&wrong_disc), Err(RegistryError::InvalidAccountData));

    // The account must sit at the PDA of the subject it stores.
    let mut elsewhere = did.clone();
    elsewhere.address = fresh_did(key(4)).address;
    assert_eq!(verify_did_account(&elsewhere), Err(RegistryError::InvalidSeeds));
}

// ---------------------------------------------------------------------------
// Routing
// ---------------------------------------------------------------------------

#[test]
fn test_program_id_decodes_base58() {
    assert_eq!(program_id(), registry_id());
    assert_eq!(program_id(), bio_did_registry::address::ID);
    assert_eq!(program_id()[0..4], [237, 231, 249, 151]);
}

#[test]
fn test_route() {
    let id = registry_id();
    let mut data = vec![44u8, 112, 33, 172, 113, 28, 142, 13];
    data.extend_from_slice(&[1, 2, 3]);
    let (ix, args) = route(&id, &data).unwrap();
    assert_eq!(ix, Instruction::Deactivate);
    assert_eq!(args, &[1u8, 2, 3][..]);
    let (ix, _) = route(&id, &[51, 133, 240, 229, 41, 137, 108, 91]).unwrap();
    assert_eq!(ix, Instruction::InitializeOwned);
    assert_eq!(route(&key(5), &data).unwrap_err(), RegistryError::IncorrectProgramId);
    assert_eq!(route(&id, &data[0..7]).unwrap_err(), RegistryError::InvalidInstructionData);
    assert_eq!(route(&id, &[0u8; 8]).unwrap_err(), RegistryError::InvalidInstructionData);
}

// ---------------------------------------------------------------------------
// Creation
// ---------------------------------------------------------------------------

#[test]
fn test_initialize_refusals() {
    let subject = key(6);
    let (address, bump) = pda(&[b"bio-did", &subject]);
    let payer = account(key(7), [0u8; 32], true, true, Vec::new());
    let fresh = account(address, [0u8; 32], false, true, Vec::new());
    let ok = initialize::process(&[payer.clone(), fresh.clone(), system()], &subject).unwrap();
    assert_eq!(ok.subject, subject);
    assert_eq!(ok.authority, subject);
    assert_eq!(ok.bump, bump);

    // A subject off the curve is refused: nobody could sign for it.
    let bad = off_curve(6);
    let at = pda(&[b"bio-did", &bad]).0;
    let res = initialize::process(
        &[payer.clone(), account(at, [0u8; 32], false, true, Vec::new()), system()],
        &bad,
    );
    assert_eq!(res.unwrap_err(), RegistryError::InvalidArgument);

    // Arguments are exact.
    let mut long = subject.to_vec();
    long.push(0);
    let res = initialize::process(&[payer.clone(), fresh.clone(), system()], &long);
    assert_eq!(res.unwrap_err(), RegistryError::InvalidInstructionData);

    // The account must be at the subject's PDA.
    let res = initialize::process(&[payer.clone(), fresh.clone(), system()], &key(8));
    assert_eq!(res.unwrap_err(), RegistryError::InvalidSeeds);

    // A used account never becomes a new document.
    let used = account(address, registry_id(), false, true, vec![0u8; TOMBSTONE_SPACE]);
    let res = initialize::process(&[payer.clone(), used, system()], &subject);
    assert_eq!(res.unwrap_err(), RegistryError::AccountAlreadyInitialized);

    let mut readonly = fresh.clone();
    readonly.is_writable = false;
    let res = initialize::process(&[payer.clone(), readonly, system()], &subject);
    assert_eq!(res.unwrap_err(), RegistryError::Immutable);

    let res = initialize::process(&[payer.clone(), fresh.clone()], &subject);
    assert_eq!(res.unwrap_err(), RegistryError::NotEnoughAccountKeys);
}

#[test]
fn test_initial_account_data() {
    let subject = key(9);
    let did = fresh_did(subject);
    assert_eq!(did.data.len(), INITIAL_SPACE);
    assert_eq!(version(&did.data), 1);
    assert_eq!(did.data[50..58], NOW.to_le_bytes());
    let s = Sections::parse(&did.data).unwrap();
    assert_eq!((s.nc_count, s.oc_count, s.vm_count, s.svc_count), (0, 0, 1, 0));
    assert_eq!(s.end, INITIAL_SPACE);
    let vms = for_each_vm(&did.data, &s).unwrap();
    assert_eq!(vms.len(), 1);
    assert_eq!(vms[0].fragment, b"default");
    assert_eq!(vms[0].key, &subject[..]);
    assert_eq!(vms[0].flags, 287);
    assert!(for_each_service(&did.data, &s).unwrap().is_empty());
    assert_eq!(authority_count(&did.data, &s), Ok(1));
    assert_eq!(require_authority(&did.data, &s, &subject), Ok(()));
    assert_eq!(
        require_authority(&did.data, &s, &key(10)),
        Err(domain(DidError::Unauthorized))
    );
    assert_eq!(
        require_fragment_free(&did.data, &s, b"default"),
        Err(domain(DidError::FragmentAlreadyInUse))
    );
    assert_eq!(require_fragment_free(&did.data, &s, b"other"), Ok(()));
}

#[test]
fn test_initialize_owned() {
    let authority = key(11);
    let nonce: u64 = 42;
    let (subject, _) = pda(&[b"bio-did-owned", &authority, &nonce.to_le_bytes()]);
    assert_eq!(owned_subject(&authority, nonce), Some(subject));
    assert!(!solana_address::bytes_are_curve_point(subject));
    let (address, bump) = pda(&[b"bio-did", &subject]);
    let accounts = vec![
        account(key(12), [0u8; 32], true, true, Vec::new()),
        account(authority, [0u8; 32], true, false, Vec::new()),
        account(address, [0u8; 32], false, true, Vec::new()),
        system(),
    ];
    let creation = initialize_owned::process(&accounts, &nonce.to_le_bytes()).unwrap();
    assert_eq!(creation.subject, subject);
    assert_eq!(creation.authority, authority);
    assert_eq!(creation.bump, bump);
    let data = initialize::initial_account_data(&creation, NOW);
    assert_eq!(data[17..49], subject);
    assert_eq!(data[124 - 36..124 - 4], authority);

    // The same nonce under another authority is another subject.
    assert_ne!(owned_subject(&key(13), nonce), Some(subject));

    // The authority must sign.
    let mut unsigned = accounts.clone();
    unsigned[1].is_signer = false;
    let res = initialize_owned::process(&unsigned, &nonce.to_le_bytes());
    assert_eq!(res.unwrap_err(), RegistryError::MissingRequiredSignature);

    // The nonce is exactly eight bytes.
    let res = initialize_owned::process(&accounts, &[0u8; 9]);
    assert_eq!(res.unwrap_err(), RegistryError::InvalidInstructionData);
}

// ---------------------------------------------------------------------------
// Edits
// ---------------------------------------------------------------------------

#[test]
fn test_edit_refusals() {
    let s = key(14);
    let mut did = fresh_did(s);

    let res = edit(&mut did, remove_verification_method::process, s, &fragment_args(b"nope"));
    assert_eq!(res, Err(domain(DidError::VerificationMethodNotFound)));
    let res = edit(&mut did, remove_service::process, s, &fragment_args(b"nope"));
    assert_eq!(res, Err(domain(DidError::ServiceNotFound)));

    // Bytes past the last field are refused.
    let mut args = fragment_args(b"default");
    args.push(0);
    let res = edit(&mut did, remove_verification_method::process, s, &args);
    assert_eq!(res, Err(RegistryError::InvalidInstructionData));
    let res = edit(&mut did, deactivate::process, s, &[0]);
    assert_eq!(res, Err(RegistryError::InvalidInstructionData));

    // A co-authority cannot plant a protected key that is not its own.
    let res = edit(
        &mut did,
        add_verification_method::process,
        s,
        &vm_args(b"planted", 0, 1 | 256, &key(15)),
    );
    assert_eq!(res, Err(domain(DidError::ProtectedVerificationMethod)));

    // Unknown method types are malformed arguments.
    let res = edit(
        &mut did,
        add_verification_method::process,
        s,
        &vm_args(b"weird", 9, 1, &[0u8; 32]),
    );
    assert_eq!(res, Err(RegistryError::InvalidInstructionData));

    // Missing signature, missing accounts.
    let mut accounts = edit_accounts(&did, s);
    accounts[1].is_signer = false;
    let res = add_service::process(&accounts, &service_args(b"a", b"b", b"c"));
    assert_eq!(res.unwrap_err(), RegistryError::MissingRequiredSignature);
    let res = add_service::process(&edit_accounts(&did, s)[0..3], &service_args(b"a", b"b", b"c"));
    assert_eq!(res.unwrap_err(), RegistryError::NotEnoughAccountKeys);
}

#[test]
fn test_limits() {
    let s = key(16);
    let mut did = fresh_did(s);
    for i in 0..15u8 {
        let fragment = format!("k{i}");
        edit(
            &mut did,
            add_verification_method::process,
            s,
            &vm_args(fragment.as_bytes(), 1, 4, &[i; 32]),
        )
        .unwrap();
    }
    let res = edit(
        &mut did,
        add_verification_method::process,
        s,
        &vm_args(b"k16", 1, 4, &[0u8; 32]),
    );
    assert_eq!(res, Err(domain(DidError::TooManyVerificationMethods)));

    for i in 0..16u8 {
        let fragment = format!("s{i}");
        edit(&mut did, add_service::process, s, &service_args(fragment.as_bytes(), b"T", b"e"))
            .unwrap();
    }
    let res = edit(&mut did, add_service::process, s, &service_args(b"s16", b"T", b"e"));
    assert_eq!(res, Err(domain(DidError::TooManyServices)));
    assert_eq!(version(&did.data), 1 + 15 + 16);
    let s2 = Sections::parse(&did.data).unwrap();
    assert_eq!((s2.vm_count, s2.svc_count, s2.end), (16, 16, did.data.len()));
}

#[test]
fn test_controller_refusals() {
    let s = key(17);
    let mut did = fresh_did(s);
    let a = key(18);
    let res = edit(&mut did, set_controllers::process, s, &controller_args(&[a, a], &[]));
    assert_eq!(res, Err(domain(DidError::InvalidController)));
    let res = edit(
        &mut did,
        set_controllers::process,
        s,
        &controller_args(&[], &[&b"did:web:x"[..], &b"did:web:x"[..]]),
    );
    assert_eq!(res, Err(domain(DidError::InvalidController)));
    let res = edit(&mut did, set_controllers::process, s, &controller_args(&[], &[&b"web:x"[..]]));
    assert_eq!(res, Err(domain(DidError::InvalidController)));
    let res = edit(
        &mut did,
        set_controllers::process,
        s,
        &controller_args(&[], &[&[b'd'; 129][..]]),
    );
    assert_eq!(res, Err(domain(DidError::InvalidController)));
    let mut trailing = controller_args(&[a], &[&b"did:web:x"[..]]);
    trailing.push(0);
    let res = edit(&mut did, set_controllers::process, s, &trailing);
    assert_eq!(res, Err(RegistryError::InvalidInstructionData));
    let res = edit(&mut did, set_controllers::process, s, &controller_args(&[a], &[])[0..20]);
    assert_eq!(res, Err(RegistryError::InvalidInstructionData));

    // The arguments are stored verbatim.
    let args = controller_args(&[a], &[&b"did:web:x"[..]]);
    edit(&mut did, set_controllers::process, s, &args).unwrap();
    assert_eq!(did.data[58..58 + args.len()], args[..]);
    assert_eq!(did.data.len(), INITIAL_SPACE + args.len() - 8);
}

#[test]
fn test_protection_and_flags() {
    let s = key(19);
    let r = key(20);
    let mut did = fresh_did(s);
    edit(&mut did, add_verification_method::process, s, &vm_args(b"rot", 0, 1 | 8, &r)).unwrap();

    // A co-authority cannot grant protection to a key that is not its own...
    let mut args = fragment_args(b"rot");
    args.extend_from_slice(&(1u16 | 8 | 256).to_le_bytes());
    let res = edit(&mut did, set_verification_method_flags_with_two_accounts, s, &args);
    assert_eq!(res, Err(domain(DidError::ProtectedVerificationMethod)));
    // ...but the key itself can.
    edit(&mut did, set_verification_method_flags_with_two_accounts, r, &args).unwrap();
    let s2 = Sections::parse(&did.data).unwrap();
    let vms = for_each_vm(&did.data, &s2).unwrap();
    assert_eq!(vms[1].flags, 1 | 8 | 256);
    assert_eq!(vms[0].flags, 287);

    // The flags are patched in place: the size does not change.
    let len = did.data.len();
    let mut args = fragment_args(b"default");
    args.extend_from_slice(&(1u16 | 8 | 256).to_le_bytes());
    edit(&mut did, set_verification_method_flags_with_two_accounts, s, &args).unwrap();
    assert_eq!(did.data.len(), len);
    let s3 = Sections::parse(&did.data).unwrap();
    assert_eq!(for_each_vm(&did.data, &s3).unwrap()[0].flags, 1 | 8 | 256);
}

/// `set_verification_method_flags` takes `[authority, did_account]`.
fn set_verification_method_flags_with_two_accounts(
    accounts: &[Account],
    args: &[u8],
) -> Result<Update, RegistryError> {
    set_verification_method_flags::process(&accounts[1..3], args)
}

#[test]
fn test_flags_patch_keeps_trailing_bytes() {
    let s = key(21);
    let mut did = fresh_did(s);
    did.data.extend_from_slice(&[9, 9, 9]);
    let mut args = fragment_args(b"default");
    args.extend_from_slice(&(1u16 | 8 | 256).to_le_bytes());
    let update = set_verification_method_flags::process(&edit_accounts(&did, s)[1..3], &args).unwrap();
    assert_eq!(update.data.len(), INITIAL_SPACE + 3);
    assert_eq!(update.data[INITIAL_SPACE..], [9, 9, 9]);
    // An edit that resizes writes the exact document only.
    let update = add_service::process(&edit_accounts(&did, s), &service_args(b"m", b"T", b"e")).unwrap();
    assert_eq!(update.data.len(), INITIAL_SPACE + 4 + 1 + 4 + 1 + 4 + 1);
    assert_eq!(update.subject, s);
}

#[test]
fn test_touch_bumps_version_and_saturates() {
    let mut data = fresh_did(key(22)).data;
    touch(&mut data, 77);
    assert_eq!(version(&data), 2);
    assert_eq!(data[50..58], 77i64.to_le_bytes());
    data[8..16].copy_from_slice(&u64::MAX.to_le_bytes());
    touch(&mut data, 78);
    assert_eq!(version(&data), u64::MAX);
}

// ---------------------------------------------------------------------------
// Rent
// ---------------------------------------------------------------------------

#[test]
fn test_rent_quotes() {
    let mut classic = [0u8; 17];
    classic[0..8].copy_from_slice(&3480u64.to_le_bytes());
    classic[8..16].copy_from_slice(&2.0f64.to_le_bytes());
    assert_eq!(storage_bytes(124), Ok(252));
    assert_eq!(rent_from_classic(&classic, 124), Ok(RentQuote::Exact(252 * 3480 * 2)));
    classic[8..16].copy_from_slice(&1.5f64.to_le_bytes());
    assert_eq!(
        rent_from_classic(&classic, 124),
        Ok(RentQuote::Scaled {
            base: 252 * 3480,
            threshold: 1.5f64.to_bits(),
        })
    );
    assert_eq!(rent_from_condensed(&6960u64.to_le_bytes(), 74), Ok(202 * 6960));
    assert_eq!(
        rent_from_condensed(&u64::MAX.to_le_bytes(), 1),
        Err(RegistryError::ArithmeticOverflow)
    );
}

#[test]
fn test_settlement_is_exact() {
    assert_eq!(settlement(100, 100, 5), Ok(Settlement::Settled));
    assert_eq!(settlement(150, 100, 5), Ok(Settlement::Fund(50)));
    assert_eq!(
        settlement(100, 150, 5),
        Ok(Settlement::Refund {
            account_lamports: 100,
            payer_lamports: 55,
        })
    );
    assert_eq!(settlement(0, 10, u64::MAX), Err(RegistryError::ArithmeticOverflow));
}

#[test]
fn test_remove_undoes_add() {
    let s = key(23);
    let did = fresh_did(s);
    let added = add_verification_method::process(
        &edit_accounts(&did, s),
        &vm_args(b"rot", 0, 1 | 8, &key(24)),
    )
    .unwrap();
    let mut with_method = did.clone();
    with_method.data = added.data;
    let removed =
        remove_verification_method::process(&edit_accounts(&with_method, s), &fragment_args(b"rot"))
            .unwrap();
    assert_eq!(removed.data, did.data);

    let added = add_service::process(&edit_accounts(&did, s), &service_args(b"m", b"T", b"ipfs://x"))
        .unwrap();
    let mut with_service = did.clone();
    with_service.data = added.data;
    let removed = remove_service::process(&edit_accounts(&with_service, s), &fragment_args(b"m"))
        .unwrap();
    assert_eq!(removed.data, did.data);
}

#[test]
fn test_parse_reads_only_the_sections() {
    let did = fresh_did(key(1));
    let s = Sections::parse(&did.data).unwrap();
    assert_eq!(s.end, did.data.len());

    let mut appended = did.data.clone();
    appended.extend_from_slice(&[0xff, 0xff, 0xff, 0xff, 7]);
    let a = Sections::parse(&appended).unwrap();
    assert_eq!(
        (a.end, a.vm_count, a.vm_items, a.svc_count_pos, a.oc_count_pos),
        (s.end, s.vm_count, s.vm_items, s.svc_count_pos, s.oc_count_pos)
    );

    let mut header = did.data.clone();
    for b in header[0..58].iter_mut() {
        *b = !*b;
    }
    let h = Sections::parse(&header).unwrap();
    assert_eq!(
        (h.end, h.vm_count, h.vm_items, h.svc_count_pos, h.oc_count_pos),
        (s.end, s.vm_count, s.vm_items, s.svc_count_pos, s.oc_count_pos)
    );
}
