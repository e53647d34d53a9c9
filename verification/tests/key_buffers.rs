//! Key buffers: staging a key too large for one transaction, chunk by
//! chunk, and the rules that bind a buffer to its authority and its DID.
//! Also the end of every edit: the stamp and the event.

use bio_did_registry::accounts::{check_system_program, Account};
use bio_did_registry::address::SYSTEM_PROGRAM_ID;
use bio_did_registry::error::{DidError, RegistryError};
use bio_did_registry::events::{event_for, DID_DEACTIVATED, DID_INITIALIZED, DID_MODIFIED};
use bio_did_registry::instructions::add_verification_method::add_vm_to;
use bio_did_registry::instructions::add_verification_method_from_buffer::{
    self as finish, add_vm_from_buffer_to,
};
use bio_did_registry::instructions::create_key_buffer::{self as create, create_key_buffer_rule};
use bio_did_registry::instructions::shared::{finish_edit, Update};
use bio_did_registry::instructions::{
    add_service, add_verification_method, close_key_buffer, deactivate, initialize,
    remove_service, remove_verification_method, set_controllers, set_verification_method_flags,
    write_key_buffer,
};
use bio_did_registry::ix::{program_id, route, Instruction};
use bio_did_registry::key_buffer::{
    write_key_chunk, KEY_BUFFER_DISCRIMINATOR, KEY_BUFFER_HEADER,
};
use bio_did_registry::rent::rent_from_condensed;
use bio_did_registry::state::version;

const PROGRAM_ID: &str = "H1gnV4GjNT3UV7AgGNUCkSaciuVVtM7hKb8JhPV3Xxy6";
const NOW: i64 = 1_700_000_000;
const PQ_KEY_LEN: usize = 2592;

fn registry_id() -> [u8; 32] {
    five8_const::decode_32_const(PROGRAM_ID)
}

/// A distinct Ed25519 public key (a point of the curve) for each `seed`.
fn key(seed: u8) -> [u8; 32] {
    let mut candidate = [seed; 32];
    for i in 0..=255u8 {
        candidate[0] = i;
        if solana_address::bytes_are_curve_point(candidate) {
            return candidate;
        }
    }
    panic!("no curve point for seed {seed}");
}

fn pda(seeds: &[&[u8]]) -> ([u8; 32], u8) {
    let (a, b) = solana_address::Address::find_program_address(
        seeds,
        &solana_address::Address::new_from_array(registry_id()),
    );
    (a.to_bytes(), b)
}

fn account(address: [u8; 32], owner: [u8; 32], signer: bool, writable: bool, data: Vec<u8>) -> Account {
    Account {
        address,
        owner,
        lamports: 1_000_000_000,
        is_signer: signer,
        is_writable: writable,
        data,
    }
}

fn system() -> Account {
    account([0u8; 32], [0u8; 32], false, false, Vec::new())
}

/// The DID account of `subject`, freshly initialized.
fn fresh_did(subject: [u8; 32]) -> Account {
    let (address, _) = pda(&[b"bio-did", &subject]);
    let accounts = vec![
        account(subject, [0u8; 32], true, true, Vec::new()),
        account(address, [0u8; 32], false, true, Vec::new()),
        system(),
    ];
    let creation = initialize::process(&accounts, &subject).unwrap();
    let data = initialize::initial_account_data(&creation, NOW);
    account(address, registry_id(), false, true, data)
}

fn put_str(buf: &mut Vec<u8>, s: &[u8]) {
    buf.extend_from_slice(&(s.len() as u32).to_le_bytes());
    buf.extend_from_slice(s);
}

fn buffer_args(fragment: &[u8], method_type: u8, flags: u16, key_len: u32) -> Vec<u8> {
    let mut args = Vec::new();
    put_str(&mut args, fragment);
    args.push(method_type);
    args.extend_from_slice(&flags.to_le_bytes());
    args.extend_from_slice(&key_len.to_le_bytes());
    args
}

fn chunk_args(offset: u32, chunk: &[u8]) -> Vec<u8> {
    let mut args = offset.to_le_bytes().to_vec();
    put_str(&mut args, chunk);
    args
}

/// The address of the buffer `authority` opens for `did`.
fn buffer_address(did: &Account, authority: [u8; 32]) -> [u8; 32] {
    pda(&[b"bio-did-key", &did.address, &authority]).0
}

fn create_accounts(did: &Account, authority: [u8; 32], buffer: Account) -> Vec<Account> {
    vec![
        account(authority, [0u8; 32], true, true, Vec::new()),
        account(authority, [0u8; 32], true, false, Vec::new()),
        did.clone(),
        buffer,
        system(),
    ]
}

fn empty_buffer(did: &Account, authority: [u8; 32]) -> Account {
    account(buffer_address(did, authority), [0u8; 32], false, true, Vec::new())
}

/// Opens a buffer for `key_len` bytes and returns it as the registry leaves it.
fn open(did: &Account, authority: [u8; 32], fragment: &[u8], method_type: u8, flags: u16, key_len: u32) -> Result<Account, RegistryError> {
    let accounts = create_accounts(did, authority, empty_buffer(did, authority));
    let creation = create::process(&accounts, &buffer_args(fragment, method_type, flags, key_len))?;
    Ok(account(buffer_address(did, authority), registry_id(), false, true, creation.data))
}

/// Writes one chunk and stores the result in `buffer`.
fn write(buffer: &mut Account, signer: [u8; 32], offset: u32, chunk: &[u8]) -> Result<(), RegistryError> {
    let accounts = vec![account(signer, [0u8; 32], true, false, Vec::new()), buffer.clone()];
    buffer.data = write_key_buffer::process(&accounts, &chunk_args(offset, chunk))?;
    Ok(())
}

fn pq_key() -> Vec<u8> {
    (0..PQ_KEY_LEN).map(|i| (i % 251) as u8).collect()
}

/// Uploads the whole key in chunks of 900, 900 and 792 bytes.
fn upload(buffer: &mut Account, signer: [u8; 32], key: &[u8]) {
    write(buffer, signer, 0, &key[0..900]).unwrap();
    write(buffer, signer, 900, &key[900..1800]).unwrap();
    write(buffer, signer, 1800, &key[1800..]).unwrap();
}

#[test]
fn test_key_buffer_stages_a_post_quantum_key() {
    let auth = key(1);
    let did = fresh_did(auth);
    let key = pq_key();
    let mut buffer = open(&did, auth, b"pq-1", 3, 0x2, PQ_KEY_LEN as u32).unwrap();
    assert_eq!(buffer.data.len(), KEY_BUFFER_HEADER + PQ_KEY_LEN);
    assert_eq!(&buffer.data[0..8], &KEY_BUFFER_DISCRIMINATOR[..]);
    assert_eq!(&buffer.data[8..40], &did.address[..]);
    assert_eq!(&buffer.data[40..72], &auth[..]);
    upload(&mut buffer, auth, &key);
    assert_eq!(&buffer.data[KEY_BUFFER_HEADER..], &key[..]);

    let accounts = create_accounts(&did, auth, buffer);
    let update = finish::process(&accounts, &[]).unwrap();
    assert_eq!(update.subject, auth);
    let direct = add_vm_to(&did.data, &auth, b"pq-1", 3, 0x2, &key).unwrap();
    assert_eq!(update.data, direct);
    assert_eq!(update.data.len(), did.data.len() + 4 + 4 + 1 + 2 + 4 + PQ_KEY_LEN);
}

#[test]
fn test_key_buffer_chunks_arrive_in_order() {
    let auth = key(1);
    let did = fresh_did(auth);
    let key = pq_key();
    let mut buffer = open(&did, auth, b"pq-1", 3, 0x2, PQ_KEY_LEN as u32).unwrap();
    let chunk = Err(RegistryError::Domain(DidError::InvalidKeyChunk));
    assert_eq!(write(&mut buffer, auth, 900, &key[900..1800]), chunk);
    assert_eq!(write(&mut buffer, auth, 0, &[]), chunk);
    write(&mut buffer, auth, 0, &key[0..900]).unwrap();
    assert_eq!(write(&mut buffer, auth, 0, &key[0..900]), chunk);
    assert_eq!(write(&mut buffer, auth, 900, &vec![7u8; 1700]), chunk);
    assert_eq!(DidError::InvalidKeyChunk.code(), 6015);
}

#[test]
fn test_write_key_chunk_moves_the_mark() {
    assert_eq!(write_key_chunk(0, 2592, 0, 900), Ok(900));
    assert_eq!(write_key_chunk(900, 2592, 900, 900), Ok(1800));
    assert_eq!(write_key_chunk(1800, 2592, 1800, 792), Ok(2592));
    let chunk = Err(RegistryError::Domain(DidError::InvalidKeyChunk));
    assert_eq!(write_key_chunk(1800, 2592, 1800, 793), chunk);
    assert_eq!(write_key_chunk(900, 2592, 0, 900), chunk);
    assert_eq!(write_key_chunk(0, 2592, 0, 0), chunk);
}

#[test]
fn test_key_buffer_must_be_complete() {
    let auth = key(1);
    let did = fresh_did(auth);
    let key = pq_key();
    let mut buffer = open(&did, auth, b"pq-1", 3, 0x2, PQ_KEY_LEN as u32).unwrap();
    write(&mut buffer, auth, 0, &key[0..900]).unwrap();
    let accounts = create_accounts(&did, auth, buffer);
    let r = finish::process(&accounts, &[]);
    assert_eq!(r.err(), Some(RegistryError::Domain(DidError::KeyBufferIncomplete)));
    assert_eq!(DidError::KeyBufferIncomplete.code(), 6016);
    let incomplete = add_vm_from_buffer_to(&did.data, &auth, b"pq-1", 3, 0x2, 900, &key);
    assert_eq!(incomplete, Err(RegistryError::Domain(DidError::KeyBufferIncomplete)));
}

#[test]
fn test_key_buffer_answers_only_to_its_authority() {
    let auth = key(1);
    let stranger = key(2);
    let did = fresh_did(auth);
    let other_did = fresh_did(key(3));
    let key = pq_key();
    let mut buffer = open(&did, auth, b"pq-1", 3, 0x2, PQ_KEY_LEN as u32).unwrap();
    let mismatch = Err(RegistryError::Domain(DidError::KeyBufferMismatch));
    assert_eq!(write(&mut buffer, stranger, 0, &key[0..900]), mismatch);
    upload(&mut buffer, auth, &key);

    // Finishing into another DID.
    let accounts = create_accounts(&other_did, auth, buffer.clone());
    assert_eq!(finish::process(&accounts, &[]).err(), Some(RegistryError::Domain(DidError::KeyBufferMismatch)));

    // Closing by a stranger.
    let close = vec![
        account(stranger, [0u8; 32], true, true, Vec::new()),
        account(stranger, [0u8; 32], true, false, Vec::new()),
        buffer.clone(),
    ];
    assert_eq!(close_key_buffer::process(&close, &[]), mismatch);
    assert_eq!(DidError::KeyBufferMismatch.code(), 6017);
}

#[test]
fn test_close_key_buffer() {
    let auth = key(1);
    let did = fresh_did(auth);
    let buffer = open(&did, auth, b"pq-1", 3, 0x2, PQ_KEY_LEN as u32).unwrap();
    let close = vec![
        account(auth, [0u8; 32], true, true, Vec::new()),
        account(auth, [0u8; 32], true, false, Vec::new()),
        buffer.clone(),
    ];
    assert_eq!(close_key_buffer::process(&close, &[]), Ok(()));
    assert_eq!(close_key_buffer::process(&close, &[0]), Err(RegistryError::InvalidInstructionData));
    let mut unsigned = close.clone();
    unsigned[1].is_signer = false;
    assert_eq!(close_key_buffer::process(&unsigned, &[]), Err(RegistryError::MissingRequiredSignature));
    assert_eq!(close_key_buffer::process(&close[..2], &[]), Err(RegistryError::NotEnoughAccountKeys));
}

#[test]
fn test_one_key_buffer_at_a_time() {
    let auth = key(1);
    let did = fresh_did(auth);
    let existing = open(&did, auth, b"pq-1", 3, 0x2, PQ_KEY_LEN as u32).unwrap();
    let accounts = create_accounts(&did, auth, existing);
    let r = create::process(&accounts, &buffer_args(b"pq-2", 3, 0x2, PQ_KEY_LEN as u32));
    assert_eq!(r.err(), Some(RegistryError::AccountAlreadyInitialized));
}

#[test]
fn test_key_buffer_at_the_wrong_address() {
    let auth = key(1);
    let did = fresh_did(auth);
    let wrong = account(key(9), [0u8; 32], false, true, Vec::new());
    let accounts = create_accounts(&did, auth, wrong);
    let r = create::process(&accounts, &buffer_args(b"pq-1", 3, 0x2, PQ_KEY_LEN as u32));
    assert_eq!(r.err(), Some(RegistryError::InvalidSeeds));
}

#[test]
fn test_key_buffer_checks_the_rules_up_front() {
    let auth = key(1);
    let did = fresh_did(auth);
    // A protected method must be the signer's own 32-byte key.
    assert_eq!(
        open(&did, auth, b"pq-1", 3, 0x2 | 0x100, PQ_KEY_LEN as u32).err(),
        Some(RegistryError::Domain(DidError::ProtectedVerificationMethod))
    );
    assert_eq!(
        open(&did, auth, b"pq-1", 3, 0x2, 100).err(),
        Some(RegistryError::Domain(DidError::InvalidKeyLength))
    );
    assert_eq!(
        open(&did, auth, b"default", 3, 0x2, PQ_KEY_LEN as u32).err(),
        Some(RegistryError::Domain(DidError::FragmentAlreadyInUse))
    );
    assert_eq!(
        open(&did, auth, b"bad fragment", 3, 0x2, PQ_KEY_LEN as u32).err(),
        Some(RegistryError::Domain(DidError::InvalidFragment))
    );
    assert_eq!(
        open(&did, key(2), b"pq-1", 3, 0x2, PQ_KEY_LEN as u32).err(),
        Some(RegistryError::Domain(DidError::Unauthorized))
    );
    assert_eq!(
        open(&did, auth, b"pq-1", 9, 0x2, PQ_KEY_LEN as u32).err(),
        Some(RegistryError::InvalidInstructionData)
    );
    assert_eq!(
        create_key_buffer_rule(&did.data, &auth, b"pq-1", 3, 0x2, PQ_KEY_LEN as u32),
        Ok(())
    );
    assert_eq!(
        create_key_buffer_rule(&did.data, &auth, b"pq-1", 3, 0x102, PQ_KEY_LEN as u32),
        Err(RegistryError::Domain(DidError::ProtectedVerificationMethod))
    );
}

#[test]
fn test_routes_the_key_buffer_instructions() {
    let id = registry_id();
    let cases: [([u8; 8], Instruction); 4] = [
        ([138, 70, 101, 189, 154, 98, 203, 23], Instruction::CreateKeyBuffer),
        ([61, 88, 82, 10, 227, 249, 18, 117], Instruction::WriteKeyBuffer),
        ([111, 184, 129, 9, 216, 207, 122, 90], Instruction::AddVerificationMethodFromBuffer),
        ([6, 209, 103, 32, 78, 18, 70, 184], Instruction::CloseKeyBuffer),
    ];
    for (disc, ix) in cases {
        let mut data = disc.to_vec();
        data.push(42);
        let (routed, args) = route(&id, &data).unwrap();
        assert_eq!(routed, ix);
        assert_eq!(args, &[42u8][..]);
    }
}

#[test]
fn test_program_ids() {
    assert_eq!(program_id(), registry_id());
    assert_eq!(SYSTEM_PROGRAM_ID, [0u8; 32]);
    assert_ne!(program_id(), SYSTEM_PROGRAM_ID);
    assert_eq!(check_system_program(&system()), Ok(()));
    let not_system = account(registry_id(), [0u8; 32], false, false, Vec::new());
    assert_eq!(check_system_program(&not_system), Err(RegistryError::IncorrectProgramId));
}

#[test]
fn test_finish_edit_stamps_and_emits_once() {
    let auth = key(1);
    let did = fresh_did(auth);
    let accounts = create_accounts(&did, auth, empty_buffer(&did, auth));
    let mut buffer = open(&did, auth, b"pq-1", 3, 0x2, PQ_KEY_LEN as u32).unwrap();
    upload(&mut buffer, auth, &pq_key());
    let mut accounts = accounts;
    accounts[3] = buffer;
    let update = finish::process(&accounts, &[]).unwrap();
    let before = version(&update.data);
    assert_eq!(before, 1);
    let (data, event) = finish_edit(update, &did.address, Instruction::AddVerificationMethodFromBuffer, NOW + 5);
    assert_eq!(version(&data), 2);
    assert_eq!(&data[50..58], &(NOW + 5).to_le_bytes()[..]);
    assert_eq!(event.len(), 80);
    assert_eq!(&event[0..8], &DID_MODIFIED[..]);
    assert_eq!(&event[8..40], &did.address[..]);
    assert_eq!(&event[40..72], &auth[..]);
    assert_eq!(&event[72..80], &2u64.to_le_bytes()[..]);
}

#[test]
fn test_event_for_each_instruction() {
    assert_eq!(event_for(Instruction::Initialize), DID_INITIALIZED);
    assert_eq!(event_for(Instruction::InitializeOwned), DID_INITIALIZED);
    assert_eq!(event_for(Instruction::Deactivate), DID_DEACTIVATED);
    assert_eq!(event_for(Instruction::AddService), DID_MODIFIED);
    assert_eq!(event_for(Instruction::AddVerificationMethodFromBuffer), DID_MODIFIED);
}

#[test]
fn test_rent_grows_with_size() {
    let sysvar = 3480u64.to_le_bytes();
    let small = rent_from_condensed(&sysvar, 100).unwrap();
    let large = rent_from_condensed(&sysvar, 2000).unwrap();
    assert!(small <= large);
    assert_eq!(large - small, 1900 * 3480);
}

/// One DID and its key buffer, driven through the router as the program
/// drives them, with what the registry decides applied to the accounts.
struct World {
    subject: [u8; 32],
    did: Account,
    buffer: Account,
    now: i64,
    last_event: Vec<u8>,
}

impl World {
    fn new() -> Self {
        let subject = key(11);
        let did_address = pda(&[b"bio-did", &subject]).0;
        let buffer_address = pda(&[b"bio-did-key", &did_address, &subject]).0;
        World {
            subject,
            did: account(did_address, [0u8; 32], false, true, Vec::new()),
            buffer: account(buffer_address, [0u8; 32], false, true, Vec::new()),
            now: NOW,
            last_event: Vec::new(),
        }
    }

    fn signer(&self, writable: bool) -> Account {
        account(self.subject, [0u8; 32], true, writable, Vec::new())
    }

    fn apply(&mut self, update: Update, ix: Instruction) {
        let (data, event) = finish_edit(update, &self.did.address, ix, self.now);
        assert_eq!(event.len(), 80);
        self.did.data = data;
        self.last_event = event;
    }

    fn close_buffer(&mut self) {
        self.buffer.owner = [0u8; 32];
        self.buffer.data = Vec::new();
    }

    /// Routes `data` and runs the instruction it names with that
    /// instruction's accounts.
    fn send(&mut self, data: Vec<u8>) -> Result<Instruction, RegistryError> {
        self.now += 1;
        let (ix, args) = route(&registry_id(), &data)?;
        let edit = vec![self.signer(true), self.signer(false), self.did.clone(), system()];
        let staged = vec![
            self.signer(true),
            self.signer(false),
            self.did.clone(),
            self.buffer.clone(),
            system(),
        ];
        match ix {
            Instruction::Initialize => {
                let accounts = vec![self.signer(true), self.did.clone(), system()];
                let creation = initialize::process(&accounts, args)?;
                self.did.owner = registry_id();
                self.did.data = initialize::initial_account_data(&creation, self.now);
            }
            Instruction::InitializeOwned => return Err(RegistryError::InvalidInstructionData),
            Instruction::SetVerificationMethodFlags => {
                let accounts = vec![self.signer(false), self.did.clone()];
                let update = set_verification_method_flags::process(&accounts, args)?;
                self.apply(update, ix);
            }
            Instruction::AddVerificationMethod => {
                let update = add_verification_method::process(&edit, args)?;
                self.apply(update, ix);
            }
            Instruction::RemoveVerificationMethod => {
                let update = remove_verification_method::process(&edit, args)?;
                self.apply(update, ix);
            }
            Instruction::AddService => {
                let update = add_service::process(&edit, args)?;
                self.apply(update, ix);
            }
            Instruction::RemoveService => {
                let update = remove_service::process(&edit, args)?;
                self.apply(update, ix);
            }
            Instruction::SetControllers => {
                let update = set_controllers::process(&edit, args)?;
                self.apply(update, ix);
            }
            Instruction::Deactivate => {
                let update = deactivate::process(&edit, args)?;
                self.apply(update, ix);
            }
            Instruction::CreateKeyBuffer => {
                let creation = create::process(&staged, args)?;
                self.buffer.owner = registry_id();
                self.buffer.data = creation.data;
            }
            Instruction::WriteKeyBuffer => {
                let accounts = vec![self.signer(false), self.buffer.clone()];
                self.buffer.data = write_key_buffer::process(&accounts, args)?;
            }
            Instruction::AddVerificationMethodFromBuffer => {
                let update = finish::process(&staged, args)?;
                self.apply(update, ix);
                self.close_buffer();
            }
            Instruction::CloseKeyBuffer => {
                let accounts = vec![self.signer(true), self.signer(false), self.buffer.clone()];
                close_key_buffer::process(&accounts, args)?;
                self.close_buffer();
            }
        }
        Ok(ix)
    }
}

fn put_text(buf: &mut Vec<u8>, s: &str) {
    put_str(buf, s.as_bytes());
}

fn create_buffer_data(fragment: &str) -> Vec<u8> {
    let mut data = [138u8, 70, 101, 189, 154, 98, 203, 23].to_vec();
    put_text(&mut data, fragment);
    data.push(3);
    data.extend_from_slice(&(1u16 << 1).to_le_bytes());
    data.extend_from_slice(&2592u32.to_le_bytes());
    data
}

fn write_buffer_data(offset: usize, chunk: &[u8]) -> Vec<u8> {
    let mut data = [61u8, 88, 82, 10, 227, 249, 18, 117].to_vec();
    data.extend_from_slice(&(offset as u32).to_le_bytes());
    data.extend_from_slice(&(chunk.len() as u32).to_le_bytes());
    data.extend_from_slice(chunk);
    data
}

/// The whole lifecycle, key buffers included, through the router: every
/// instruction reaches its handler and succeeds. (The compute units it
/// costs are the runtime's to measure.)
#[test]
fn lifecycle_compute_unit_report() {
    const CHUNK: usize = 900;
    let rotation = key(12);
    let lab = key(13);
    let lab2 = key(14);
    let mut w = World::new();

    let mut steps: Vec<(Vec<u8>, Instruction)> = Vec::new();
    let mut init = [175u8, 175, 109, 31, 13, 152, 155, 237].to_vec();
    init.extend_from_slice(&w.subject);
    steps.push((init, Instruction::Initialize));

    let mut add = [213u8, 200, 190, 61, 28, 104, 245, 25].to_vec();
    put_text(&mut add, "rotation-1");
    add.push(0);
    add.extend_from_slice(&(1u16 | 1 << 3).to_le_bytes());
    add.extend_from_slice(&32u32.to_le_bytes());
    add.extend_from_slice(&rotation);
    steps.push((add, Instruction::AddVerificationMethod));

    steps.push((create_buffer_data("pq-1"), Instruction::CreateKeyBuffer));
    steps.push((write_buffer_data(0, &[7u8; CHUNK]), Instruction::WriteKeyBuffer));
    steps.push((write_buffer_data(CHUNK, &[7u8; CHUNK]), Instruction::WriteKeyBuffer));
    steps.push((
        write_buffer_data(2 * CHUNK, &[7u8; 2592 - 2 * CHUNK]),
        Instruction::WriteKeyBuffer,
    ));
    steps.push((
        [111u8, 184, 129, 9, 216, 207, 122, 90].to_vec(),
        Instruction::AddVerificationMethodFromBuffer,
    ));

    let mut flags = [16u8, 188, 26, 223, 241, 131, 192, 223].to_vec();
    put_text(&mut flags, "rotation-1");
    flags.extend_from_slice(&(1u16 | 1 << 1 | 1 << 3).to_le_bytes());
    steps.push((flags, Instruction::SetVerificationMethodFlags));

    let mut service = [133u8, 207, 106, 32, 91, 111, 153, 30].to_vec();
    put_text(&mut service, "metadata");
    put_text(&mut service, "BioMetadata");
    put_text(
        &mut service,
        "ipfs://bafybeigdyrzt5sfp7udm7hu76uh7y26nf3efuylqabf3oclgtqy55fbzdi",
    );
    steps.push((service, Instruction::AddService));

    let mut controllers = [65u8, 40, 24, 8, 30, 81, 20, 179].to_vec();
    controllers.extend_from_slice(&2u32.to_le_bytes());
    controllers.extend_from_slice(&lab);
    controllers.extend_from_slice(&lab2);
    controllers.extend_from_slice(&2u32.to_le_bytes());
    put_text(&mut controllers, "did:web:lab.example.org");
    put_text(
        &mut controllers,
        "did:key:z6MkhaXgBZDvotDkL5257faiztiGiC2QtKLGpbnnEGta2doK",
    );
    steps.push((controllers, Instruction::SetControllers));

    let mut remove_service = [19u8, 102, 8, 231, 40, 141, 9, 110].to_vec();
    put_text(&mut remove_service, "metadata");
    steps.push((remove_service, Instruction::RemoveService));

    let mut remove_vm = [33u8, 238, 66, 183, 62, 210, 133, 150].to_vec();
    put_text(&mut remove_vm, "pq-1");
    steps.push((remove_vm, Instruction::RemoveVerificationMethod));

    steps.push((create_buffer_data("pq-2"), Instruction::CreateKeyBuffer));
    steps.push((
        [6u8, 209, 103, 32, 78, 18, 70, 184].to_vec(),
        Instruction::CloseKeyBuffer,
    ));
    steps.push((
        [44u8, 112, 33, 172, 113, 28, 142, 13].to_vec(),
        Instruction::Deactivate,
    ));

    for (data, ix) in steps {
        assert_eq!(w.send(data), Ok(ix));
    }
    // Initialize, then eight edits, each bumping the version once.
    assert_eq!(version(&w.did.data), 9);
    assert_eq!(&w.last_event[0..8], &DID_DEACTIVATED[..]);
    assert_eq!(&w.last_event[8..40], &w.did.address[..]);
    assert_eq!(&w.last_event[40..72], &w.subject[..]);
    assert_eq!(&w.last_event[72..80], &9u64.to_le_bytes()[..]);
    assert!(w.buffer.data.is_empty());
}
