//! Lifecycle tests for the did:bio registry: each instruction is encoded
//! by hand from the wire format, run through the library's decisions, and
//! applied the way the program applies them (rent settlement, `touch`).
//! Accounts are decoded by an independent parser defined in this file, so
//! these tests pin the on-chain format itself.

use bio_did_registry::accounts::Account;
use bio_did_registry::error::{DidError, RegistryError};
use bio_did_registry::events::{event_data, DID_DEACTIVATED, DID_INITIALIZED, DID_MODIFIED};
use bio_did_registry::instructions::shared::Update;
use bio_did_registry::instructions::{
    add_service, add_verification_method, deactivate, initialize, remove_service,
    remove_verification_method, set_controllers, set_verification_method_flags,
};
use bio_did_registry::rent::{rent_from_classic, settlement, RentQuote, Settlement};
use bio_did_registry::state::touch;

const PROGRAM_ID: &str = "H1gnV4GjNT3UV7AgGNUCkSaciuVVtM7hKb8JhPV3Xxy6";
const AIRDROP: u64 = 10_000_000_000;

/// sha256("account:DidAccount")[..8].
const ACCOUNT_DISCRIMINATOR: [u8; 8] = [77, 88, 239, 141, 251, 29, 237, 243];

const VM_FLAG_AUTHENTICATION: u16 = 1 << 0;
const VM_FLAG_ASSERTION: u16 = 1 << 1;
const VM_FLAG_KEY_AGREEMENT: u16 = 1 << 2;
const VM_FLAG_CAPABILITY_INVOCATION: u16 = 1 << 3;
const VM_FLAG_PROTECTED: u16 = 1 << 8;
const VM_FLAGS_DEFAULT: u16 = 0b1_1111 | VM_FLAG_PROTECTED;

const VM_TYPE_ED25519: u8 = 0;
const VM_TYPE_X25519: u8 = 1;
const VM_TYPE_DILITHIUM5: u8 = 3;

const INITIAL_SPACE: usize = 124;
const TOMBSTONE_SPACE: usize = 74;

fn program_id() -> [u8; 32] {
    five8_const::decode_32_const(PROGRAM_ID)
}

fn system_program() -> [u8; 32] {
    [0u8; 32]
}

/// A distinct Ed25519 public key (a point of the curve) for each `seed`.
fn key(seed: u8) -> [u8; 32] {
    let mut candidate = [seed; 32];
    for i in 0..=255u8 {
        candidate[0] = i;
        if solana_address::bytes_are_curve_point(candidate) {
            return candidate;
        }
    }
    panic!("no curve point for seed {seed}");
}

fn did_pda(subject: &[u8; 32]) -> ([u8; 32], u8) {
    let (a, b) = solana_address::Address::find_program_address(
        &[b"bio-did", subject.as_ref()],
        &solana_address::Address::new_from_array(program_id()),
    );
    (a.to_bytes(), b)
}

/// The classic rent sysvar of current clusters: 3480 lamports per byte-year,
/// exemption threshold 2.0, burn 50%.
fn rent_sysvar() -> [u8; 17] {
    let mut s = [0u8; 17];
    s[0..8].copy_from_slice(&3480u64.to_le_bytes());
    s[8..16].copy_from_slice(&2.0f64.to_le_bytes());
    s[16] = 50;
    s
}

fn rent_minimum(len: usize) -> u64 {
    match rent_from_classic(&rent_sysvar(), len).unwrap() {
        RentQuote::Exact(m) => m,
        other => panic!("unexpected quote {other:?}"),
    }
}

fn signer(address: [u8; 32]) -> Account {
    Account {
        address,
        owner: system_program(),
        lamports: 0,
        is_signer: true,
        is_writable: false,
        data: Vec::new(),
    }
}

/// One subject's DID on a ledger: the payer's balance and the DID account.
struct World {
    payer_lamports: u64,
    did: Account,
    now: i64,
}

impl World {
    fn new(subject: &[u8; 32]) -> World {
        World {
            payer_lamports: AIRDROP,
            did: Account {
                address: did_pda(subject).0,
                owner: system_program(),
                lamports: 0,
                is_signer: false,
                is_writable: true,
                data: Vec::new(),
            },
            now: 1_700_000_000,
        }
    }

    fn payer(&self, address: [u8; 32]) -> Account {
        Account {
            address,
            owner: system_program(),
            lamports: self.payer_lamports,
            is_signer: true,
            is_writable: true,
            data: Vec::new(),
        }
    }

    fn system(&self) -> Account {
        Account {
            address: system_program(),
            owner: system_program(),
            lamports: 1,
            is_signer: false,
            is_writable: false,
            data: Vec::new(),
        }
    }

    /// `initialize` paid by `payer`; on success the account is created at
    /// the rent minimum and holds the initial document. Returns the event.
    fn initialize(&mut self, payer: [u8; 32], subject: &[u8; 32]) -> Result<Vec<u8>, RegistryError> {
        self.now += 1;
        let accounts = vec![self.payer(payer), self.did.clone(), self.system()];
        let creation = initialize::process(&accounts, subject)?;
        let rent = rent_minimum(INITIAL_SPACE);
        self.payer_lamports -= rent;
        self.did.lamports = rent;
        self.did.owner = program_id();
        self.did.data = initialize::initial_account_data(&creation, self.now);
        Ok(event_data(&DID_INITIALIZED, &self.did.address, &creation.subject, 1))
    }

    /// Applies an edit the way the program does: settle the rent for the
    /// new size, store the new content, and stamp it with `touch`.
    fn apply(&mut self, update: Update, event: &[u8; 8]) -> Vec<u8> {
        let minimum = rent_minimum(update.data.len());
        match settlement(minimum, self.did.lamports, self.payer_lamports).unwrap() {
            Settlement::Settled => {}
            Settlement::Fund(x) => {
                self.payer_lamports -= x;
                self.did.lamports += x;
            }
            Settlement::Refund {
                account_lamports,
                payer_lamports,
            } => {
                self.did.lamports = account_lamports;
                self.payer_lamports = payer_lamports;
            }
        }
        let mut data = update.data;
        touch(&mut data, self.now);
        self.did.data = data;
        let version = u64::from_le_bytes(self.did.data[8..16].try_into().unwrap());
        event_data(event, &self.did.address, &update.subject, version)
    }

    fn mutate_accounts(&self, payer: [u8; 32], authority: [u8; 32]) -> Vec<Account> {
        vec![self.payer(payer), signer(authority), self.did.clone(), self.system()]
    }

    fn send(
        &mut self,
        ix: fn(&[Account], &[u8]) -> Result<Update, RegistryError>,
        authority: [u8; 32],
        args: &[u8],
        event: &[u8; 8],
    ) -> Result<Vec<u8>, RegistryError> {
        self.now += 1;
        let accounts = self.mutate_accounts(authority, authority);
        let update = ix(&accounts, args)?;
        Ok(self.apply(update, event))
    }

    fn add_vm(
        &mut self,
        authority: [u8; 32],
        fragment: &str,
        method_type: u8,
        flags: u16,
        key_data: &[u8],
    ) -> Result<Vec<u8>, RegistryError> {
        let mut args = Vec::new();
        put_str(&mut args, fragment);
        args.push(method_type);
        args.extend_from_slice(&flags.to_le_bytes());
        put_bytes(&mut args, key_data);
        self.send(add_verification_method::process, authority, &args, &DID_MODIFIED)
    }

    fn remove_vm(&mut self, authority: [u8; 32], fragment: &str) -> Result<Vec<u8>, RegistryError> {
        let mut args = Vec::new();
        put_str(&mut args, fragment);
        self.send(remove_verification_method::process, authority, &args, &DID_MODIFIED)
    }

    fn set_flags(
        &mut self,
        authority: [u8; 32],
        fragment: &str,
        flags: u16,
    ) -> Result<Vec<u8>, RegistryError> {
        self.now += 1;
        let mut args = Vec::new();
        put_str(&mut args, fragment);
        args.extend_from_slice(&flags.to_le_bytes());
        let accounts = vec![signer(authority), self.did.clone()];
        let update = set_verification_method_flags::process(&accounts, &args)?;
        Ok(self.apply(update, &DID_MODIFIED))
    }

    fn add_service(
        &mut self,
        authority: [u8; 32],
        fragment: &str,
        service_type: &str,
        endpoint: &str,
    ) -> Result<Vec<u8>, RegistryError> {
        let mut args = Vec::new();
        put_str(&mut args, fragment);
        put_str(&mut args, service_type);
        put_str(&mut args, endpoint);
        self.send(add_service::process, authority, &args, &DID_MODIFIED)
    }

    fn remove_service(&mut self, authority: [u8; 32], fragment: &str) -> Result<Vec<u8>, RegistryError> {
        let mut args = Vec::new();
        put_str(&mut args, fragment);
        self.send(remove_service::process, authority, &args, &DID_MODIFIED)
    }

    fn set_controllers(
        &mut self,
        authority: [u8; 32],
        native: &[[u8; 32]],
        other: &[&str],
    ) -> Result<Vec<u8>, RegistryError> {
        let mut args = Vec::new();
        args.extend_from_slice(&(native.len() as u32).to_le_bytes());
        for k in native {
            args.extend_from_slice(k);
        }
        args.extend_from_slice(&(other.len() as u32).to_le_bytes());
        for s in other {
            put_str(&mut args, s);
        }
        self.send(set_controllers::process, authority, &args, &DID_MODIFIED)
    }

    fn deactivate(&mut self, authority: [u8; 32]) -> Result<Vec<u8>, RegistryError> {
        self.send(deactivate::process, authority, &[], &DID_DEACTIVATED)
    }
}

fn put_str(buf: &mut Vec<u8>, s: &str) {
    buf.extend_from_slice(&(s.len() as u32).to_le_bytes());
    buf.extend_from_slice(s.as_bytes());
}

fn put_bytes(buf: &mut Vec<u8>, b: &[u8]) {
    buf.extend_from_slice(&(b.len() as u32).to_le_bytes());
    buf.extend_from_slice(b);
}

fn assert_custom_err(res: Result<Vec<u8>, RegistryError>, code: u32, what: &str) {
    match res {
        Err(RegistryError::Domain(e)) => {
            assert_eq!(e.code(), code, "expected {what} ({code}), got {e:?}")
        }
        other => panic!("expected {what} ({code}), got {other:?}"),
    }
}

// ---------------------------------------------------------------------------
// Independent account decoder (wire format per the did:bio method spec)
// ---------------------------------------------------------------------------

#[derive(Debug, Clone, PartialEq)]
struct Vm {
    fragment: String,
    method_type: u8,
    flags: u16,
    key_data: Vec<u8>,
}

#[derive(Debug, Clone, PartialEq)]
struct Svc {
    fragment: String,
    service_type: String,
    endpoint: String,
}

#[derive(Debug, Clone, PartialEq)]
struct Did {
    version: u64,
    bump: u8,
    subject: [u8; 32],
    deactivated: bool,
    updated_at: i64,
    native_controllers: Vec<[u8; 32]>,
    other_controllers: Vec<String>,
    verification_methods: Vec<Vm>,
    services: Vec<Svc>,
}

struct Cursor<'a> {
    data: &'a [u8],
    off: usize,
}

impl<'a> Cursor<'a> {
    fn bytes(&mut self, n: usize) -> &'a [u8] {
        let out = &self.data[self.off..self.off + n];
        self.off += n;
        out
    }
    fn u32(&mut self) -> u32 {
        u32::from_le_bytes(self.bytes(4).try_into().unwrap())
    }
    fn string(&mut self) -> String {
        let len = self.u32() as usize;
        String::from_utf8(self.bytes(len).to_vec()).unwrap()
    }
}

/// Parse a DidAccount, asserting the discriminator and that the buffer is
/// consumed exactly (no trailing bytes: the account is always exact-size).
fn parse_did(data: &[u8]) -> Did {
    assert_eq!(data[0..8], ACCOUNT_DISCRIMINATOR, "account discriminator");
    let mut c = Cursor { data, off: 8 };
    let version = u64::from_le_bytes(c.bytes(8).try_into().unwrap());
    let bump = c.bytes(1)[0];
    let subject: [u8; 32] = c.bytes(32).try_into().unwrap();
    let deactivated = match c.bytes(1)[0] {
        0 => false,
        1 => true,
        b => panic!("invalid bool byte {b}"),
    };
    let updated_at = i64::from_le_bytes(c.bytes(8).try_into().unwrap());
    let native_controllers = (0..c.u32())
        .map(|_| c.bytes(32).try_into().unwrap())
        .collect();
    let other_controllers = (0..c.u32()).map(|_| c.string()).collect();
    let verification_methods = (0..c.u32())
        .map(|_| {
            let fragment = c.string();
            let method_type = c.bytes(1)[0];
            let flags = u16::from_le_bytes(c.bytes(2).try_into().unwrap());
            let key_len = c.u32() as usize;
            let key_data = c.bytes(key_len).to_vec();
            Vm {
                fragment,
                method_type,
                flags,
                key_data,
            }
        })
        .collect();
    let services = (0..c.u32())
        .map(|_| Svc {
            fragment: c.string(),
            service_type: c.string(),
            endpoint: c.string(),
        })
        .collect();
    assert_eq!(c.off, data.len(), "account must be exact-size");
    Did {
        version,
        bump,
        subject,
        deactivated,
        updated_at,
        native_controllers,
        other_controllers,
        verification_methods,
        services,
    }
}

fn decode(w: &World) -> Did {
    assert_eq!(w.did.owner, program_id(), "account owner");
    parse_did(&w.did.data)
}

// ---------------------------------------------------------------------------
// Tests
// ---------------------------------------------------------------------------

#[test]
fn test_initialize_creates_generative_default() {
    let subject = key(1);
    let mut w = World::new(&subject);
    w.initialize(subject, &subject).unwrap();

    let did = decode(&w);
    assert_eq!(did.version, 1);
    assert_eq!(did.subject, subject);
    assert!(!did.deactivated);
    assert_eq!(did.verification_methods.len(), 1);
    let vm = &did.verification_methods[0];
    assert_eq!(vm.fragment, "default");
    assert_eq!(vm.method_type, VM_TYPE_ED25519);
    assert_eq!(vm.flags, VM_FLAGS_DEFAULT);
    assert_eq!(vm.key_data, subject.to_vec());
    assert!(did.services.is_empty());
    assert!(did.native_controllers.is_empty());

    // Exact-size account, byte-for-byte the documented generative layout.
    let data = w.did.data.clone();
    assert_eq!(data.len(), INITIAL_SPACE);
    let bump = did_pda(&subject).1;
    let mut expected = Vec::with_capacity(INITIAL_SPACE);
    expected.extend_from_slice(&ACCOUNT_DISCRIMINATOR);
    expected.extend_from_slice(&1u64.to_le_bytes()); // version
    expected.push(bump);
    expected.extend_from_slice(&subject); // subject
    expected.push(0); // deactivated
    expected.extend_from_slice(&data[50..58]); // updated_at (clock-dependent)
    expected.extend_from_slice(&0u32.to_le_bytes()); // native_controllers
    expected.extend_from_slice(&0u32.to_le_bytes()); // other_controllers
    expected.extend_from_slice(&1u32.to_le_bytes()); // verification_methods
    expected.extend_from_slice(&7u32.to_le_bytes());
    expected.extend_from_slice(b"default");
    expected.push(VM_TYPE_ED25519);
    expected.extend_from_slice(&VM_FLAGS_DEFAULT.to_le_bytes());
    expected.extend_from_slice(&32u32.to_le_bytes());
    expected.extend_from_slice(&subject);
    expected.extend_from_slice(&0u32.to_le_bytes()); // services
    assert_eq!(data, expected, "generative account bytes must match the spec layout");

    // Double-initialize must fail (account exists).
    assert!(w.initialize(subject, &subject).is_err());
}

#[test]
fn test_sponsored_initialize_grants_no_control_to_payer() {
    let sponsor = key(2);
    let subject = key(3);
    let mut w = World::new(&subject);

    // Sponsor pays; subject never signs.
    w.initialize(sponsor, &subject).unwrap();
    let did = decode(&w);
    assert_eq!(did.subject, subject);

    // Sponsor cannot mutate: not an authority.
    let intruder_key = key(4);
    let res = w.add_vm(
        sponsor,
        "intruder",
        VM_TYPE_ED25519,
        VM_FLAG_AUTHENTICATION,
        &intruder_key,
    );
    assert_custom_err(res, 6000, "Unauthorized");
}

#[test]
fn test_add_verification_method_and_validation() {
    let s = key(5);
    let mut w = World::new(&s);
    w.initialize(s, &s).unwrap();

    // Happy path: rotation key with authentication + capabilityInvocation.
    let rotation = key(6);
    w.add_vm(
        s,
        "rotation-1",
        VM_TYPE_ED25519,
        VM_FLAG_AUTHENTICATION | VM_FLAG_CAPABILITY_INVOCATION,
        &rotation,
    )
    .unwrap();
    let did = decode(&w);
    assert_eq!(did.version, 2);
    assert_eq!(did.verification_methods.len(), 2);
    assert_eq!(did.verification_methods[1].fragment, "rotation-1");

    // Duplicate fragment.
    let res = w.add_vm(s, "rotation-1", VM_TYPE_ED25519, VM_FLAG_AUTHENTICATION, &key(7));
    assert_custom_err(res, 6003, "FragmentAlreadyInUse");

    // Wrong key length for type.
    let res = w.add_vm(s, "short", VM_TYPE_ED25519, VM_FLAG_AUTHENTICATION, &[7u8; 16]);
    assert_custom_err(res, 6009, "InvalidKeyLength");

    // X25519 cannot authenticate.
    let res = w.add_vm(s, "xkey", VM_TYPE_X25519, VM_FLAG_AUTHENTICATION, &[7u8; 32]);
    assert_custom_err(res, 6010, "InvalidFlags");

    // capabilityInvocation restricted to Ed25519.
    let res = w.add_vm(
        s,
        "pq",
        VM_TYPE_DILITHIUM5,
        VM_FLAG_CAPABILITY_INVOCATION,
        &[7u8; 2592],
    );
    assert_custom_err(res, 6010, "InvalidFlags");

    // Valid post-quantum assertion method.
    w.add_vm(s, "pq", VM_TYPE_DILITHIUM5, VM_FLAG_ASSERTION, &[7u8; 2592])
        .unwrap();
    let did = decode(&w);
    assert_eq!(did.verification_methods.len(), 3);
    assert_eq!(did.verification_methods[2].key_data.len(), 2592);
    assert_eq!(
        w.did.data.len(),
        INITIAL_SPACE + 4 + 10 + 1 + 2 + 4 + 32 + 4 + 2 + 1 + 2 + 4 + 2592
    );

    // Bad fragment charset.
    let res = w.add_vm(s, "no spaces!", VM_TYPE_ED25519, VM_FLAG_AUTHENTICATION, &key(8));
    assert_custom_err(res, 6002, "InvalidFragment");
}

#[test]
fn test_key_rotation_and_protection() {
    let s = key(9);
    let r = key(10);
    let mut w = World::new(&s);
    w.initialize(s, &s).unwrap();

    w.add_vm(
        s,
        "rotation-1",
        VM_TYPE_ED25519,
        VM_FLAG_AUTHENTICATION | VM_FLAG_CAPABILITY_INVOCATION,
        &r,
    )
    .unwrap();

    // The new authority may NOT remove the protected #default method...
    let res = w.remove_vm(r, "default");
    assert_custom_err(res, 6011, "ProtectedVerificationMethod");

    // ...but the subject itself may (another authority remains): true rotation.
    w.remove_vm(s, "default").unwrap();
    let did = decode(&w);
    assert_eq!(did.verification_methods.len(), 1);
    assert_eq!(did.verification_methods[0].fragment, "rotation-1");

    // The rotated-out subject key no longer has authority.
    let res = w.add_vm(s, "come-back", VM_TYPE_ED25519, VM_FLAG_AUTHENTICATION, &s);
    assert_custom_err(res, 6000, "Unauthorized");

    // Removing the final authority is impossible.
    let res = w.remove_vm(r, "rotation-1");
    assert_custom_err(res, 6012, "LastAuthority");
}

#[test]
fn test_set_flags_rules() {
    let s = key(11);
    let mut w = World::new(&s);
    w.initialize(s, &s).unwrap();

    // Stripping capabilityInvocation from the sole authority must fail.
    let res = w.set_flags(s, "default", VM_FLAG_AUTHENTICATION | VM_FLAG_PROTECTED);
    assert_custom_err(res, 6012, "LastAuthority");

    // Unknown flag bits rejected.
    let res = w.set_flags(s, "default", VM_FLAGS_DEFAULT | (1 << 12));
    assert_custom_err(res, 6010, "InvalidFlags");

    // Subject (own key) may adjust its own protected method's relationships.
    w.set_flags(
        s,
        "default",
        VM_FLAG_AUTHENTICATION | VM_FLAG_ASSERTION | VM_FLAG_CAPABILITY_INVOCATION | VM_FLAG_PROTECTED,
    )
    .unwrap();
    let did = decode(&w);
    assert_eq!(did.verification_methods[0].flags & VM_FLAG_KEY_AGREEMENT, 0);
    assert_eq!(did.version, 2);
}

#[test]
fn test_services_and_controllers() {
    let s = key(12);
    let mut w = World::new(&s);
    w.initialize(s, &s).unwrap();

    w.add_service(
        s,
        "metadata",
        "BioMetadata",
        "ipfs://bafybeigdyrzt5sfp7udm7hu76uh7y26nf3efuylqabf3oclgtqy55fbzdi",
    )
    .unwrap();
    let did = decode(&w);
    assert_eq!(did.services.len(), 1);
    assert_eq!(did.services[0].service_type, "BioMetadata");

    // Fragment collision with a verification method fragment is rejected too.
    let res = w.add_service(s, "default", "IPFSStorage", "https://ipfs.example.org/api");
    assert_custom_err(res, 6003, "FragmentAlreadyInUse");

    // Endpoint with whitespace rejected.
    let res = w.add_service(s, "bad", "BioMetadata", "not a uri");
    assert_custom_err(res, 6014, "InvalidServiceValue");

    // Controllers.
    let lab = key(13);
    w.set_controllers(s, &[lab], &["did:web:lab.example.org"]).unwrap();
    let did = decode(&w);
    assert_eq!(did.native_controllers, vec![lab]);
    assert_eq!(did.other_controllers, vec!["did:web:lab.example.org".to_string()]);

    // Self-reference and did:bio-in-other are rejected.
    let res = w.set_controllers(s, &[s], &[]);
    assert_custom_err(res, 6013, "InvalidController (self)");
    let res = w.set_controllers(
        s,
        &[],
        &["did:bio:5FHneW46xGXgs5mUiveU4sbTyGBzmstUspZC92UhjJM694ty"],
    );
    assert_custom_err(res, 6013, "InvalidController (did:bio in other)");

    // Remove service refunds rent and shrinks the account.
    let before_len = w.did.data.len();
    let before_lamports = w.did.lamports;
    w.remove_service(s, "metadata").unwrap();
    assert!(w.did.data.len() < before_len);
    assert!(w.did.lamports < before_lamports, "shrink should refund rent");
    let did = decode(&w);
    assert!(did.services.is_empty());
}

#[test]
fn test_controllers_replacement_grows_and_shrinks() {
    let s = key(14);
    let mut w = World::new(&s);
    w.initialize(s, &s).unwrap();

    // Max out both controller sets.
    let natives: Vec<[u8; 32]> = (0..8).map(|i| key(100 + i)).collect();
    let other_strings: Vec<String> = (0..8).map(|i| format!("did:web:lab{i}.example.org")).collect();
    let others: Vec<&str> = other_strings.iter().map(|s| s.as_str()).collect();
    w.set_controllers(s, &natives, &others).unwrap();
    let did = decode(&w);
    assert_eq!(did.native_controllers.len(), 8);
    assert_eq!(did.other_controllers.len(), 8);
    let large = w.did.data.len();

    // Ninth entries are rejected.
    let nine_native: Vec<[u8; 32]> = (0..9).map(|i| key(120 + i)).collect();
    let res = w.set_controllers(s, &nine_native, &[]);
    assert_custom_err(res, 6008, "TooManyControllers");

    // Shrink back to empty; version keeps marching, size returns to initial.
    w.set_controllers(s, &[], &[]).unwrap();
    let did = decode(&w);
    assert!(did.native_controllers.is_empty() && did.other_controllers.is_empty());
    assert_eq!(w.did.data.len(), INITIAL_SPACE);
    assert!(w.did.data.len() < large);
    assert_eq!(did.version, 3);
}

#[test]
fn test_deactivate_is_permanent_tombstone() {
    let s = key(15);
    let mut w = World::new(&s);
    w.initialize(s, &s).unwrap();

    // Add some content first so the tombstone actually shrinks.
    w.add_vm(s, "extra", VM_TYPE_ED25519, VM_FLAG_AUTHENTICATION, &key(16))
        .unwrap();

    let balance_before = w.payer_lamports;
    w.deactivate(s).unwrap();

    assert_eq!(w.did.data.len(), TOMBSTONE_SPACE);
    let did = decode(&w);
    assert!(did.deactivated);
    assert!(did.verification_methods.is_empty());
    assert!(did.services.is_empty());
    // Rent refund exceeded the transaction fee.
    assert!(w.payer_lamports > balance_before - 5000);

    // Every further mutation is rejected forever.
    let res = w.add_vm(s, "revive", VM_TYPE_ED25519, VM_FLAG_AUTHENTICATION, &s);
    assert_custom_err(res, 6001, "DidDeactivated");
    let res = w.deactivate(s);
    assert_custom_err(res, 6001, "DidDeactivated");
}

#[test]
fn test_events_wire_format() {
    let subject = key(17);
    let mut w = World::new(&subject);
    let pda = did_pda(&subject).0;

    let assert_event = |bytes: &[u8], disc: [u8; 8], version: u64| {
        assert_eq!(bytes.len(), 80, "event = 8-byte discriminator + 32 + 32 + 8");
        assert_eq!(bytes[0..8], disc, "event discriminator");
        assert_eq!(bytes[8..40], pda, "event.did_account");
        assert_eq!(bytes[40..72], subject, "event.subject");
        assert_eq!(bytes[72..80], version.to_le_bytes(), "event.version");
    };

    let event = w.initialize(subject, &subject).unwrap();
    assert_event(&event, [125, 40, 26, 220, 241, 180, 151, 84], 1); // DidInitialized

    let s = subject;
    let event = w
        .add_service(
            s,
            "metadata",
            "BioMetadata",
            "ipfs://bafybeigdyrzt5sfp7udm7hu76uh7y26nf3efuylqabf3oclgtqy55fbzdi",
        )
        .unwrap();
    assert_event(&event, [127, 241, 158, 225, 33, 224, 88, 208], 2); // DidModified

    let event = w.deactivate(s).unwrap();
    assert_event(&event, [6, 124, 31, 30, 191, 92, 197, 57], 3); // DidDeactivated
}

#[test]
fn test_error_codes_are_frozen() {
    let codes = [
        (DidError::Unauthorized, 6000),
        (DidError::DidDeactivated, 6001),
        (DidError::InvalidFragment, 6002),
        (DidError::FragmentAlreadyInUse, 6003),
        (DidError::VerificationMethodNotFound, 6004),
        (DidError::ServiceNotFound, 6005),
        (DidError::TooManyVerificationMethods, 6006),
        (DidError::TooManyServices, 6007),
        (DidError::TooManyControllers, 6008),
        (DidError::InvalidKeyLength, 6009),
        (DidError::InvalidFlags, 6010),
        (DidError::ProtectedVerificationMethod, 6011),
        (DidError::LastAuthority, 6012),
        (DidError::InvalidController, 6013),
        (DidError::InvalidServiceValue, 6014),
        (DidError::InvalidKeyChunk, 6015),
        (DidError::KeyBufferIncomplete, 6016),
        (DidError::KeyBufferMismatch, 6017),
    ];
    for (e, code) in codes {
        assert_eq!(e.code(), code);
    }
}
