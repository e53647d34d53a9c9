//! Domain errors, surfaced as custom program error codes starting at 6000,
//! and the program-level failures the registry reports besides them.
//! The numbering is part of the frozen wire format that clients rely on.

use vstd::prelude::*;

verus! {

/// Domain errors of the registry.
#[derive(Clone, Copy, Debug, PartialEq, Eq, Structural)]
pub enum DidError {
    /// Signer is not an authority for this DID
    Unauthorized,
    /// This DID has been permanently deactivated
    DidDeactivated,
    /// Fragment is empty, too long, or contains invalid characters
    InvalidFragment,
    /// A verification method or service with this fragment already exists
    FragmentAlreadyInUse,
    /// No verification method with this fragment exists
    VerificationMethodNotFound,
    /// No service with this fragment exists
    ServiceNotFound,
    /// Verification method limit reached
    TooManyVerificationMethods,
    /// Service limit reached
    TooManyServices,
    /// Controller limit reached
    TooManyControllers,
    /// Key material length does not match the verification method type
    InvalidKeyLength,
    /// Unknown flag bits, or flags not permitted for this key type
    InvalidFlags,
    /// Protected verification methods require their own key as authority
    ProtectedVerificationMethod,
    /// Operation would remove the last capable update authority
    LastAuthority,
    /// Controller entry is invalid or duplicated
    InvalidController,
    /// Service type or endpoint is empty, too long, or not printable ASCII
    InvalidServiceValue,
    /// Key chunk is empty, out of order, or past the key's end
    InvalidKeyChunk,
    /// Key buffer does not hold the whole key yet
    KeyBufferIncomplete,
    /// Key buffer is bound to another authority or DID
    KeyBufferMismatch,
}

/// The custom program error code of each domain error.
pub open spec fn did_error_code(e: DidError) -> u32 {
    match e {
        DidError::Unauthorized => 6000,
        DidError::DidDeactivated => 6001,
        DidError::InvalidFragment => 6002,
        DidError::FragmentAlreadyInUse => 6003,
        DidError::VerificationMethodNotFound => 6004,
        DidError::ServiceNotFound => 6005,
        DidError::TooManyVerificationMethods => 6006,
        DidError::TooManyServices => 6007,
        DidError::TooManyControllers => 6008,
        DidError::InvalidKeyLength => 6009,
        DidError::InvalidFlags => 6010,
        DidError::ProtectedVerificationMethod => 6011,
        DidError::LastAuthority => 6012,
        DidError::InvalidController => 6013,
        DidError::InvalidServiceValue => 6014,
        DidError::InvalidKeyChunk => 6015,
        DidError::KeyBufferIncomplete => 6016,
        DidError::KeyBufferMismatch => 6017,
    }
}

impl DidError {
    /// The custom program error code carried by this error on the wire.
    pub fn code(self) -> (c: u32)
        ensures
            c == did_error_code(self),
    {
        match self {
            DidError::Unauthorized => 6000,
            DidError::DidDeactivated => 6001,
            DidError::InvalidFragment => 6002,
            DidError::FragmentAlreadyInUse => 6003,
            DidError::VerificationMethodNotFound => 6004,
            DidError::ServiceNotFound => 6005,
            DidError::TooManyVerificationMethods => 6006,
            DidError::TooManyServices => 6007,
            DidError::TooManyControllers => 6008,
            DidError::InvalidKeyLength => 6009,
            DidError::InvalidFlags => 6010,
            DidError::ProtectedVerificationMethod => 6011,
            DidError::LastAuthority => 6012,
            DidError::InvalidController => 6013,
            DidError::InvalidServiceValue => 6014,
            DidError::InvalidKeyChunk => 6015,
            DidError::KeyBufferIncomplete => 6016,
            DidError::KeyBufferMismatch => 6017,
        }
    }
}

/// Distinct domain errors carry distinct codes.
pub proof fn lemma_did_error_codes_distinct(a: DidError, b: DidError)
    ensures
        did_error_code(a) == did_error_code(b) <==> a == b,
        6000 <= did_error_code(a) <= 6017,
{
}

/// Why an instruction failed: a domain error, or one of the runtime's
/// generic program errors that the registry reports.
#[derive(Clone, Copy, Debug, PartialEq, Eq, Structural)]
pub enum RegistryError {
    /// A domain error, reported as its custom code
    Domain(DidError),
    InvalidArgument,
    InvalidInstructionData,
    InvalidAccountData,
    AccountDataTooSmall,
    MissingRequiredSignature,
    AccountAlreadyInitialized,
    NotEnoughAccountKeys,
    InvalidSeeds,
    IncorrectProgramId,
    InvalidAccountOwner,
    ArithmeticOverflow,
    Immutable,
}

/// Early return a domain error unless `cond` holds.
pub fn require(cond: bool, err: DidError) -> (r: Result<(), RegistryError>)
    ensures
        r == (if cond { Ok(()) } else { Err(RegistryError::Domain(err)) }),
{
    if cond {
        Ok(())
    } else {
        Err(RegistryError::Domain(err))
    }
}

} // verus!
