//! Instruction discriminators, sha256("global:<name>")[..8], and the
//! routing of instruction data to the instruction it names.

use vstd::prelude::*;

use crate::address::{registry_id, registry_program_id};
use crate::error::RegistryError;
use crate::state::bytes_eq;

verus! {

pub const INITIALIZE: [u8; 8] = [175, 175, 109, 31, 13, 152, 155, 237];

pub const INITIALIZE_OWNED: [u8; 8] = [51, 133, 240, 229, 41, 137, 108, 91];

pub const ADD_VERIFICATION_METHOD: [u8; 8] = [213, 200, 190, 61, 28, 104, 245, 25];

pub const REMOVE_VERIFICATION_METHOD: [u8; 8] = [33, 238, 66, 183, 62, 210, 133, 150];

pub const SET_VERIFICATION_METHOD_FLAGS: [u8; 8] = [16, 188, 26, 223, 241, 131, 192, 223];

pub const ADD_SERVICE: [u8; 8] = [133, 207, 106, 32, 91, 111, 153, 30];

pub const REMOVE_SERVICE: [u8; 8] = [19, 102, 8, 231, 40, 141, 9, 110];

pub const SET_CONTROLLERS: [u8; 8] = [65, 40, 24, 8, 30, 81, 20, 179];

pub const DEACTIVATE: [u8; 8] = [44, 112, 33, 172, 113, 28, 142, 13];

pub const CREATE_KEY_BUFFER: [u8; 8] = [138, 70, 101, 189, 154, 98, 203, 23];

pub const WRITE_KEY_BUFFER: [u8; 8] = [61, 88, 82, 10, 227, 249, 18, 117];

pub const ADD_VERIFICATION_METHOD_FROM_BUFFER: [u8; 8] = [111, 184, 129, 9, 216, 207, 122, 90];

pub const CLOSE_KEY_BUFFER: [u8; 8] = [6, 209, 103, 32, 78, 18, 70, 184];

/// The instructions of the registry.
#[derive(Clone, Copy, Debug, PartialEq, Eq, Structural)]
pub enum Instruction {
    Initialize,
    InitializeOwned,
    AddVerificationMethod,
    RemoveVerificationMethod,
    SetVerificationMethodFlags,
    AddService,
    RemoveService,
    SetControllers,
    Deactivate,
    CreateKeyBuffer,
    WriteKeyBuffer,
    AddVerificationMethodFromBuffer,
    CloseKeyBuffer,
}

/// The instruction a discriminator names.
pub open spec fn instruction_of(disc: Seq<u8>) -> Option<Instruction> {
    if disc == INITIALIZE@ {
        Some(Instruction::Initialize)
    } else if disc == INITIALIZE_OWNED@ {
        Some(Instruction::InitializeOwned)
    } else if disc == ADD_VERIFICATION_METHOD@ {
        Some(Instruction::AddVerificationMethod)
    } else if disc == REMOVE_VERIFICATION_METHOD@ {
        Some(Instruction::RemoveVerificationMethod)
    } else if disc == SET_VERIFICATION_METHOD_FLAGS@ {
        Some(Instruction::SetVerificationMethodFlags)
    } else if disc == ADD_SERVICE@ {
        Some(Instruction::AddService)
    } else if disc == REMOVE_SERVICE@ {
        Some(Instruction::RemoveService)
    } else if disc == SET_CONTROLLERS@ {
        Some(Instruction::SetControllers)
    } else if disc == DEACTIVATE@ {
        Some(Instruction::Deactivate)
    } else if disc == CREATE_KEY_BUFFER@ {
        Some(Instruction::CreateKeyBuffer)
    } else if disc == WRITE_KEY_BUFFER@ {
        Some(Instruction::WriteKeyBuffer)
    } else if disc == ADD_VERIFICATION_METHOD_FROM_BUFFER@ {
        Some(Instruction::AddVerificationMethodFromBuffer)
    } else if disc == CLOSE_KEY_BUFFER@ {
        Some(Instruction::CloseKeyBuffer)
    } else {
        None
    }
}

/// How instruction data is routed: a call for another program id is
/// refused; otherwise the first 8 bytes name the instruction, and the rest
/// are its arguments.
pub open spec fn spec_route(program_id: Seq<u8>, data: Seq<u8>) -> Result<
    (Instruction, Seq<u8>),
    RegistryError,
> {
    if program_id != registry_id() {
        Err(RegistryError::IncorrectProgramId)
    } else if data.len() < 8 {
        Err(RegistryError::InvalidInstructionData)
    } else {
        match instruction_of(data.subrange(0, 8)) {
            Some(ix) => Ok((ix, data.subrange(8, data.len() as int))),
            None => Err(RegistryError::InvalidInstructionData),
        }
    }
}

/// The instruction a discriminator names, if any.
pub fn instruction_for(disc: &[u8]) -> (r: Option<Instruction>)
    ensures
        r == instruction_of(disc@),
{
    if bytes_eq(disc, INITIALIZE.as_slice()) {
        Some(Instruction::Initialize)
    } else if bytes_eq(disc, INITIALIZE_OWNED.as_slice()) {
        Some(Instruction::InitializeOwned)
    } else if bytes_eq(disc, ADD_VERIFICATION_METHOD.as_slice()) {
        Some(Instruction::AddVerificationMethod)
    } else if bytes_eq(disc, REMOVE_VERIFICATION_METHOD.as_slice()) {
        Some(Instruction::RemoveVerificationMethod)
    } else if bytes_eq(disc, SET_VERIFICATION_METHOD_FLAGS.as_slice()) {
        Some(Instruction::SetVerificationMethodFlags)
    } else if bytes_eq(disc, ADD_SERVICE.as_slice()) {
        Some(Instruction::AddService)
    } else if bytes_eq(disc, REMOVE_SERVICE.as_slice()) {
        Some(Instruction::RemoveService)
    } else if bytes_eq(disc, SET_CONTROLLERS.as_slice()) {
        Some(Instruction::SetControllers)
    } else if bytes_eq(disc, DEACTIVATE.as_slice()) {
        Some(Instruction::Deactivate)
    } else if bytes_eq(disc, CREATE_KEY_BUFFER.as_slice()) {
        Some(Instruction::CreateKeyBuffer)
    } else if bytes_eq(disc, WRITE_KEY_BUFFER.as_slice()) {
        Some(Instruction::WriteKeyBuffer)
    } else if bytes_eq(disc, ADD_VERIFICATION_METHOD_FROM_BUFFER.as_slice()) {
        Some(Instruction::AddVerificationMethodFromBuffer)
    } else if bytes_eq(disc, CLOSE_KEY_BUFFER.as_slice()) {
        Some(Instruction::CloseKeyBuffer)
    } else {
        None
    }
}

/// Routes instruction data for `program_id`: the instruction and its
/// arguments.
pub fn route<'a>(program_id: &[u8; 32], data: &'a [u8]) -> (r: Result<(Instruction, &'a [u8]), RegistryError>)
    ensures
        match spec_route(program_id@, data@) {
            Ok((ix, args)) => r is Ok && r->Ok_0.0 == ix && r->Ok_0.1@ == args,
            Err(e) => r is Err && r->Err_0 == e,
        },
{
    let id = registry_program_id();
    if !bytes_eq(program_id.as_slice(), id.as_slice()) {
        return Err(RegistryError::IncorrectProgramId);
    }
    if data.len() < 8 {
        return Err(RegistryError::InvalidInstructionData);
    }
    let disc = &data[0..8];
    let args = &data[8..data.len()];
    match instruction_for(disc) {
        Some(ix) => Ok((ix, args)),
        None => Err(RegistryError::InvalidInstructionData),
    }
}

/// The registry's program id, as `five8_const` decodes it from the base58
/// text it is published under.
pub fn program_id() -> (id: [u8; 32])
    ensures
        id@ == registry_id(),
{
    registry_program_id()
}

} // verus!
