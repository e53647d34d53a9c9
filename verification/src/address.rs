//! Program addresses: the registry's own id, the system program's id, and
//! program derived addresses. The derivations are computed by
//! `solana-address` (sha256 and an Ed25519 curve check); the contracts
//! here name their results.

use vstd::prelude::*;

verus! {

/// The registry's program id, H1gnV4GjNT3UV7AgGNUCkSaciuVVtM7hKb8JhPV3Xxy6,
/// as bytes.
pub const ID: [u8; 32] = [
    237, 231, 249, 151, 37, 50, 249, 249, 121, 199, 216, 89, 60, 64, 106, 126, 73, 234, 235, 163,
    34, 110, 199, 209, 203, 31, 235, 20, 60, 254, 180, 65,
];

/// The system program's id, 11111111111111111111111111111111, as bytes.
pub const SYSTEM_PROGRAM_ID: [u8; 32] = [
    0, 0, 0, 0, 0, 0, 0, 0, 0, 0, 0, 0, 0, 0, 0, 0, 0, 0, 0, 0, 0, 0, 0, 0, 0, 0, 0, 0, 0, 0, 0, 0,
];

/// What `Address::create_program_address` returns for `seeds` under
/// `program_id`: the derived address, or `None` where it returns an error.
pub uninterp spec fn created_address(seeds: Seq<Seq<u8>>, program_id: Seq<u8>) -> Option<Seq<u8>>;

/// What `Address::try_find_program_address` returns for `seeds` under
/// `program_id`: the first address and bump (from 255 down) that derive,
/// or `None`.
pub uninterp spec fn found_address(seeds: Seq<Seq<u8>>, program_id: Seq<u8>) -> Option<(Seq<u8>, u8)>;

/// What `solana_address::bytes_are_curve_point` returns for `bytes`.
pub uninterp spec fn on_curve(bytes: Seq<u8>) -> bool;

/// The registry's program id.
pub open spec fn registry_id() -> Seq<u8> {
    ID@
}

/// The system program's id: 32 zero bytes.
pub open spec fn system_id() -> Seq<u8> {
    SYSTEM_PROGRAM_ID@
}

/// The byte strings of a seed list.
pub open spec fn seeds_view(seeds: &[&[u8]]) -> Seq<Seq<u8>> {
    seeds@.map_values(|s: &[u8]| s@)
}

/// The registry's program id: `five8_const::decode_32_const` of its
/// base58 text. The contract claims that the decoding is the bytes of
/// `ID` (base58 decoding is a fixed function of the text; a test checks
/// these bytes against the decoder).
#[verifier::external_body]
pub(crate) fn registry_program_id() -> (id: [u8; 32])
    ensures
        id@ == ID@,
{
    five8_const::decode_32_const("H1gnV4GjNT3UV7AgGNUCkSaciuVVtM7hKb8JhPV3Xxy6")
}

/// `pinocchio_system::ID`, which `declare_id!` defines as
/// `five8_const::decode_32_const` of the text of thirty-two `1`s; the
/// contract claims that this is thirty-two zero bytes (each leading `1`
/// of base58 stands for one zero byte).
#[verifier::external_body]
pub(crate) fn system_program_id() -> (id: [u8; 32])
    ensures
        id@ == SYSTEM_PROGRAM_ID@,
{
    pinocchio_system::ID.to_bytes()
}

/// `Address::create_program_address(seeds, program_id)`, with the error
/// case reported as `None`. The contract names the result; it claims no
/// property of the derivation.
#[verifier::external_body]
pub(crate) fn create_program_address(seeds: &[&[u8]], program_id: &[u8; 32]) -> (r: Option<[u8; 32]>)
    ensures
        r matches Some(a) ==> created_address(seeds_view(seeds), program_id@) == Some(a@),
        r is None ==> created_address(seeds_view(seeds), program_id@) is None,
{
    let pid = pinocchio::Address::new_from_array(*program_id);
    match pinocchio::Address::create_program_address(seeds, &pid) {
        Ok(a) => Some(a.to_bytes()),
        Err(_) => None,
    }
}

/// `Address::try_find_program_address(seeds, program_id)`. Besides naming
/// the result, the contract claims what the source's search loop shows: a
/// found bump is one under which `create_program_address` succeeds with the
/// found address.
#[verifier::external_body]
pub(crate) fn find_program_address(seeds: &[&[u8]], program_id: &[u8; 32]) -> (r: Option<([u8; 32], u8)>)
    ensures
        r matches Some((a, b)) ==> found_address(seeds_view(seeds), program_id@) == Some((a@, b))
            && created_address(seeds_view(seeds).push(seq![b]), program_id@) == Some(a@),
        r is None ==> found_address(seeds_view(seeds), program_id@) is None,
{
    let pid = pinocchio::Address::new_from_array(*program_id);
    match pinocchio::Address::try_find_program_address(seeds, &pid) {
        Some((a, b)) => Some((a.to_bytes(), b)),
        None => None,
    }
}

/// `solana_address::bytes_are_curve_point(bytes)`: whether `bytes` is a
/// point of the Ed25519 curve. The contract names the result.
#[verifier::external_body]
pub(crate) fn is_on_curve(bytes: &[u8; 32]) -> (r: bool)
    ensures
        r == on_curve(bytes@),
{
    solana_address::bytes_are_curve_point(bytes)
}

} // verus!
