//! Rent: the rent-exempt minimum of an account from the rent sysvar's
//! bytes, and how a balance is settled to exactly that minimum after a
//! resize (growth funded by the payer, shrinkage refunded to the payer).
//!
//! The sysvar comes in two layouts: the classic 17-byte
//! `{ lamports_per_byte_year: u64, exemption_threshold: f64, burn_percent: u8 }`
//! and the condensed 8-byte `{ lamports_per_byte: u64 }`.

use vstd::prelude::*;

use crate::bytes::{get_u64, le_u64};
use crate::error::RegistryError;

verus! {

/// Bytes every account is charged for beyond its data.
pub const ACCOUNT_STORAGE_OVERHEAD: u64 = 128;

/// The bits of the f64 2.0: the default exemption threshold, recognized
/// by its bits so that the usual path needs no float.
pub const TWO_F64_BITS: u64 = 0x4000_0000_0000_0000;

/// The storage an account of `data_len` bytes is charged for, if it fits
/// a `u64`.
pub open spec fn spec_storage_bytes(data_len: nat) -> Option<u64> {
    if ACCOUNT_STORAGE_OVERHEAD + data_len <= u64::MAX {
        Some((ACCOUNT_STORAGE_OVERHEAD + data_len) as u64)
    } else {
        None
    }
}

/// The rent-exempt minimum under the classic layout, or what remains to
/// be done: `Exact` when the threshold is 2.0 (the minimum is computed
/// here), `Scaled` otherwise (the minimum is `base` times the threshold,
/// a float product left to the caller; `threshold` holds the f64's bits).
#[derive(Clone, Copy, Debug, PartialEq, Eq, Structural)]
pub enum RentQuote {
    Exact(u64),
    Scaled { base: u64, threshold: u64 },
}

/// What the classic layout gives for `data_len` bytes.
pub open spec fn spec_classic_rent(sysvar: Seq<u8>, data_len: nat) -> Result<RentQuote, RegistryError> {
    match spec_storage_bytes(data_len) {
        None => Err(RegistryError::ArithmeticOverflow),
        Some(bytes) => {
            let per_byte_year = le_u64(sysvar.subrange(0, 8));
            if bytes * per_byte_year > u64::MAX {
                Err(RegistryError::ArithmeticOverflow)
            } else {
                let base = (bytes * per_byte_year) as u64;
                let threshold = le_u64(sysvar.subrange(8, 16));
                if threshold == TWO_F64_BITS {
                    if base * 2 > u64::MAX {
                        Err(RegistryError::ArithmeticOverflow)
                    } else {
                        Ok(RentQuote::Exact((base * 2) as u64))
                    }
                } else {
                    Ok(RentQuote::Scaled { base, threshold })
                }
            }
        },
    }
}

/// What the condensed layout gives for `data_len` bytes.
pub open spec fn spec_condensed_rent(sysvar: Seq<u8>, data_len: nat) -> Result<u64, RegistryError> {
    match spec_storage_bytes(data_len) {
        None => Err(RegistryError::ArithmeticOverflow),
        Some(bytes) => {
            let per_byte = le_u64(sysvar);
            if bytes * per_byte > u64::MAX {
                Err(RegistryError::ArithmeticOverflow)
            } else {
                Ok((bytes * per_byte) as u64)
            }
        },
    }
}

/// The storage an account of `data_len` bytes is charged for.
pub fn storage_bytes(data_len: usize) -> (r: Result<u64, RegistryError>)
    ensures
        match spec_storage_bytes(data_len as nat) {
            Some(b) => r == Ok::<u64, RegistryError>(b),
            None => r == Err::<u64, RegistryError>(RegistryError::ArithmeticOverflow),
        },
{
    if data_len as u128 > (u64::MAX - ACCOUNT_STORAGE_OVERHEAD) as u128 {
        return Err(RegistryError::ArithmeticOverflow);
    }
    Ok(ACCOUNT_STORAGE_OVERHEAD + data_len as u64)
}

/// The rent-exempt minimum for `data_len` bytes under the classic layout
/// of the sysvar.
pub fn rent_from_classic(sysvar: &[u8; 17], data_len: usize) -> (r: Result<RentQuote, RegistryError>)
    ensures
        r == spec_classic_rent(sysvar@, data_len as nat),
{
    let bytes = storage_bytes(data_len)?;
    let per_byte_year = get_u64(sysvar.as_slice(), 0);
    let base = match bytes.checked_mul(per_byte_year) {
        Some(b) => b,
        None => return Err(RegistryError::ArithmeticOverflow),
    };
    let threshold = get_u64(sysvar.as_slice(), 8);
    if threshold == TWO_F64_BITS {
        match base.checked_mul(2) {
            Some(m) => Ok(RentQuote::Exact(m)),
            None => Err(RegistryError::ArithmeticOverflow),
        }
    } else {
        Ok(RentQuote::Scaled { base, threshold })
    }
}

/// The rent-exempt minimum for `data_len` bytes under the condensed layout
/// of the sysvar.
pub fn rent_from_condensed(sysvar: &[u8; 8], data_len: usize) -> (r: Result<u64, RegistryError>)
    ensures
        r == spec_condensed_rent(sysvar@, data_len as nat),
{
    let bytes = storage_bytes(data_len)?;
    let per_byte = get_u64(sysvar.as_slice(), 0);
    assert(sysvar@.subrange(0, 8) =~= sysvar@);
    match bytes.checked_mul(per_byte) {
        Some(m) => Ok(m),
        None => Err(RegistryError::ArithmeticOverflow),
    }
}

/// How a balance is brought to the rent-exempt minimum.
#[derive(Clone, Copy, Debug, PartialEq, Eq, Structural)]
pub enum Settlement {
    /// The balance already is the minimum.
    Settled,
    /// The payer transfers this many lamports to the account.
    Fund(u64),
    /// The account keeps the minimum; the payer is credited the rest, and
    /// ends with `payer_lamports`.
    Refund { account_lamports: u64, payer_lamports: u64 },
}

/// The settlement of an account holding `current` lamports whose minimum is
/// `minimum`, with a payer holding `payer`.
pub open spec fn spec_settlement(minimum: u64, current: u64, payer: u64) -> Result<
    Settlement,
    RegistryError,
> {
    if minimum > current {
        Ok(Settlement::Fund((minimum - current) as u64))
    } else if minimum < current {
        if payer + (current - minimum) > u64::MAX {
            Err(RegistryError::ArithmeticOverflow)
        } else {
            Ok(
                Settlement::Refund {
                    account_lamports: minimum,
                    payer_lamports: (payer + (current - minimum)) as u64,
                },
            )
        }
    } else {
        Ok(Settlement::Settled)
    }
}

/// Rent settlement: after a resize, the account holds exactly the
/// rent-exempt minimum - growth is funded by the payer, shrinkage is
/// refunded to the payer.
pub fn settlement(minimum: u64, current: u64, payer: u64) -> (r: Result<Settlement, RegistryError>)
    ensures
        r == spec_settlement(minimum, current, payer),
{
    if minimum > current {
        Ok(Settlement::Fund(minimum - current))
    } else if minimum < current {
        let refund = current - minimum;
        match payer.checked_add(refund) {
            Some(credited) => Ok(Settlement::Refund { account_lamports: minimum, payer_lamports: credited }),
            None => Err(RegistryError::ArithmeticOverflow),
        }
    } else {
        Ok(Settlement::Settled)
    }
}

} // verus!
