//! did:bio registry: the account layout, argument decoding and update rules
//! of the Solana verifiable data registry behind the `did:bio` DID method.

pub mod accounts;
pub mod address;
pub mod buffer_laws;
pub mod bytes;
pub mod error;
pub mod events;
pub mod instructions;
pub mod ix;
pub mod key_buffer;
pub mod laws;
pub mod model;
pub mod parse_laws;
pub mod rent;
pub mod roundtrip;
pub mod rule_laws;
pub mod rules;
pub mod state;
