//! The registry's instructions: each decides, from the accounts and arguments
//! it receives, whether it applies and what the DID account holds afterwards.

pub mod add_service;
pub mod add_verification_method;
pub mod add_verification_method_from_buffer;
pub mod close_key_buffer;
pub mod create_key_buffer;
pub mod deactivate;
pub mod initialize;
pub mod initialize_owned;
pub mod remove_service;
pub mod remove_verification_method;
pub mod set_controllers;
pub mod set_verification_method_flags;
pub mod write_key_buffer;
pub mod shared;
