//! Client-side encrypted password vault: the vault model and its binary codec, the password
//! generator, the authenticated cipher, request signing and the account protocol.

pub mod codec;
pub mod config;
pub mod constants;
pub mod errors;
pub mod http_utils;
pub mod key;
pub mod opaque_api;
pub mod opaque_vault_manager;
pub mod password;
pub mod state;
pub mod vault;
pub mod vault_core;
pub mod vault_entry;
pub mod xchacha20poly1305;
