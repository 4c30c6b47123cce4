//! Client core for a firmware-distribution protocol ("FUS"): the
//! encrypted-nonce authentication and signing scheme, decryption-key
//! selection for firmware binaries, construction of the wire request
//! bodies, and a streaming block-cipher decryption engine.
//!
//! Transport (HTTP), XML parsing, command-line handling and progress
//! reporting are collaborators outside this library; they exchange plain
//! strings and bytes with the functions here.

pub mod auth;
pub mod binary_info;
pub mod crypto;
pub mod decrypt;
pub mod modes;
pub mod padding;
pub mod requests;
pub mod text;
pub mod version;
