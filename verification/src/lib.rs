//! Ed25519 signing whose seed stays sealed to an enclave.
//!
//! The library holds everything that can be decided from plain values: the
//! wire format and its framing, how a sealing key is requested and checked,
//! how a seed is sealed and used, what the enclave answers to a request, and
//! what a client makes of the answer. Sockets, channels, files on disk and the
//! hardware key derivation are left to the program around it.

pub mod backend;
pub mod base64;
pub mod cipher;
pub mod ed25519;
mod entropy;
pub mod error;
pub mod key_files;
pub mod laws;
pub mod protocol;
pub mod provider;
pub mod seal_data;
pub mod seal_signer;
pub mod server;
pub mod wire;
