//! Core of the lulzcoin wallet and daemon: hex and address encodings,
//! wallet key material, sealed wallet files and the block chain.

pub mod encoding;
pub mod base58;
pub mod digest;
pub mod address;
pub mod wallet;
pub mod vault;
pub mod chain;
pub mod cli;
