//! Recovery of a zcashd wallet from its emergency recovery phrase alone.
pub mod bytes;
pub mod error;
pub mod fingerprint;
pub mod keys;
pub mod laws;
pub mod mnemonic;
pub mod models;
pub mod sapling;
pub mod search;
pub mod secret;
pub mod text;
pub mod transparent;
pub mod zcashd_phrase;
