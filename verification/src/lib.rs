//! Decision and parsing logic of the Photokeep verifier: key text parsing,
//! file-name handling, content sniffing, the encrypted video container and
//! the registry of decrypted results.

pub mod text;
pub mod error;
pub mod key;
pub mod names;
pub mod video;
pub mod crypto;
pub mod kind;
pub mod registry;
pub mod items;
pub mod decoder;
