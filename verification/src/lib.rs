//! A Bitcoin transaction signing core: from a declarative description of
//! inputs and outputs to the signature preimage hashes and the fully
//! serialized, signed transaction.

pub mod types;
pub mod crypto;
pub mod encode;
pub mod script;
pub mod classify;
pub mod select;
pub mod sighash;
pub mod claim;
pub mod signer;
pub mod entry;
