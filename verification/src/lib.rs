//! A role-typed state machine for building Partially Signed Kaspa
//! Transactions (PSKT): a multi-party protocol in which a transaction
//! skeleton is created, populated, signed, combined, finalized and
//! finally extracted, with each step legal only in its own role.

pub mod codec;
pub mod consensus;
pub mod error;
pub mod hexb;
pub mod model;
pub mod pskt;

pub use codec::Payload;
pub use consensus::NetworkKind;
pub use error::Error;
pub use model::{InputSlot, Outpoint, OutputSlot, PartialSig, ScriptPublicKey, Skeleton, UtxoEntry};
pub use pskt::{Pskt, Role};
