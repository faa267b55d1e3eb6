//! State-transition core of a shielded-transaction ledger: a stateless
//! transaction verifier and a state writer that folds verified blocks into
//! the chain state and keeps the public snapshot of that state current.

pub mod bytes;
pub mod verify;
pub mod writer;
