//! The JSON inscription program, a sibling of the inscription program for
//! payloads that are JSON text.
//!
//! Its inscriptions have no rank and no associated accounts, its records are
//! shorter, and the payer is the one who acts. It runs under the same address
//! as the inscription program and derives its metadata accounts with a prefix
//! of its own.
pub mod instruction;
pub mod processor;
pub mod state;
pub mod value;
