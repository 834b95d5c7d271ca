//! Inscription programs: small accounts that hold arbitrary payloads, a sharded
//! rank counter, and a list of update authorities per inscription.
//!
//! The host hands every instruction a list of accounts. This library models such
//! an account as plain data ([`account::Account`]) and each instruction as a
//! verified transition on a list of them: either every check passes and the
//! accounts take their new contents, or the first failing check decides the
//! error and nothing changes.
//!
//! - [`address`], [`derivation`]: addresses, and the addresses derived from
//!   seeds.
//! - [`account`]: the account model and the life of an account's storage.
//! - [`codec`], [`state`], [`instruction`]: the binary layout of records and
//!   instructions.
//! - [`authority`], [`shard`]: who may act, and which rank comes next.
//! - [`token_metadata`]: what is read from the token metadata of a mint.
//! - [`processor`]: one processor per instruction, and the program's entry.
//! - [`json`]: the sibling program for JSON payloads.
//!
//! Every processor comes with two specification functions: `*_failure` says
//! which check fails first, and `*_effect` what the accounts are afterwards.
//! What the host settles on its own, that is who pays how much for the space
//! of an account, is left to the caller.
pub mod account;
pub mod address;
pub mod authority;
pub mod codec;
pub mod derivation;
pub mod error;
pub mod instruction;
pub mod json;
pub mod processor;
pub mod shard;
pub mod state;
pub mod token_metadata;
