//! A local, single-user encrypted credential vault.
//!
//! The library covers the layers where correctness and integrity live:
//! key derivation ([`crypto`]), authenticated encryption and the line
//! codec ([`crypto`], [`codec`]), the fault-tolerant vault file format
//! ([`vault`]), and the validated credential record ([`entry`]).
//! Companion modules hold the pure policy logic of the bundled web
//! service: origin policy ([`cors`]), request payloads ([`requests`])
//! and audit actions ([`audit`]).
//!
//! File reading and writing, the interactive menu and the service's
//! transport layer stay outside: callers read the vault file, hand its
//! text to [`vault`], and write back what [`vault`] renders.

pub mod audit;
pub mod codec;
pub mod cors;
pub mod crypto;
pub mod entry;
pub mod requests;
pub mod text;
pub mod vault;
