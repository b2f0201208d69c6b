//! Core of a decentralized code-review trust scheme.
//!
//! The crate models signed "trust proofs": statements of trust in another
//! identity, or reviews of code and projects.  It provides
//!
//! * a line-oriented, marker-delimited wire format for streams of proofs,
//!   parsed by a bounded state machine ([`proofs`]),
//! * a canonical, byte-stable textual form for proof contents whose
//!   render/parse pair is proved to round-trip ([`content`]),
//! * digest, signing and verification of proof bodies ([`proofs`], [`crypto`]),
//! * an identity vault that locks a private signing key under a passphrase
//!   with a memory-hard KDF and a misuse-resistant AEAD ([`vault`]).

pub mod content;
pub mod crypto;
pub mod datetime;
pub mod errors;
pub mod hextext;
pub mod id;
pub mod level;
pub mod lines;
pub mod numtext;
pub mod proofs;
pub mod vault;
