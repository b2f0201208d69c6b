//! Error taxonomy of the library.

use vstd::prelude::*;

use crate::proofs::ProofType;

verus! {

/// Errors of the proof-stream parser and of content parsing.
#[derive(Clone, Copy, Debug, PartialEq, Eq, Structural)]
pub enum ParseError {
    /// A non-blank line outside any proof block that is no begin marker.
    UnexpectedLine,
    /// The input ended inside a proof block.
    UnexpectedEof,
    /// The accumulated body grew past the body cap.
    BodyTooLarge,
    /// The accumulated signature grew past the signature cap.
    SignatureTooLarge,
    /// A record's body is no well-formed content of the given variant.
    MalformedContent(ProofType),
}

/// Errors of signature verification.
#[derive(Clone, Copy, Debug, PartialEq, Eq, Structural)]
pub enum VerifyError {
    /// The stored signature is no valid URL-safe base64 text.
    BadEncoding,
    /// The signature does not check out against the body and public key.
    BadSignature,
}

/// Errors of locking and unlocking an identity.
#[derive(Clone, Copy, Debug, PartialEq, Eq, Structural)]
pub enum VaultError {
    /// The locked document carries a version this library does not support.
    UnsupportedVersion,
    /// The locked document text does not follow the persisted format.
    MalformedDocument,
    /// The stored key-derivation parameters are unusable.
    KdfConfigInvalid,
    /// Authenticated decryption of the sealed key failed: wrong passphrase
    /// or tampered storage, deliberately not distinguished.
    AuthenticationFailed,
    /// The recovered private key does not match the stored public key.
    PublicKeyMismatch,
}

} // verus!
