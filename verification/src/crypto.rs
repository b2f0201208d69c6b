//! Trusted boundary to the cryptographic crates.
//!
//! Each function here wraps one call into an outside crate.  Verus believes
//! the stated contracts; everything else in the library is proved from them.
//! Results that no short formula can state (digests, signatures, ciphertext)
//! are given names: uninterpreted spec functions of the arguments alone.

use vstd::prelude::*;

use aes_siv::KeyInit;
use ed25519_dalek::{Signer, Verifier};
use rand::RngCore;

verus! {

/// The 32-byte BLAKE2b digest of `data`.
pub uninterp spec fn blake2b256_of(data: Seq<u8>) -> Seq<u8>;

/// The Ed25519 public key derived from a 32-byte seed.
pub uninterp spec fn ed25519_pub_of(seed: Seq<u8>) -> Seq<u8>;

/// The deterministic Ed25519 signature of `msg` under the key with seed `seed`.
pub uninterp spec fn ed25519_sig_of(seed: Seq<u8>, msg: Seq<u8>) -> Seq<u8>;

/// Whether Ed25519 verification accepts `sig` on `msg` under `pubkey`.
/// Malformed key or signature bytes verify nothing.
pub uninterp spec fn ed25519_verifies(pubkey: Seq<u8>, msg: Seq<u8>, sig: Seq<u8>) -> bool;

/// The URL-safe, padded base64 text of `data`.
pub uninterp spec fn base64_of(data: Seq<u8>) -> Seq<u8>;

/// The 64-byte Argon2id (version 0x13, one lane) hash of `pass` with `salt`,
/// `iterations` passes and `memory_kib` KiB of memory.
pub uninterp spec fn argon2id_of(pass: Seq<u8>, salt: Seq<u8>, iterations: u32, memory_kib: u32) -> Seq<u8>;

/// The AES-256-CMAC-SIV ciphertext of `plaintext` under `key` with the
/// single header `nonce`.
pub uninterp spec fn siv_sealed(key: Seq<u8>, nonce: Seq<u8>, plaintext: Seq<u8>) -> Seq<u8>;

/// A byte of the URL-safe base64 alphabet, or the padding byte `=`.
pub open spec fn is_base64_byte(b: u8) -> bool {
    (65 <= b <= 90) || (97 <= b <= 122) || (48 <= b <= 57) || b == 45 || b == 95 || b == 61
}

/// Every byte of `s` may appear in URL-safe base64 text.
pub open spec fn all_base64_bytes(s: Seq<u8>) -> bool {
    forall|i: int| 0 <= i < s.len() ==> is_base64_byte(s[i])
}

/// Relies on crev_common::blake2b256sum: the 32-byte BLAKE2b digest,
/// a function of the input bytes alone.
#[verifier::external_body]
pub fn blake2b256(data: &[u8]) -> (r: Vec<u8>)
    ensures
        r@ == blake2b256_of(data@),
        r@.len() == 32,
{
    crev_common::blake2b256sum(data).to_vec()
}

/// Relies on base64::encode_config with the URL_SAFE alphabet: padded
/// URL-safe base64 text, a function of the input bytes alone.
#[verifier::external_body]
pub fn base64_encode(data: &[u8]) -> (r: Vec<u8>)
    ensures
        r@ == base64_of(data@),
        all_base64_bytes(r@),
        r@.len() == 0 <==> data@.len() == 0,
{
    base64::encode_config(data, base64::URL_SAFE).into_bytes()
}

/// Relies on base64::decode_config with the URL_SAFE alphabet: it inverts
/// the encoding, so on the canonical text of any bytes it returns exactly
/// those bytes.  (It also tolerates some non-canonical text, such as
/// missing padding, so nothing is claimed of other inputs; see
/// [`base64_decode_canonical`] for the strict form.)
#[verifier::external_body]
fn base64_decode(text: &[u8]) -> (r: Option<Vec<u8>>)
    ensures
        forall|b: Seq<u8>| text@ == base64_of(b) ==> r is Some && r->Some_0@ == b,
{
    match base64::decode_config(text, base64::URL_SAFE) {
        Ok(v) => Some(v),
        Err(_) => None,
    }
}

/// Strict base64 reading: accepts exactly the canonical URL-safe text of
/// some bytes and returns them.  The decoded bytes are re-encoded and
/// compared, so non-canonical text the underlying decoder tolerates is
/// rejected here, in verified code.
pub fn base64_decode_canonical(text: &[u8]) -> (r: Option<Vec<u8>>)
    ensures
        match r {
            Some(v) => text@ == base64_of(v@),
            None => forall|b: Seq<u8>| text@ != base64_of(b),
        },
        forall|b: Seq<u8>| text@ == base64_of(b) ==> r is Some && r->Some_0@ == b,
{
    match base64_decode(text) {
        None => {
            proof {
                assert forall|b: Seq<u8>| text@ != base64_of(b) by {
                    if text@ == base64_of(b) {
                        assert(false);
                    }
                }
            }
            None
        },
        Some(v) => {
            let enc = base64_encode(v.as_slice());
            if crate::lines::bytes_eq(enc.as_slice(), text) {
                Some(v)
            } else {
                proof {
                    assert forall|b: Seq<u8>| text@ != base64_of(b) by {
                        if text@ == base64_of(b) {
                            assert(v@ == b);
                            assert(enc@ == text@);
                        }
                    }
                }
                None
            }
        },
    }
}

/// Relies on ed25519_dalek::SigningKey::from_bytes and verifying_key:
/// the public key is a function of the 32-byte seed alone.
#[verifier::external_body]
pub fn ed25519_public(seed: &[u8]) -> (r: Vec<u8>)
    requires
        seed@.len() == 32,
    ensures
        r@ == ed25519_pub_of(seed@),
        r@.len() == 32,
{
    let mut sb = [0u8; 32];
    sb.copy_from_slice(seed);
    let sk = ed25519_dalek::SigningKey::from_bytes(&sb);
    sk.verifying_key().to_bytes().to_vec()
}

/// Relies on ed25519_dalek::SigningKey::sign: Ed25519 signing is
/// deterministic in seed and message, and what it signs, the matching
/// public key verifies.
#[verifier::external_body]
pub fn ed25519_sign(seed: &[u8], msg: &[u8]) -> (r: Vec<u8>)
    requires
        seed@.len() == 32,
    ensures
        r@ == ed25519_sig_of(seed@, msg@),
        r@.len() == 64,
        ed25519_verifies(ed25519_pub_of(seed@), msg@, r@),
{
    let mut sb = [0u8; 32];
    sb.copy_from_slice(seed);
    let sk = ed25519_dalek::SigningKey::from_bytes(&sb);
    sk.sign(msg).to_bytes().to_vec()
}

/// Relies on ed25519_dalek::VerifyingKey::verify: deterministic in the
/// key, message and signature bytes; malformed key or signature bytes
/// are rejected.
#[verifier::external_body]
pub fn ed25519_verify(pubkey: &[u8], msg: &[u8], sig: &[u8]) -> (r: bool)
    ensures
        r == ed25519_verifies(pubkey@, msg@, sig@),
{
    if pubkey.len() != 32 || sig.len() != 64 {
        return false;
    }
    let mut pb = [0u8; 32];
    pb.copy_from_slice(pubkey);
    let vk = match ed25519_dalek::VerifyingKey::from_bytes(&pb) {
        Ok(vk) => vk,
        Err(_) => return false,
    };
    let mut gb = [0u8; 64];
    gb.copy_from_slice(sig);
    vk.verify(msg, &ed25519_dalek::Signature::from_bytes(&gb)).is_ok()
}

/// Relies on argon2::hash_raw of the rust-argon2 crate, fixed to Argon2id,
/// version 0x13, one lane, 64-byte output: deterministic in passphrase,
/// salt, iteration count and memory cost.  The bounds below are the ones
/// its context validation requires, so the call cannot fail.
#[verifier::external_body]
pub fn argon2id_derive(pass: &[u8], salt: &[u8], iterations: u32, memory_kib: u32) -> (r: Vec<u8>)
    requires
        8 <= salt@.len() <= 1024,
        iterations >= 1,
        8 <= memory_kib <= 0x200000,
    ensures
        r@ == argon2id_of(pass@, salt@, iterations, memory_kib),
        r@.len() == 64,
{
    let config = argon2::Config {
        variant: argon2::Variant::Argon2id,
        version: argon2::Version::Version13,
        mem_cost: memory_kib,
        time_cost: iterations,
        lanes: 1,
        secret: &[],
        ad: &[],
        hash_length: 64,
    };
    argon2::hash_raw(pass, salt, &config).expect("argon2 parameters were validated")
}

/// Relies on aes_siv::siv::Aes256Siv::encrypt with the single header
/// `nonce`: deterministic authenticated encryption; the ciphertext is the
/// 16-byte synthetic IV followed by the ciphertext body.
#[verifier::external_body]
pub fn siv_seal(key: &[u8], nonce: &[u8], plaintext: &[u8]) -> (r: Vec<u8>)
    requires
        key@.len() == 64,
        plaintext@.len() >= 16,
    ensures
        r@ == siv_sealed(key@, nonce@, plaintext@),
        r@.len() == plaintext@.len() + 16,
{
    let mut siv = aes_siv::siv::Aes256Siv::new_from_slice(key)
        .expect("a 64-byte AES-256-SIV key");
    siv.encrypt([nonce], plaintext).expect("sealing a nonempty plaintext")
}

/// Relies on aes_siv::siv::Aes256Siv::decrypt with the single header
/// `nonce`: it accepts exactly the authentic ciphertexts, and on them
/// inverts sealing.
#[verifier::external_body]
pub fn siv_open(key: &[u8], nonce: &[u8], ciphertext: &[u8]) -> (r: Option<Vec<u8>>)
    requires
        key@.len() == 64,
    ensures
        match r {
            Some(pt) => pt@.len() + 16 == ciphertext@.len()
                && (pt@.len() >= 16 ==> ciphertext@ == siv_sealed(key@, nonce@, pt@)),
            None => true,
        },
        forall|pt: Seq<u8>| pt.len() >= 16 && ciphertext@ == siv_sealed(key@, nonce@, pt)
            ==> r is Some && r->Some_0@ == pt,
{
    let mut siv = aes_siv::siv::Aes256Siv::new_from_slice(key)
        .expect("a 64-byte AES-256-SIV key");
    match siv.decrypt([nonce], ciphertext) {
        Ok(pt) => Some(pt),
        Err(_) => None,
    }
}

/// Relies on rand::rngs::ThreadRng::fill_bytes: fresh random bytes; nothing
/// is assumed of their values.
#[verifier::external_body]
pub fn random_bytes(n: usize) -> (r: Vec<u8>)
    ensures
        r@.len() == n,
{
    let mut v = vec![0u8; n];
    rand::thread_rng().fill_bytes(&mut v);
    v
}

} // verus!
