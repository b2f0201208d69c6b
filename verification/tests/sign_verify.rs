use ed25519_dalek::Verifier;

use crev_core::content::{Content, Trust};
use crev_core::datetime::DateTime;
use crev_core::errors::VerifyError;
use crev_core::id::OwnId;
use crev_core::level::Level;

fn test_date() -> DateTime {
    DateTime {
        year: 2020,
        month: 12,
        day: 18,
        hour: 23,
        minute: 10,
        second: 21,
        offset_negative: true,
        offset_hours: 8,
        offset_minutes: 0,
    }
}

fn test_id(seed_byte: u8) -> OwnId {
    OwnId::new(Some(b"https://example.com/ids".to_vec()), vec![seed_byte; 32]).unwrap()
}

fn content_by(own: &OwnId) -> Content {
    Content::Trust(Trust {
        date: test_date(),
        from: own.id.duplicate(),
        ids: vec![vec![3u8; 32]],
        trust: Level::Medium,
        distrust: Level::Zero,
        comment: b"signed statement".to_vec(),
    })
}

#[test]
fn a_signed_proof_verifies() {
    let own = test_id(11);
    let proof = content_by(&own).sign_by(&own);
    assert!(proof.verify().is_ok());
}

#[test]
fn altering_one_body_byte_breaks_verification() {
    let own = test_id(12);
    let mut proof = content_by(&own).sign_by(&own);
    proof.body[0] ^= 1;
    assert_eq!(proof.verify().unwrap_err(), VerifyError::BadSignature);
}

#[test]
fn a_proof_signed_by_another_key_than_its_author_fails() {
    let author = test_id(13);
    let signer = test_id(14);
    // The content names `author`, but `signer` signs it.
    let proof = content_by(&author).sign_by(&signer);
    assert_eq!(proof.verify().unwrap_err(), VerifyError::BadSignature);
}

#[test]
fn garbage_signature_text_fails_with_bad_encoding() {
    let own = test_id(15);
    let mut proof = content_by(&own).sign_by(&own);
    proof.signature = b"!!!not base64!!!".to_vec();
    assert_eq!(proof.verify().unwrap_err(), VerifyError::BadEncoding);
}

#[test]
fn the_signature_text_is_url_safe_base64_of_an_ed25519_signature() {
    let own = test_id(16);
    let proof = content_by(&own).sign_by(&own);
    let sig = base64::decode_config(&proof.signature, base64::URL_SAFE).unwrap();
    assert_eq!(sig.len(), 64);
    // Cross-check against ed25519-dalek directly.
    let mut pk = [0u8; 32];
    pk.copy_from_slice(&own.id.id);
    let vk = ed25519_dalek::VerifyingKey::from_bytes(&pk).unwrap();
    let mut sb = [0u8; 64];
    sb.copy_from_slice(&sig);
    assert!(vk.verify(&proof.body, &ed25519_dalek::Signature::from_bytes(&sb)).is_ok());
}

#[test]
fn the_digest_is_the_blake2b_hash_of_the_body() {
    let own = test_id(17);
    let proof = content_by(&own).sign_by(&own);
    assert_eq!(proof.digest, crev_common::blake2b256sum(&proof.body).to_vec());
}

#[test]
fn a_parsed_proof_with_a_signature_line_still_verifies() {
    let own = test_id(18);
    let proof = content_by(&own).sign_by(&own);
    let stream = proof.render();
    let parsed = crev_core::proofs::Proof::parse(&stream).unwrap();
    assert_eq!(parsed.len(), 1);
    // The parsed signature text carries its line break; verification trims.
    assert!(parsed[0].verify().is_ok());
    assert_eq!(parsed[0].digest, proof.digest);
}

#[test]
fn pub_key_as_base64_matches_the_base64_crate() {
    let own = test_id(19);
    let shown = own.id.pub_key_as_base64();
    assert_eq!(
        shown,
        base64::encode_config(&own.id.id, base64::URL_SAFE).into_bytes()
    );
    assert_ne!(shown, own.id.id);
}
