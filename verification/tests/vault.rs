use aes_siv::KeyInit;

use crev_core::errors::VaultError;
use crev_core::id::OwnId;
use crev_core::vault::{LockedId, PassConfig, CURRENT_VERSION};

fn test_id(seed_byte: u8) -> OwnId {
    OwnId::new(Some(b"https://example.com/me".to_vec()), vec![seed_byte; 32]).unwrap()
}

#[test]
fn unlocking_a_locked_identity_restores_the_keys() {
    let own = test_id(21);
    let locked = LockedId::from_own_id(&own, b"correct horse");
    let back = locked.to_unlocked(b"correct horse").unwrap();
    assert_eq!(back.id.id, own.id.id);
    assert_eq!(back.secret, own.secret);
    assert_eq!(back.id.url, Some(b"https://example.com/me".to_vec()));
}

#[test]
fn the_wrong_passphrase_fails_authentication() {
    let own = test_id(22);
    let locked = LockedId::from_own_id(&own, b"pw");
    assert_eq!(
        locked.to_unlocked(b"wrong").unwrap_err(),
        VaultError::AuthenticationFailed
    );
}

#[test]
fn a_flipped_sealed_key_byte_fails_authentication() {
    let own = test_id(23);
    let mut locked = LockedId::from_own_id(&own, b"pw");
    locked.sealed_secret_key[5] ^= 1;
    assert_eq!(
        locked.to_unlocked(b"pw").unwrap_err(),
        VaultError::AuthenticationFailed
    );
}

#[test]
fn a_flipped_nonce_byte_fails_authentication() {
    let own = test_id(24);
    let mut locked = LockedId::from_own_id(&own, b"pw");
    locked.seal_nonce[0] ^= 1;
    assert_eq!(
        locked.to_unlocked(b"pw").unwrap_err(),
        VaultError::AuthenticationFailed
    );
}

#[test]
fn a_forged_public_key_is_a_distinct_integrity_error() {
    let own = test_id(25);
    let mut locked = LockedId::from_own_id(&own, b"pw");
    locked.public_key[0] ^= 1;
    assert_eq!(
        locked.to_unlocked(b"pw").unwrap_err(),
        VaultError::PublicKeyMismatch
    );
}

#[test]
fn an_unsupported_version_fails_before_the_parameters_are_even_read() {
    let own = test_id(26);
    let mut locked = LockedId::from_own_id(&own, b"pw");
    locked.version = CURRENT_VERSION + 1;
    // The parameters are made unusable too: the version gate must win.
    locked.pass.variant = b"nonsense".to_vec();
    assert_eq!(
        locked.to_unlocked(b"pw").unwrap_err(),
        VaultError::UnsupportedVersion
    );
}

#[test]
fn unusable_stored_parameters_fail_before_any_derivation() {
    let own = test_id(27);
    let mut locked = LockedId::from_own_id(&own, b"pw");
    locked.pass.variant = b"argon2i".to_vec();
    assert_eq!(
        locked.to_unlocked(b"pw").unwrap_err(),
        VaultError::KdfConfigInvalid
    );
}

#[test]
fn the_locked_document_round_trips_through_its_text_form() {
    let own = test_id(28);
    let locked = LockedId::from_own_id(&own, b"pw");
    let text = locked.render();
    let back = LockedId::parse(&text).unwrap();
    assert_eq!(back.version, locked.version);
    assert_eq!(back.url, locked.url);
    assert_eq!(back.public_key, locked.public_key);
    assert_eq!(back.sealed_secret_key, locked.sealed_secret_key);
    assert_eq!(back.seal_nonce, locked.seal_nonce);
    assert_eq!(back.pass.version, locked.pass.version);
    assert_eq!(back.pass.variant, locked.pass.variant);
    assert_eq!(back.pass.iterations, locked.pass.iterations);
    assert_eq!(back.pass.memory_size, locked.pass.memory_size);
    assert_eq!(back.pass.salt, locked.pass.salt);
    // And the reparsed document still unlocks.
    let reopened = back.to_unlocked(b"pw").unwrap();
    assert_eq!(reopened.id.id, own.id.id);
}

#[test]
fn the_document_text_is_exactly_the_expected_lines() {
    let locked = LockedId {
        version: 1,
        url: b"https://example.com/me".to_vec(),
        public_key: vec![0xab, 0x01],
        sealed_secret_key: vec![0xcd],
        seal_nonce: vec![0xef],
        pass: PassConfig {
            version: 19,
            variant: b"argon2id".to_vec(),
            iterations: 192,
            memory_size: 4096,
            salt: vec![0x00, 0xff],
        },
    };
    let text = String::from_utf8(locked.render()).unwrap();
    let expected = "version: 1\n\
        url: https://example.com/me\n\
        public-key: ab01\n\
        sealed-secret-key: cd\n\
        seal-nonce: ef\n\
        pass-version: 19\n\
        pass-variant: argon2id\n\
        pass-iterations: 192\n\
        pass-memory-size: 4096\n\
        pass-salt: 00ff\n";
    assert_eq!(text, expected);
}

#[test]
fn a_truncated_document_is_malformed() {
    let own = test_id(29);
    let locked = LockedId::from_own_id(&own, b"pw");
    let mut text = locked.render();
    text.truncate(text.len() / 2);
    assert_eq!(
        LockedId::parse(&text).unwrap_err(),
        VaultError::MalformedDocument
    );
}

#[test]
fn to_pubid_carries_the_stored_key_and_url() {
    let own = test_id(30);
    let locked = LockedId::from_own_id(&own, b"pw");
    let pubid = locked.to_pubid();
    assert_eq!(pubid.id, own.id.id);
    assert_eq!(pubid.url, Some(b"https://example.com/me".to_vec()));
}

#[test]
fn the_derived_key_matches_the_argon2_crate_directly() {
    let own = test_id(31);
    let locked = LockedId::from_own_id(&own, b"pw");
    // Re-derive with rust-argon2 directly and open the seal with aes-siv
    // directly: the library's sealing is the composition it claims.
    let config = argon2::Config {
        variant: argon2::Variant::Argon2id,
        version: argon2::Version::Version13,
        mem_cost: locked.pass.memory_size,
        time_cost: locked.pass.iterations,
        lanes: 1,
        secret: &[],
        ad: &[],
        hash_length: 64,
    };
    let key = argon2::hash_raw(b"pw", &locked.pass.salt, &config).unwrap();
    let mut siv = aes_siv::siv::Aes256Siv::new_from_slice(&key).unwrap();
    let secret = siv
        .decrypt([locked.seal_nonce.as_slice()], locked.sealed_secret_key.as_slice())
        .unwrap();
    assert_eq!(secret, own.secret);
}
