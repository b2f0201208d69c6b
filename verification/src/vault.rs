//! The identity vault: locking a private signing key under a passphrase
//! and unlocking it again, with the persisted document format.
//!
//! Locking derives a 64-byte key from the passphrase with Argon2id and a
//! fresh random salt, then seals the private seed with AES-256-SIV under
//! a fresh random nonce.  Unlocking validates the document's version and
//! stored parameters before any cryptography runs, re-derives the key,
//! opens the seal, and cross-checks the recovered key against the stored
//! public key.

use vstd::prelude::*;
use vstd::slice::slice_to_vec;

use crate::content::{parse_keyed, lemma_parse_keyed_render};
use crate::crypto::{argon2id_derive, argon2id_of, ed25519_pub_of, ed25519_public, random_bytes,
    siv_open, siv_seal, siv_sealed};
use crate::errors::VaultError;
use crate::hextext::{hex_parse, hex_render, lemma_hex_line_free, lemma_hex_round_trip, parse_hex,
    push_hex};
use crate::id::OwnId;
use crate::lines::{line_free, push_slice};
use crate::numtext::{dec_render, dec_value, dec_width, lemma_dec_round_trip,
    lemma_dec_width_bound, lemma_pow10_chain, parse_dec, push_dec, spec_dec_width, all_digits};

verus! {

/// The version of the locked-identity document this library writes and
/// accepts.
pub const CURRENT_VERSION: u32 = 1;

/// The Argon2 version the stored parameters speak of.
pub const PASS_VERSION: u32 = 19;

/// The default number of Argon2id passes when locking.
pub const DEFAULT_ITERATIONS: u32 = 24;

/// The default Argon2id memory cost in KiB when locking.
pub const DEFAULT_MEMORY_KIB: u32 = 4096;

/// The key-derivation parameters persisted beside a sealed key, so the
/// derivation is exactly reproducible.
#[derive(Debug)]
pub struct PassConfig {
    /// The Argon2 version the parameters speak of.
    pub version: u32,
    /// The Argon2 variant name; only `argon2id` is written and accepted.
    pub variant: Vec<u8>,
    /// The number of passes.
    pub iterations: u32,
    /// The memory cost in KiB.
    pub memory_size: u32,
    /// The stored salt.
    pub salt: Vec<u8>,
}

/// The persisted, passphrase-protected form of an identity.
#[derive(Debug)]
pub struct LockedId {
    /// The format version of the document.
    pub version: u32,
    /// The identity's claimed URL.
    pub url: Vec<u8>,
    /// The raw public key.
    pub public_key: Vec<u8>,
    /// The private seed, sealed under the passphrase-derived key.
    pub sealed_secret_key: Vec<u8>,
    /// The nonce the seal was made with.
    pub seal_nonce: Vec<u8>,
    /// The key-derivation parameters.
    pub pass: PassConfig,
}

/// The variant name `argon2id`.
pub open spec fn argon2id_name() -> Seq<u8> {
    seq![97u8, 114u8, 103u8, 111u8, 110u8, 50u8, 105u8, 100u8]
}

/// The variant name `argon2id` as bytes.
fn argon2id_name_v() -> (r: Vec<u8>)
    ensures
        r@ == argon2id_name(),
{
    let mut v: Vec<u8> = Vec::new();
    v.push(97);
    v.push(114);
    v.push(103);
    v.push(111);
    v.push(110);
    v.push(50);
    v.push(105);
    v.push(100);
    proof {
        assert(v@ =~= argon2id_name());
    }
    v
}

/// The key unlocking this document with this passphrase derives.
pub open spec fn unlock_key(l: LockedId, pass: Seq<u8>) -> Seq<u8> {
    argon2id_of(pass, l.pass.salt@, l.pass.iterations, l.pass.memory_size)
}

/// Stored parameters the key derivation can be re-run with.
pub open spec fn pass_config_usable(p: PassConfig) -> bool {
    &&& p.version == PASS_VERSION
    &&& p.variant@ == argon2id_name()
    &&& p.iterations >= 1
    &&& 8 <= p.memory_size <= 0x200000
    &&& 8 <= p.salt@.len() <= 1024
}

/// What locking guarantees: a fresh document of the current version whose
/// sealed key opens, under the stored parameters and this passphrase, to
/// exactly the identity's private seed.
pub open spec fn sealed_with(l: LockedId, own: OwnId, pass: Seq<u8>) -> bool {
    &&& l.version == CURRENT_VERSION
    &&& (match own.id.url {
        Some(u) => l.url@ == u@,
        None => false,
    })
    &&& l.public_key@ == own.id.id@
    &&& pass_config_usable(l.pass)
    &&& l.pass.iterations == DEFAULT_ITERATIONS
    &&& l.pass.memory_size == DEFAULT_MEMORY_KIB
    &&& l.pass.salt@.len() == 32
    &&& l.seal_nonce@.len() == 32
    &&& own.secret@.len() == 32
    &&& l.sealed_secret_key@ == siv_sealed(unlock_key(l, pass), l.seal_nonce@, own.secret@)
}

/// What unlocking reports.  The version is gated first, then the stored
/// parameters; with both usable, unlocking succeeds exactly when the
/// sealed key opens under the re-derived key to a 32-byte seed whose
/// public key matches the stored one.
pub open spec fn unlock_post(l: LockedId, pass: Seq<u8>, r: Result<OwnId, VaultError>) -> bool {
    &&& (r == Err::<OwnId, VaultError>(VaultError::UnsupportedVersion)
        <==> l.version != CURRENT_VERSION)
    &&& (l.version == CURRENT_VERSION
        ==> (r == Err::<OwnId, VaultError>(VaultError::KdfConfigInvalid)
            <==> !pass_config_usable(l.pass)))
    &&& (match r {
        Ok(own) => {
            &&& l.version == CURRENT_VERSION
            &&& pass_config_usable(l.pass)
            &&& own.secret@.len() == 32
            &&& l.sealed_secret_key@ == siv_sealed(unlock_key(l, pass), l.seal_nonce@,
                own.secret@)
            &&& own.id.id@ == ed25519_pub_of(own.secret@)
            &&& own.id.id@ == l.public_key@
            &&& (match own.id.url {
                Some(u) => u@ == l.url@,
                None => false,
            })
        },
        Err(_) => true,
    })
    &&& ((l.version == CURRENT_VERSION && pass_config_usable(l.pass)
        && exists|pt: Seq<u8>| pt.len() == 32
            && l.sealed_secret_key@ == #[trigger] siv_sealed(unlock_key(l, pass), l.seal_nonce@, pt)
            && ed25519_pub_of(pt) == l.public_key@) ==> r is Ok)
    &&& (r is Err ==> (r->Err_0 == VaultError::UnsupportedVersion
        || r->Err_0 == VaultError::KdfConfigInvalid
        || r->Err_0 == VaultError::AuthenticationFailed
        || r->Err_0 == VaultError::PublicKeyMismatch))
}

impl LockedId {
    /// Locks an identity: derives a key from the passphrase with a fresh
    /// random salt, seals the private seed under a fresh random nonce,
    /// and packages everything the unlock needs.
    pub fn from_own_id(own_id: &OwnId, passphrase: &[u8]) -> (r: LockedId)
        requires
            own_id.wf(),
            own_id.id.url is Some,
        ensures
            sealed_with(r, *own_id, passphrase@),
    {
        let salt = random_bytes(32);
        let nonce = random_bytes(32);
        let key = argon2id_derive(passphrase, salt.as_slice(), DEFAULT_ITERATIONS,
            DEFAULT_MEMORY_KIB);
        let sealed = siv_seal(key.as_slice(), nonce.as_slice(), own_id.secret.as_slice());
        let url = match &own_id.id.url {
            Some(u) => slice_to_vec(u.as_slice()),
            None => Vec::new(),
        };
        LockedId {
            version: CURRENT_VERSION,
            url,
            public_key: slice_to_vec(own_id.id.id.as_slice()),
            sealed_secret_key: sealed,
            seal_nonce: nonce,
            pass: PassConfig {
                version: PASS_VERSION,
                variant: argon2id_name_v(),
                iterations: DEFAULT_ITERATIONS,
                memory_size: DEFAULT_MEMORY_KIB,
                salt,
            },
        }
    }

    /// The public identity the document describes.
    pub fn to_pubid(&self) -> (r: crate::id::PubId)
        ensures
            r.id@ == self.public_key@,
            (match r.url {
                Some(u) => u@ == self.url@,
                None => false,
            }),
    {
        crate::id::PubId {
            id: slice_to_vec(self.public_key.as_slice()),
            url: Some(slice_to_vec(self.url.as_slice())),
        }
    }

    /// The stored public key in URL-safe base64.
    pub fn pub_key_as_base64(&self) -> (r: Vec<u8>)
        ensures
            r@ == crate::crypto::base64_of(self.public_key@),
    {
        crate::crypto::base64_encode(self.public_key.as_slice())
    }

    /// Unlocks the document: gates the version, validates the stored
    /// parameters, re-derives the key, opens the seal and cross-checks
    /// the recovered seed against the stored public key.
    pub fn to_unlocked(&self, passphrase: &[u8]) -> (r: Result<OwnId, VaultError>)
        ensures
            unlock_post(*self, passphrase@, r),
    {
        if self.version != CURRENT_VERSION {
            return Err(VaultError::UnsupportedVersion);
        }
        let variant_ok = crate::lines::bytes_eq(self.pass.variant.as_slice(),
            argon2id_name_v().as_slice());
        if !variant_ok || self.pass.version != PASS_VERSION || self.pass.iterations < 1
            || self.pass.memory_size < 8 || self.pass.memory_size > 0x200000
            || self.pass.salt.len() < 8 || self.pass.salt.len() > 1024 {
            return Err(VaultError::KdfConfigInvalid);
        }
        let key = argon2id_derive(passphrase, self.pass.salt.as_slice(), self.pass.iterations,
            self.pass.memory_size);
        let sec = match siv_open(key.as_slice(), self.seal_nonce.as_slice(),
            self.sealed_secret_key.as_slice()) {
            None => { return Err(VaultError::AuthenticationFailed); },
            Some(sec) => sec,
        };
        if sec.len() != 32 {
            return Err(VaultError::AuthenticationFailed);
        }
        let pubkey = ed25519_public(sec.as_slice());
        if !crate::lines::bytes_eq(pubkey.as_slice(), self.public_key.as_slice()) {
            return Err(VaultError::PublicKeyMismatch);
        }
        let url = Some(slice_to_vec(self.url.as_slice()));
        Ok(OwnId {
            id: crate::id::PubId { id: pubkey, url },
            secret: sec,
        })
    }
}

/// The vault round trip: unlocking a freshly locked identity with the
/// same passphrase succeeds and reconstructs an identity with the same
/// public key.
pub proof fn lemma_vault_round_trip(own: OwnId, pass: Seq<u8>, l: LockedId,
    r: Result<OwnId, VaultError>)
    requires
        own.wf(),
        sealed_with(l, own, pass),
        unlock_post(l, pass, r),
    ensures
        r is Ok,
        r->Ok_0.id.id@ == own.id.id@,
{
    assert(l.sealed_secret_key@ == siv_sealed(unlock_key(l, pass), l.seal_nonce@, own.secret@));
    assert(ed25519_pub_of(own.secret@) == l.public_key@);
}

/// The version gate: a document of another version fails before any
/// parameters are read or any cryptography runs.
pub proof fn lemma_version_gate(l: LockedId, pass: Seq<u8>, r: Result<OwnId, VaultError>)
    requires
        unlock_post(l, pass, r),
        l.version != CURRENT_VERSION,
    ensures
        r == Err::<OwnId, VaultError>(VaultError::UnsupportedVersion),
{
}


/// The `version:` field prefix of the locked document.
pub open spec fn dkey_version() -> Seq<u8> {
    seq![118u8, 101u8, 114u8, 115u8, 105u8, 111u8, 110u8, 58u8, 32u8]
}

/// The `url:` field prefix of the locked document.
pub open spec fn dkey_url() -> Seq<u8> {
    seq![117u8, 114u8, 108u8, 58u8, 32u8]
}

/// The `public-key:` field prefix of the locked document.
pub open spec fn dkey_public_key() -> Seq<u8> {
    seq![112u8, 117u8, 98u8, 108u8, 105u8, 99u8, 45u8, 107u8, 101u8, 121u8, 58u8, 32u8]
}

/// The `sealed-secret-key:` field prefix of the locked document.
pub open spec fn dkey_sealed_secret_key() -> Seq<u8> {
    seq![115u8, 101u8, 97u8, 108u8, 101u8, 100u8, 45u8, 115u8, 101u8, 99u8, 114u8, 101u8, 116u8, 45u8, 107u8, 101u8, 121u8, 58u8, 32u8]
}

/// The `seal-nonce:` field prefix of the locked document.
pub open spec fn dkey_seal_nonce() -> Seq<u8> {
    seq![115u8, 101u8, 97u8, 108u8, 45u8, 110u8, 111u8, 110u8, 99u8, 101u8, 58u8, 32u8]
}

/// The `pass-version:` field prefix of the locked document.
pub open spec fn dkey_pass_version() -> Seq<u8> {
    seq![112u8, 97u8, 115u8, 115u8, 45u8, 118u8, 101u8, 114u8, 115u8, 105u8, 111u8, 110u8, 58u8, 32u8]
}

/// The `pass-variant:` field prefix of the locked document.
pub open spec fn dkey_pass_variant() -> Seq<u8> {
    seq![112u8, 97u8, 115u8, 115u8, 45u8, 118u8, 97u8, 114u8, 105u8, 97u8, 110u8, 116u8, 58u8, 32u8]
}

/// The `pass-iterations:` field prefix of the locked document.
pub open spec fn dkey_pass_iterations() -> Seq<u8> {
    seq![112u8, 97u8, 115u8, 115u8, 45u8, 105u8, 116u8, 101u8, 114u8, 97u8, 116u8, 105u8, 111u8, 110u8, 115u8, 58u8, 32u8]
}

/// The `pass-memory-size:` field prefix of the locked document.
pub open spec fn dkey_pass_memory_size() -> Seq<u8> {
    seq![112u8, 97u8, 115u8, 115u8, 45u8, 109u8, 101u8, 109u8, 111u8, 114u8, 121u8, 45u8, 115u8, 105u8, 122u8, 101u8, 58u8, 32u8]
}

/// The `pass-salt:` field prefix of the locked document.
pub open spec fn dkey_pass_salt() -> Seq<u8> {
    seq![112u8, 97u8, 115u8, 115u8, 45u8, 115u8, 97u8, 108u8, 116u8, 58u8, 32u8]
}

/// The `version:` field prefix as bytes.
fn dkey_version_v() -> (r: Vec<u8>)
    ensures
        r@ == dkey_version(),
{
    let mut v: Vec<u8> = Vec::new();
    v.push(118);
    v.push(101);
    v.push(114);
    v.push(115);
    v.push(105);
    v.push(111);
    v.push(110);
    v.push(58);
    v.push(32);
    proof {
        assert(v@ =~= dkey_version());
    }
    v
}

/// The `url:` field prefix as bytes.
fn dkey_url_v() -> (r: Vec<u8>)
    ensures
        r@ == dkey_url(),
{
    let mut v: Vec<u8> = Vec::new();
    v.push(117);
    v.push(114);
    v.push(108);
    v.push(58);
    v.push(32);
    proof {
        assert(v@ =~= dkey_url());
    }
    v
}

/// The `public-key:` field prefix as bytes.
fn dkey_public_key_v() -> (r: Vec<u8>)
    ensures
        r@ == dkey_public_key(),
{
    let mut v: Vec<u8> = Vec::new();
    v.push(112);
    v.push(117);
    v.push(98);
    v.push(108);
    v.push(105);
    v.push(99);
    v.push(45);
    v.push(107);
    v.push(101);
    v.push(121);
    v.push(58);
    v.push(32);
    proof {
        assert(v@ =~= dkey_public_key());
    }
    v
}

/// The `sealed-secret-key:` field prefix as bytes.
fn dkey_sealed_secret_key_v() -> (r: Vec<u8>)
    ensures
        r@ == dkey_sealed_secret_key(),
{
    let mut v: Vec<u8> = Vec::new();
    v.push(115);
    v.push(101);
    v.push(97);
    v.push(108);
    v.push(101);
    v.push(100);
    v.push(45);
    v.push(115);
    v.push(101);
    v.push(99);
    v.push(114);
    v.push(101);
    v.push(116);
    v.push(45);
    v.push(107);
    v.push(101);
    v.push(121);
    v.push(58);
    v.push(32);
    proof {
        assert(v@ =~= dkey_sealed_secret_key());
    }
    v
}

/// The `seal-nonce:` field prefix as bytes.
fn dkey_seal_nonce_v() -> (r: Vec<u8>)
    ensures
        r@ == dkey_seal_nonce(),
{
    let mut v: Vec<u8> = Vec::new();
    v.push(115);
    v.push(101);
    v.push(97);
    v.push(108);
    v.push(45);
    v.push(110);
    v.push(111);
    v.push(110);
    v.push(99);
    v.push(101);
    v.push(58);
    v.push(32);
    proof {
        assert(v@ =~= dkey_seal_nonce());
    }
    v
}

/// The `pass-version:` field prefix as bytes.
fn dkey_pass_version_v() -> (r: Vec<u8>)
    ensures
        r@ == dkey_pass_version(),
{
    let mut v: Vec<u8> = Vec::new();
    v.push(112);
    v.push(97);
    v.push(115);
    v.push(115);
    v.push(45);
    v.push(118);
    v.push(101);
    v.push(114);
    v.push(115);
    v.push(105);
    v.push(111);
    v.push(110);
    v.push(58);
    v.push(32);
    proof {
        assert(v@ =~= dkey_pass_version());
    }
    v
}

/// The `pass-variant:` field prefix as bytes.
fn dkey_pass_variant_v() -> (r: Vec<u8>)
    ensures
        r@ == dkey_pass_variant(),
{
    let mut v: Vec<u8> = Vec::new();
    v.push(112);
    v.push(97);
    v.push(115);
    v.push(115);
    v.push(45);
    v.push(118);
    v.push(97);
    v.push(114);
    v.push(105);
    v.push(97);
    v.push(110);
    v.push(116);
    v.push(58);
    v.push(32);
    proof {
        assert(v@ =~= dkey_pass_variant());
    }
    v
}

/// The `pass-iterations:` field prefix as bytes.
fn dkey_pass_iterations_v() -> (r: Vec<u8>)
    ensures
        r@ == dkey_pass_iterations(),
{
    let mut v: Vec<u8> = Vec::new();
    v.push(112);
    v.push(97);
    v.push(115);
    v.push(115);
    v.push(45);
    v.push(105);
    v.push(116);
    v.push(101);
    v.push(114);
    v.push(97);
    v.push(116);
    v.push(105);
    v.push(111);
    v.push(110);
    v.push(115);
    v.push(58);
    v.push(32);
    proof {
        assert(v@ =~= dkey_pass_iterations());
    }
    v
}

/// The `pass-memory-size:` field prefix as bytes.
fn dkey_pass_memory_size_v() -> (r: Vec<u8>)
    ensures
        r@ == dkey_pass_memory_size(),
{
    let mut v: Vec<u8> = Vec::new();
    v.push(112);
    v.push(97);
    v.push(115);
    v.push(115);
    v.push(45);
    v.push(109);
    v.push(101);
    v.push(109);
    v.push(111);
    v.push(114);
    v.push(121);
    v.push(45);
    v.push(115);
    v.push(105);
    v.push(122);
    v.push(101);
    v.push(58);
    v.push(32);
    proof {
        assert(v@ =~= dkey_pass_memory_size());
    }
    v
}

/// The `pass-salt:` field prefix as bytes.
fn dkey_pass_salt_v() -> (r: Vec<u8>)
    ensures
        r@ == dkey_pass_salt(),
{
    let mut v: Vec<u8> = Vec::new();
    v.push(112);
    v.push(97);
    v.push(115);
    v.push(115);
    v.push(45);
    v.push(115);
    v.push(97);
    v.push(108);
    v.push(116);
    v.push(58);
    v.push(32);
    proof {
        assert(v@ =~= dkey_pass_salt());
    }
    v
}

/// None of the document's field prefixes holds a newline.
proof fn lemma_dkeys_line_free()
    ensures
        line_free(dkey_version()),
        line_free(dkey_url()),
        line_free(dkey_public_key()),
        line_free(dkey_sealed_secret_key()),
        line_free(dkey_seal_nonce()),
        line_free(dkey_pass_version()),
        line_free(dkey_pass_variant()),
        line_free(dkey_pass_iterations()),
        line_free(dkey_pass_memory_size()),
        line_free(dkey_pass_salt()),
{
    assert(forall|i: int| 0 <= i < dkey_version().len() ==> dkey_version()[i] != 10);
    assert(forall|i: int| 0 <= i < dkey_url().len() ==> dkey_url()[i] != 10);
    assert(forall|i: int| 0 <= i < dkey_public_key().len() ==> dkey_public_key()[i] != 10);
    assert(forall|i: int| 0 <= i < dkey_sealed_secret_key().len() ==> dkey_sealed_secret_key()[i] != 10);
    assert(forall|i: int| 0 <= i < dkey_seal_nonce().len() ==> dkey_seal_nonce()[i] != 10);
    assert(forall|i: int| 0 <= i < dkey_pass_version().len() ==> dkey_pass_version()[i] != 10);
    assert(forall|i: int| 0 <= i < dkey_pass_variant().len() ==> dkey_pass_variant()[i] != 10);
    assert(forall|i: int| 0 <= i < dkey_pass_iterations().len() ==> dkey_pass_iterations()[i] != 10);
    assert(forall|i: int| 0 <= i < dkey_pass_memory_size().len() ==> dkey_pass_memory_size()[i] != 10);
    assert(forall|i: int| 0 <= i < dkey_pass_salt().len() ==> dkey_pass_salt()[i] != 10);
}

/// The mathematical value of a [`LockedId`].
#[verifier::ext_equal]
pub struct LockedV {
    pub version: u32,
    pub url: Seq<u8>,
    pub public_key: Seq<u8>,
    pub sealed_secret_key: Seq<u8>,
    pub seal_nonce: Seq<u8>,
    pub pass_version: u32,
    pub variant: Seq<u8>,
    pub iterations: u32,
    pub memory_size: u32,
    pub salt: Seq<u8>,
}

impl View for LockedId {
    type V = LockedV;

    open spec fn view(&self) -> LockedV {
        LockedV {
            version: self.version,
            url: self.url@,
            public_key: self.public_key@,
            sealed_secret_key: self.sealed_secret_key@,
            seal_nonce: self.seal_nonce@,
            pass_version: self.pass.version,
            variant: self.pass.variant@,
            iterations: self.pass.iterations,
            memory_size: self.pass.memory_size,
            salt: self.pass.salt@,
        }
    }
}

/// A number as minimal-width decimal text.
pub open spec fn dec_text(n: u32) -> Seq<u8> {
    dec_render(n as nat, spec_dec_width(n as nat))
}

/// Which 32-bit number a decimal text denotes.
pub open spec fn parse_u32(v: Seq<u8>) -> Option<u32> {
    if 1 <= v.len() <= 10 && all_digits(v) && 0 <= dec_value(v) <= 0xFFFFFFFF {
        Some(dec_value(v) as u32)
    } else {
        None
    }
}

/// Minimal-width decimal text round-trips for 32-bit numbers.
proof fn lemma_dec_text_round_trip(n: u32)
    ensures
        parse_u32(dec_text(n)) == Some(n),
        line_free(dec_text(n)),
{
    lemma_pow10_chain();
    lemma_dec_width_bound(n as nat);
    lemma_dec_round_trip(n as nat, spec_dec_width(n as nat));
    crate::numtext::lemma_dec_width_le(n as nat, 10);
    assert(spec_dec_width(n as nat) >= 1);
    assert(line_free(dec_text(n))) by {
        if crate::lines::contains_byte(dec_text(n), 10) {
            let i = choose|i: int| 0 <= i < dec_text(n).len() && dec_text(n)[i] == 10;
            assert(crate::numtext::is_digit(dec_text(n)[i]));
        }
    }
}

/// The trailing key-derivation section of the persisted document.
pub open spec fn render_pass_section(pass_version: u32, variant: Seq<u8>, iterations: u32,
    memory_size: u32, salt: Seq<u8>) -> Seq<u8> {
    dkey_pass_version() + dec_text(pass_version) + seq![10u8]
        + dkey_pass_variant() + variant + seq![10u8]
        + dkey_pass_iterations() + dec_text(iterations) + seq![10u8]
        + dkey_pass_memory_size() + dec_text(memory_size) + seq![10u8]
        + dkey_pass_salt() + hex_render(salt) + seq![10u8]
}

/// The whole persisted document of a locked identity.
pub open spec fn render_locked(l: LockedV) -> Seq<u8> {
    dkey_version() + dec_text(l.version) + seq![10u8]
        + dkey_url() + l.url + seq![10u8]
        + dkey_public_key() + hex_render(l.public_key) + seq![10u8]
        + dkey_sealed_secret_key() + hex_render(l.sealed_secret_key) + seq![10u8]
        + dkey_seal_nonce() + hex_render(l.seal_nonce) + seq![10u8]
        + render_pass_section(l.pass_version, l.variant, l.iterations, l.memory_size, l.salt)
}

/// The key-derivation fields at the end of a document.
pub open spec fn parse_pass_section(s: Seq<u8>) -> Option<(u32, Seq<u8>, u32, u32, Seq<u8>)> {
    match parse_keyed(s, dkey_pass_version()) {
        None => None,
        Some(p6) => match parse_u32(p6.0) {
            None => None,
            Some(pass_version) => match parse_keyed(p6.1, dkey_pass_variant()) {
                None => None,
                Some(p7) => match parse_keyed(p7.1, dkey_pass_iterations()) {
                    None => None,
                    Some(p8) => match parse_u32(p8.0) {
                        None => None,
                        Some(iterations) => match parse_keyed(p8.1, dkey_pass_memory_size()) {
                            None => None,
                            Some(p9) => match parse_u32(p9.0) {
                                None => None,
                                Some(memory_size) => match parse_keyed(p9.1, dkey_pass_salt()) {
                                    None => None,
                                    Some(p10) => match hex_parse(p10.0) {
                                        None => None,
                                        Some(salt) => if p10.1.len() == 0 {
                                            Some((pass_version, p7.0, iterations, memory_size,
                                                salt))
                                        } else {
                                            None
                                        },
                                    },
                                },
                            },
                        },
                    },
                },
            },
        },
    }
}

/// The rendered key-derivation section parses back to its fields.
proof fn lemma_pass_section_round_trip(pass_version: u32, variant: Seq<u8>, iterations: u32,
    memory_size: u32, salt: Seq<u8>)
    requires
        line_free(variant),
    ensures
        parse_pass_section(render_pass_section(pass_version, variant, iterations, memory_size,
            salt)) == Some::<(u32, Seq<u8>, u32, u32, Seq<u8>)>(
                (pass_version, variant, iterations, memory_size, salt)),
{
    lemma_dkeys_line_free();
    lemma_dec_text_round_trip(pass_version);
    lemma_dec_text_round_trip(iterations);
    lemma_dec_text_round_trip(memory_size);
    lemma_hex_line_free(salt);
    lemma_hex_round_trip(salt);
    let sa = dkey_pass_salt() + hex_render(salt) + seq![10u8];
    let sm = dkey_pass_memory_size() + dec_text(memory_size) + seq![10u8] + sa;
    let si = dkey_pass_iterations() + dec_text(iterations) + seq![10u8] + sm;
    let sv = dkey_pass_variant() + variant + seq![10u8] + si;
    let sp = dkey_pass_version() + dec_text(pass_version) + seq![10u8] + sv;
    assert(render_pass_section(pass_version, variant, iterations, memory_size, salt) =~= sp);
    lemma_parse_keyed_render(dkey_pass_version(), dec_text(pass_version), sv);
    lemma_parse_keyed_render(dkey_pass_variant(), variant, si);
    lemma_parse_keyed_render(dkey_pass_iterations(), dec_text(iterations), sm);
    lemma_parse_keyed_render(dkey_pass_memory_size(), dec_text(memory_size), sa);
    lemma_parse_keyed_render(dkey_pass_salt(), hex_render(salt), Seq::<u8>::empty());
    assert(sa =~= dkey_pass_salt() + hex_render(salt) + seq![10u8] + Seq::<u8>::empty());
}

/// Which locked identity, if any, a document text denotes.
pub open spec fn parse_locked(s: Seq<u8>) -> Option<LockedV> {
    match parse_keyed(s, dkey_version()) {
        None => None,
        Some(p1) => match parse_u32(p1.0) {
            None => None,
            Some(version) => match parse_keyed(p1.1, dkey_url()) {
                None => None,
                Some(p2) => match parse_keyed(p2.1, dkey_public_key()) {
                    None => None,
                    Some(p3) => match hex_parse(p3.0) {
                        None => None,
                        Some(public_key) => match parse_keyed(p3.1, dkey_sealed_secret_key()) {
                            None => None,
                            Some(p4) => match hex_parse(p4.0) {
                                None => None,
                                Some(sealed) => match parse_keyed(p4.1, dkey_seal_nonce()) {
                                    None => None,
                                    Some(p5) => match hex_parse(p5.0) {
                                        None => None,
                                        Some(nonce) => match parse_pass_section(p5.1) {
                                            None => None,
                                            Some(q) => Some(LockedV {
                                                version,
                                                url: p2.0,
                                                public_key,
                                                sealed_secret_key: sealed,
                                                seal_nonce: nonce,
                                                pass_version: q.0,
                                                variant: q.1,
                                                iterations: q.2,
                                                memory_size: q.3,
                                                salt: q.4,
                                            }),
                                        },
                                    },
                                },
                            },
                        },
                    },
                },
            },
        },
    }
}

/// A document whose free-text fields can stand on their lines.
pub open spec fn doc_wf(l: LockedV) -> bool {
    &&& line_free(l.url)
    &&& line_free(l.variant)
}

/// The locked-document round trip: rendering any well-formed locked
/// identity and parsing the text gives the same value back.
#[verifier::rlimit(100)]
pub proof fn lemma_locked_doc_round_trip(l: LockedV)
    requires
        doc_wf(l),
    ensures
        parse_locked(render_locked(l)) == Some(l),
{
    lemma_dkeys_line_free();
    lemma_dec_text_round_trip(l.version);
    lemma_hex_line_free(l.public_key);
    lemma_hex_line_free(l.sealed_secret_key);
    lemma_hex_line_free(l.seal_nonce);
    lemma_hex_round_trip(l.public_key);
    lemma_hex_round_trip(l.sealed_secret_key);
    lemma_hex_round_trip(l.seal_nonce);
    lemma_pass_section_round_trip(l.pass_version, l.variant, l.iterations, l.memory_size,
        l.salt);
    let sp = render_pass_section(l.pass_version, l.variant, l.iterations, l.memory_size,
        l.salt);
    let sn = dkey_seal_nonce() + hex_render(l.seal_nonce) + seq![10u8] + sp;
    let ss = dkey_sealed_secret_key() + hex_render(l.sealed_secret_key) + seq![10u8] + sn;
    let sk = dkey_public_key() + hex_render(l.public_key) + seq![10u8] + ss;
    let su = dkey_url() + l.url + seq![10u8] + sk;
    let s0 = dkey_version() + dec_text(l.version) + seq![10u8] + su;
    assert(render_locked(l) =~= s0);
    lemma_parse_keyed_render(dkey_version(), dec_text(l.version), su);
    lemma_parse_keyed_render(dkey_url(), l.url, sk);
    lemma_parse_keyed_render(dkey_public_key(), hex_render(l.public_key), ss);
    lemma_parse_keyed_render(dkey_sealed_secret_key(), hex_render(l.sealed_secret_key), sn);
    lemma_parse_keyed_render(dkey_seal_nonce(), hex_render(l.seal_nonce), sp);
    assert(parse_locked(render_locked(l))->Some_0 =~= l);
}

/// Appends the key-derivation section of the document.
#[verifier::rlimit(100)]
fn push_pass_section(v: &mut Vec<u8>, p: &PassConfig)
    ensures
        final(v)@ == old(v)@ + render_pass_section(p.version, p.variant@, p.iterations,
            p.memory_size, p.salt@),
{
    let k = dkey_pass_version_v();
    push_slice(v, k.as_slice());
    push_dec(v, p.version as u64, dec_width(p.version as u64));
    v.push(10);
    let k = dkey_pass_variant_v();
    push_slice(v, k.as_slice());
    push_slice(v, p.variant.as_slice());
    v.push(10);
    let k = dkey_pass_iterations_v();
    push_slice(v, k.as_slice());
    push_dec(v, p.iterations as u64, dec_width(p.iterations as u64));
    v.push(10);
    let k = dkey_pass_memory_size_v();
    push_slice(v, k.as_slice());
    push_dec(v, p.memory_size as u64, dec_width(p.memory_size as u64));
    v.push(10);
    let k = dkey_pass_salt_v();
    push_slice(v, k.as_slice());
    push_hex(v, p.salt.as_slice());
    v.push(10);
    proof {
        assert(v@ =~= old(v)@ + render_pass_section(p.version, p.variant@, p.iterations,
            p.memory_size, p.salt@));
    }
}

impl LockedId {
    /// The persisted document text.
    #[verifier::rlimit(100)]
    pub fn render(&self) -> (r: Vec<u8>)
        ensures
            r@ == render_locked(self@),
    {
        let mut v: Vec<u8> = Vec::new();
        let k = dkey_version_v();
        push_slice(&mut v, k.as_slice());
        push_dec(&mut v, self.version as u64, dec_width(self.version as u64));
        v.push(10);
        let k = dkey_url_v();
        push_slice(&mut v, k.as_slice());
        push_slice(&mut v, self.url.as_slice());
        v.push(10);
        let k = dkey_public_key_v();
        push_slice(&mut v, k.as_slice());
        push_hex(&mut v, self.public_key.as_slice());
        v.push(10);
        let k = dkey_sealed_secret_key_v();
        push_slice(&mut v, k.as_slice());
        push_hex(&mut v, self.sealed_secret_key.as_slice());
        v.push(10);
        let k = dkey_seal_nonce_v();
        push_slice(&mut v, k.as_slice());
        push_hex(&mut v, self.seal_nonce.as_slice());
        v.push(10);
        push_pass_section(&mut v, &self.pass);
        proof {
            assert(v@ =~= render_locked(self@));
        }
        v
    }

    /// Parses a persisted document, exactly as [`parse_locked`] says.
    pub fn parse(s: &[u8]) -> (r: Result<LockedId, VaultError>)
        ensures
            match r {
                Ok(l) => parse_locked(s@) == Some(l@),
                Err(e) => parse_locked(s@) is None && e == VaultError::MalformedDocument,
            },
    {
        proof {
            assert(s@.skip(0) =~= s@);
        }
        let kd = dkey_version_v();
        let (v1, p1) = match crate::content::parse_keyed_line(s, 0, kd.as_slice()) {
            None => { return Err(VaultError::MalformedDocument); },
            Some(x) => x,
        };
        let version = match parse_u32_exec(v1.as_slice()) {
            None => { return Err(VaultError::MalformedDocument); },
            Some(n) => n,
        };
        let kd = dkey_url_v();
        let (url, p2) = match crate::content::parse_keyed_line(s, p1, kd.as_slice()) {
            None => { return Err(VaultError::MalformedDocument); },
            Some(x) => x,
        };
        let kd = dkey_public_key_v();
        let (v3, p3) = match crate::content::parse_keyed_line(s, p2, kd.as_slice()) {
            None => { return Err(VaultError::MalformedDocument); },
            Some(x) => x,
        };
        let public_key = match parse_hex(v3.as_slice()) {
            None => { return Err(VaultError::MalformedDocument); },
            Some(b) => b,
        };
        let kd = dkey_sealed_secret_key_v();
        let (v4, p4) = match crate::content::parse_keyed_line(s, p3, kd.as_slice()) {
            None => { return Err(VaultError::MalformedDocument); },
            Some(x) => x,
        };
        let sealed_secret_key = match parse_hex(v4.as_slice()) {
            None => { return Err(VaultError::MalformedDocument); },
            Some(b) => b,
        };
        let kd = dkey_seal_nonce_v();
        let (v5, p5) = match crate::content::parse_keyed_line(s, p4, kd.as_slice()) {
            None => { return Err(VaultError::MalformedDocument); },
            Some(x) => x,
        };
        let seal_nonce = match parse_hex(v5.as_slice()) {
            None => { return Err(VaultError::MalformedDocument); },
            Some(b) => b,
        };
        let kd = dkey_pass_version_v();
        let (v6, p6) = match crate::content::parse_keyed_line(s, p5, kd.as_slice()) {
            None => { return Err(VaultError::MalformedDocument); },
            Some(x) => x,
        };
        let pass_version = match parse_u32_exec(v6.as_slice()) {
            None => { return Err(VaultError::MalformedDocument); },
            Some(n) => n,
        };
        let kd = dkey_pass_variant_v();
        let (variant, p7) = match crate::content::parse_keyed_line(s, p6, kd.as_slice()) {
            None => { return Err(VaultError::MalformedDocument); },
            Some(x) => x,
        };
        let kd = dkey_pass_iterations_v();
        let (v8, p8) = match crate::content::parse_keyed_line(s, p7, kd.as_slice()) {
            None => { return Err(VaultError::MalformedDocument); },
            Some(x) => x,
        };
        let iterations = match parse_u32_exec(v8.as_slice()) {
            None => { return Err(VaultError::MalformedDocument); },
            Some(n) => n,
        };
        let kd = dkey_pass_memory_size_v();
        let (v9, p9) = match crate::content::parse_keyed_line(s, p8, kd.as_slice()) {
            None => { return Err(VaultError::MalformedDocument); },
            Some(x) => x,
        };
        let memory_size = match parse_u32_exec(v9.as_slice()) {
            None => { return Err(VaultError::MalformedDocument); },
            Some(n) => n,
        };
        let kd = dkey_pass_salt_v();
        let (v10, p10) = match crate::content::parse_keyed_line(s, p9, kd.as_slice()) {
            None => { return Err(VaultError::MalformedDocument); },
            Some(x) => x,
        };
        let salt = match parse_hex(v10.as_slice()) {
            None => { return Err(VaultError::MalformedDocument); },
            Some(b) => b,
        };
        if p10 != s.len() {
            proof {
                assert(s@.skip(p10 as int).len() > 0);
            }
            return Err(VaultError::MalformedDocument);
        }
        proof {
            assert(s@.skip(p10 as int).len() == 0);
        }
        Ok(LockedId {
            version,
            url,
            public_key,
            sealed_secret_key,
            seal_nonce,
            pass: PassConfig {
                version: pass_version,
                variant,
                iterations,
                memory_size,
                salt,
            },
        })
    }
}

/// Parses a 32-bit decimal field value, exactly as [`parse_u32`] says.
fn parse_u32_exec(v: &[u8]) -> (r: Option<u32>)
    ensures
        r == parse_u32(v@),
{
    match parse_dec(v) {
        None => None,
        Some(n) => if n <= 0xFFFFFFFF {
            Some(n as u32)
        } else {
            None
        },
    }
}

} // verus!
