//! Identities: a public identity is its Ed25519 public key with an optional
//! claimed URL; an owning identity also holds the private seed.

use vstd::prelude::*;

use crate::crypto::{base64_encode, base64_of, ed25519_pub_of, ed25519_public, ed25519_sig_of,
    ed25519_sign, random_bytes};
use crate::lines::line_free;

verus! {

/// A public identity: the raw 32-byte public key and an optional URL.
#[derive(Clone, Debug)]
pub struct PubId {
    /// The raw Ed25519 public key; it doubles as the identity fingerprint.
    pub id: Vec<u8>,
    /// The claimed URL, when one was given.
    pub url: Option<Vec<u8>>,
}

impl PubId {
    /// A usable public identity: a 32-byte key, and text fields that can
    /// stand on one line of the canonical formats.
    pub open spec fn wf(self) -> bool {
        &&& self.id@.len() == 32
        &&& match self.url {
            Some(u) => line_free(u@) && u@.len() > 0,
            None => true,
        }
    }

    /// Builds a public identity from its raw parts.
    pub fn new(id: Vec<u8>, url: Option<Vec<u8>>) -> (r: PubId)
        ensures
            r.id == id,
            r.url == url,
    {
        PubId { id, url }
    }

    /// An equal-valued copy.
    pub fn duplicate(&self) -> (r: PubId)
        ensures
            r.id@ == self.id@,
            (match r.url {
                Some(u) => Some(u@),
                None => None::<Seq<u8>>,
            }) == (match self.url {
                Some(u) => Some(u@),
                None => None::<Seq<u8>>,
            }),
            self.wf() ==> r.wf(),
    {
        let url = match &self.url {
            Some(u) => Some(vstd::slice::slice_to_vec(u.as_slice())),
            None => None,
        };
        PubId { id: vstd::slice::slice_to_vec(self.id.as_slice()), url }
    }

    /// The public key in URL-safe base64, the usual display form.
    pub fn pub_key_as_base64(&self) -> (r: Vec<u8>)
        ensures
            r@ == base64_of(self.id@),
    {
        base64_encode(self.id.as_slice())
    }
}

/// An owning identity: a public identity together with the 32-byte private
/// seed it exclusively owns.
#[derive(Debug)]
pub struct OwnId {
    pub id: PubId,
    /// The raw Ed25519 seed.
    pub secret: Vec<u8>,
}

impl OwnId {
    /// The key material is consistent: the stored public key is the one
    /// the seed derives.
    pub open spec fn wf(self) -> bool {
        &&& self.id.wf()
        &&& self.secret@.len() == 32
        &&& self.id.id@ == ed25519_pub_of(self.secret@)
    }

    /// Builds the owning identity of a 32-byte seed, deriving its public key.
    pub fn new(url: Option<Vec<u8>>, secret: Vec<u8>) -> (r: Result<OwnId, ()>)
        ensures
            match r {
                Ok(own) => secret@.len() == 32
                    && own.secret == secret
                    && own.id.url == url
                    && own.id.id@ == ed25519_pub_of(secret@)
                    && ((match url {
                        Some(u) => line_free(u@) && u@.len() > 0,
                        None => true,
                    }) ==> own.wf()),
                Err(()) => secret@.len() != 32,
            },
    {
        if secret.len() != 32 {
            return Err(());
        }
        let pubkey = ed25519_public(secret.as_slice());
        Ok(OwnId { id: PubId { id: pubkey, url }, secret })
    }

    /// Generates a fresh identity from random key material.
    pub fn generate(url: Option<Vec<u8>>) -> (r: OwnId)
        ensures
            r.secret@.len() == 32,
            r.id.url == url,
            r.id.id@ == ed25519_pub_of(r.secret@),
            (match url {
                Some(u) => line_free(u@) && u@.len() > 0,
                None => true,
            }) ==> r.wf(),
    {
        let secret = random_bytes(32);
        let pubkey = ed25519_public(secret.as_slice());
        OwnId { id: PubId { id: pubkey, url }, secret }
    }

    /// Signs `msg` with the private seed.
    pub fn sign(&self, msg: &[u8]) -> (r: Vec<u8>)
        requires
            self.wf(),
        ensures
            r@ == ed25519_sig_of(self.secret@, msg@),
            r@.len() == 64,
            crate::crypto::ed25519_verifies(self.id.id@, msg@, r@),
    {
        ed25519_sign(self.secret.as_slice(), msg)
    }
}

} // verus!
