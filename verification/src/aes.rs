//! AES-256-GCM encryption and decryption bound to one connection's key and
//! nonce.
//!
//! The nonce is fixed for a connection's whole lifetime and reused for every
//! frame on it, as the wire format prescribes. For AES-GCM this breaks the
//! single-use-nonce requirement as soon as a connection carries a second
//! frame; it is kept for wire compatibility, not as a feature.

use vstd::prelude::*;

use aes_gcm::aead::Aead;
use aes_gcm::KeyInit;

use crate::fail::Fail;

verus! {

/// The longest plaintext AES-GCM encrypts: 2^36 - 32 bytes.
pub const GCM_PLAIN_MAX: u64 = 0xf_ffff_ffe0;

/// What AES-256-GCM encryption makes of a key, nonce and plaintext:
/// ciphertext with the 16-byte authentication tag appended.
pub uninterp spec fn gcm_enc(key: Seq<u8>, nonce: Seq<u8>, plain: Seq<u8>) -> Seq<u8>;

/// What AES-256-GCM decryption makes of a key, nonce and ciphertext: the
/// authenticated plaintext, or nothing when the tag does not verify.
pub uninterp spec fn gcm_dec(key: Seq<u8>, nonce: Seq<u8>, cipher: Seq<u8>) -> Option<Seq<u8>>;

/// Encrypts `plain` under a 32-byte key and 12-byte nonce.
///
/// Relies on aes_gcm's `Aes256Gcm`: deterministic in key, nonce and
/// plaintext; the result is the ciphertext with the 16-byte tag appended,
/// and decrypting it under the same key and nonce yields the plaintext;
/// succeeds on every plaintext up to the GCM length limit of 2^36 - 32
/// bytes and fails only beyond it.
#[verifier::external_body]
fn gcm_encrypt(key: &[u8], nonce: &[u8], plain: &[u8]) -> (r: Option<Vec<u8>>)
    requires
        key@.len() == 32,
        nonce@.len() == 12,
    ensures
        plain@.len() <= GCM_PLAIN_MAX ==> r is Some,
        r matches Some(c) ==> c@ == gcm_enc(key@, nonce@, plain@) && c@.len() == plain@.len() + 16
            && gcm_dec(key@, nonce@, c@) == Some(plain@),
{
    let cipher = aes_gcm::Aes256Gcm::new_from_slice(key).ok()?;
    let nonce = aes_gcm::Nonce::try_from(nonce).ok()?;
    cipher.encrypt(&nonce, plain).ok()
}

/// Decrypts and verifies `data` under a 32-byte key and 12-byte nonce.
///
/// Relies on aes_gcm's `Aes256Gcm`: deterministic in key, nonce and
/// ciphertext; yields the plaintext the ciphertext authenticates, and fails
/// exactly where GCM rejects it (tag mismatch or over-long input).
#[verifier::external_body]
fn gcm_decrypt(key: &[u8], nonce: &[u8], data: &[u8]) -> (r: Option<Vec<u8>>)
    requires
        key@.len() == 32,
        nonce@.len() == 12,
    ensures
        match r {
            Some(p) => gcm_dec(key@, nonce@, data@) == Some(p@),
            None => gcm_dec(key@, nonce@, data@) is None,
        },
{
    let cipher = aes_gcm::Aes256Gcm::new_from_slice(key).ok()?;
    let nonce = aes_gcm::Nonce::try_from(nonce).ok()?;
    cipher.decrypt(&nonce, data).ok()
}

/// One connection's cipher state: the shared 32-byte key and the 12-byte
/// nonce fixed at the handshake.
pub struct Crypter {
    key: Vec<u8>,
    nonce: Vec<u8>,
}

impl Crypter {
    /// The key bytes.
    pub closed spec fn spec_key(&self) -> Seq<u8> {
        self.key@
    }

    /// The nonce bytes.
    pub closed spec fn spec_nonce(&self) -> Seq<u8> {
        self.nonce@
    }

    /// A well-formed crypter: 32-byte key, 12-byte nonce.
    pub open spec fn wf(&self) -> bool {
        self.spec_key().len() == 32 && self.spec_nonce().len() == 12
    }

    /// Binds a key and nonce into a crypter, rejecting wrong lengths.
    pub fn new(key: Vec<u8>, nonce: Vec<u8>) -> (r: Result<Crypter, Fail>)
        ensures
            r is Ok <==> (key@.len() == 32 && nonce@.len() == 12),
            r matches Ok(c) ==> c.wf() && c.spec_key() == key@ && c.spec_nonce() == nonce@,
            key@.len() != 32 ==> r == Err::<Crypter, Fail>(Fail::BadKey),
            key@.len() == 32 && nonce@.len() != 12 ==> r == Err::<Crypter, Fail>(Fail::BadNonce),
    {
        if key.len() != 32 {
            Err(Fail::BadKey)
        } else if nonce.len() != 12 {
            Err(Fail::BadNonce)
        } else {
            Ok(Crypter { key, nonce })
        }
    }

    /// The key, for deriving a fresh connection to the same peer.
    pub fn key(&self) -> (r: &Vec<u8>)
        ensures
            r@ == self.spec_key(),
    {
        &self.key
    }

    /// The nonce fixed at the handshake.
    pub fn nonce(&self) -> (r: &Vec<u8>)
        ensures
            r@ == self.spec_nonce(),
    {
        &self.nonce
    }

    /// Encrypts `data` under this connection's key and nonce: the tagged
    /// ciphertext, and decrypting it under the same crypter gives `data`
    /// back. Succeeds on every plaintext up to the GCM length limit.
    pub fn encrypt(&self, data: &[u8]) -> (r: Result<Vec<u8>, Fail>)
        requires
            self.wf(),
        ensures
            data@.len() <= GCM_PLAIN_MAX ==> r is Ok,
            r matches Ok(c) ==> c@ == gcm_enc(self.spec_key(), self.spec_nonce(), data@)
                && c@.len() == data@.len() + 16 && gcm_dec(self.spec_key(), self.spec_nonce(), c@)
                == Some(data@),
            r is Err ==> r == Err::<Vec<u8>, Fail>(Fail::Encrypt),
    {
        match gcm_encrypt(self.key.as_slice(), self.nonce.as_slice(), data) {
            Some(c) => Ok(c),
            None => Err(Fail::Encrypt),
        }
    }

    /// Decrypts and verifies `data` under this connection's key and nonce;
    /// a tampered or foreign ciphertext is rejected, never misread.
    pub fn decrypt(&self, data: &[u8]) -> (r: Result<Vec<u8>, Fail>)
        requires
            self.wf(),
        ensures
            r matches Ok(p) ==> gcm_dec(self.spec_key(), self.spec_nonce(), data@) == Some(p@),
            r is Err ==> r == Err::<Vec<u8>, Fail>(Fail::Decrypt) && gcm_dec(
                self.spec_key(),
                self.spec_nonce(),
                data@,
            ) is None,
    {
        match gcm_decrypt(self.key.as_slice(), self.nonce.as_slice(), data) {
            Some(p) => Ok(p),
            None => Err(Fail::Decrypt),
        }
    }
}

} // verus!
