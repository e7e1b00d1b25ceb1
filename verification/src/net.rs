//! The encrypted framed transport: handshake derivation and the frame codec.
//!
//! On the wire, a connection starts with 12 plaintext nonce bytes from the
//! initiator; every message after that is one frame: an 8-byte big-endian
//! ciphertext length, then the tagged ciphertext. The I/O layer outside this
//! crate moves the bytes; the functions here produce and consume them.

use vstd::prelude::*;

use crate::aes::{gcm_dec, gcm_enc, Crypter, GCM_PLAIN_MAX};
use crate::fail::Fail;
use crate::rng;
use crate::wire;
use crate::wire::{be_bytes, be_val, pow256};

verus! {

/// The frame that carries ciphertext `ct`: 8-byte big-endian length, then
/// the ciphertext.
pub open spec fn spec_frame(ct: Seq<u8>) -> Seq<u8> {
    be_bytes(ct.len(), 8) + ct
}

/// Splits one complete frame off the head of a byte stream: the ciphertext
/// and whatever follows it; nothing when the stream does not yet hold a
/// whole frame.
pub open spec fn spec_take_frame(b: Seq<u8>) -> Option<(Seq<u8>, Seq<u8>)> {
    if b.len() >= 8 && be_val(b.take(8)) + 8 <= b.len() {
        let l = be_val(b.take(8)) as int;
        Some((b.subrange(8, 8 + l), b.subrange(8 + l, b.len() as int)))
    } else {
        None
    }
}

/// Framing round trip: a frame written for `ct`, followed by any further
/// stream bytes, reads back as exactly `ct` followed by those bytes.
pub proof fn lemma_take_frame_of_frame(ct: Seq<u8>, rest: Seq<u8>)
    requires
        ct.len() < pow256(8),
    ensures
        spec_take_frame(spec_frame(ct) + rest) == Some((ct, rest)),
{
    let b = spec_frame(ct) + rest;
    wire::lemma_be_bytes_len(ct.len(), 8);
    assert(b.take(8) =~= be_bytes(ct.len(), 8));
    wire::lemma_be_val_be_bytes(ct.len(), 8);
    let l = ct.len() as int;
    assert(b.subrange(8, 8 + l) =~= ct);
    assert(b.subrange(8 + l, b.len() as int) =~= rest);
}

/// Opens a connection as the initiator: draws a fresh random 12-byte nonce,
/// which the caller writes to the peer unencrypted, and binds it with the
/// shared key into the connection's crypter.
pub fn handshake_initiator(key: &Vec<u8>) -> (r: Result<(Crypter, Vec<u8>), Fail>)
    ensures
        r is Ok <==> key@.len() == 32,
        r matches Ok((c, n)) ==> c.wf() && c.spec_key() == key@ && c.spec_nonce() == n@ && n@.len()
            == 12,
        r is Err ==> r == Err::<(Crypter, Vec<u8>), Fail>(Fail::BadKey),
{
    let nonce = rng::random(12);
    let sent = nonce.clone();
    match Crypter::new(key.clone(), nonce) {
        Ok(c) => Ok((c, sent)),
        Err(e) => Err(Fail::BadKey),
    }
}

/// Opens a connection as the acceptor: binds the 12 nonce bytes read from
/// the peer with the shared key into the connection's crypter.
pub fn handshake_acceptor(key: &Vec<u8>, nonce: Vec<u8>) -> (r: Result<Crypter, Fail>)
    ensures
        r is Ok <==> (key@.len() == 32 && nonce@.len() == 12),
        r matches Ok(c) ==> c.wf() && c.spec_key() == key@ && c.spec_nonce() == nonce@,
{
    Crypter::new(key.clone(), nonce)
}

/// Encrypts `payload` and wraps it as one frame: the bytes to write, whole,
/// to the stream. Succeeds on every payload up to the GCM length limit and
/// fails only where the cipher refuses the plaintext.
pub fn encode_frame(crypt: &Crypter, payload: &[u8]) -> (r: Result<Vec<u8>, Fail>)
    requires
        crypt.wf(),
    ensures
        payload@.len() <= GCM_PLAIN_MAX ==> r is Ok,
        r matches Ok(f) ==> f@ == spec_frame(gcm_enc(crypt.spec_key(), crypt.spec_nonce(), payload@))
            && gcm_dec(
            crypt.spec_key(),
            crypt.spec_nonce(),
            gcm_enc(crypt.spec_key(), crypt.spec_nonce(), payload@),
        ) == Some(payload@),
        r is Err ==> r == Err::<Vec<u8>, Fail>(Fail::Encrypt),
{
    let ct = match crypt.encrypt(payload) {
        Ok(ct) => ct,
        Err(e) => {
            return Err(e);
        },
    };
    let mut f = wire::u64_to_be(ct.len() as u64);
    f.extend_from_slice(ct.as_slice());
    proof {
        assert(f@ =~= spec_frame(ct@));
    }
    Ok(f)
}

/// Reads a frame's 8-byte length prefix: how many ciphertext bytes follow.
pub fn frame_len(header: &[u8]) -> (r: u64)
    requires
        header@.len() == 8,
    ensures
        r == be_val(header@),
{
    wire::u64_from_be(header)
}

/// Decrypts the ciphertext of one frame, read whole from the stream. An
/// error means the frame was tampered with or belongs to another key or
/// nonce; such a connection is dead.
pub fn decrypt_frame(crypt: &Crypter, ct: &[u8]) -> (r: Result<Vec<u8>, Fail>)
    requires
        crypt.wf(),
    ensures
        r matches Ok(p) ==> gcm_dec(crypt.spec_key(), crypt.spec_nonce(), ct@) == Some(p@),
        r is Err ==> r == Err::<Vec<u8>, Fail>(Fail::Decrypt) && gcm_dec(
            crypt.spec_key(),
            crypt.spec_nonce(),
            ct@,
        ) is None,
{
    crypt.decrypt(ct)
}

} // verus!
