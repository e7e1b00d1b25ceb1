//! The cipher, the digests and the token generator, run against the real
//! crates.

use wu::aes::Crypter;
use wu::fail::Fail;
use wu::pwhash::{argon2_hash, argon2_verify};
use wu::rng::{random, random_an};
use wu::sha::{hash, hash_password};
use wu::web;

fn key_a() -> Vec<u8> {
    vec![7u8; 32]
}

fn key_b() -> Vec<u8> {
    vec![8u8; 32]
}

fn nonce_a() -> Vec<u8> {
    vec![1u8; 12]
}

#[test]
fn aes_round_trip() {
    let c = Crypter::new(key_a(), nonce_a()).unwrap();
    let payload = b"attack at dawn".to_vec();
    let ct = c.encrypt(&payload).unwrap();
    assert_eq!(ct.len(), payload.len() + 16);
    let pt = c.decrypt(&ct).unwrap();
    assert_eq!(pt, payload);
}

#[test]
fn aes_empty_round_trip() {
    let c = Crypter::new(key_a(), nonce_a()).unwrap();
    let ct = c.encrypt(&[]).unwrap();
    assert_eq!(ct.len(), 16);
    assert_eq!(c.decrypt(&ct).unwrap(), Vec::<u8>::new());
}

#[test]
fn aes_wrong_key_fails() {
    let c = Crypter::new(key_a(), nonce_a()).unwrap();
    let other = Crypter::new(key_b(), nonce_a()).unwrap();
    let ct = c.encrypt(b"secret").unwrap();
    assert_eq!(other.decrypt(&ct), Err(Fail::Decrypt));
}

#[test]
fn aes_tampered_fails() {
    let c = Crypter::new(key_a(), nonce_a()).unwrap();
    let mut ct = c.encrypt(b"secret").unwrap();
    ct[0] ^= 1;
    assert_eq!(c.decrypt(&ct), Err(Fail::Decrypt));
}

#[test]
fn crypter_rejects_bad_lengths() {
    assert!(matches!(Crypter::new(vec![0u8; 31], nonce_a()), Err(Fail::BadKey)));
    assert!(matches!(Crypter::new(key_a(), vec![0u8; 11]), Err(Fail::BadNonce)));
}

#[test]
fn sha3_known_vector() {
    assert_eq!(
        hash(b""),
        "a7ffc6f8bf1ed76651c14756a061d662f580ff4de43b49fa82d80a4b80f8434a"
    );
}

#[test]
fn hash_password_known_vector() {
    assert_eq!(
        hash_password(b"admin", b"admin"),
        "86869f63a17d5838fd12cdbe0b944786d7a997ad9171b97095841ca4928f24b7"
    );
    assert_eq!(
        web::hash_password("admin", "admin"),
        "86869f63a17d5838fd12cdbe0b944786d7a997ad9171b97095841ca4928f24b7"
    );
}

#[test]
fn str_codecs() {
    assert_eq!(web::str_encode("test"), "74657374");
    assert_eq!(web::str_decode("74657374"), "test");
    assert_eq!(web::str_decode(&web::str_encode("round trip")), "round trip");
}

#[test]
fn argon2_round_trip() {
    let encoded = argon2_hash(b"password", b"somesalt").unwrap();
    assert!(argon2_verify(&encoded, b"password"));
    assert!(!argon2_verify(&encoded, b"wrong"));
    assert!(!argon2_verify("not an encoded hash", b"password"));
}

#[test]
fn argon2_rejects_short_salt() {
    assert_eq!(argon2_hash(b"password", b"salt"), Err(Fail::Hash));
}

#[test]
fn web_argon2_hash_verifies() {
    let encoded = web::argon2_hash("admin", "admin");
    let digest = web::hash_password("admin", "admin");
    assert!(argon2_verify(&encoded, digest.as_bytes()));
}

#[test]
fn random_shapes() {
    assert_eq!(random(16).len(), 16);
    assert_eq!(random(0).len(), 0);
    let t = random_an(32);
    assert_eq!(t.chars().count(), 32);
    assert!(t.chars().all(|c| c.is_ascii_alphanumeric()));
}
