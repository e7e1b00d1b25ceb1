//! The framed transport: handshakes, frame encoding, and reading frames
//! back, including empty and large payloads.

use wu::aes::Crypter;
use wu::fail::Fail;
use wu::net::{decrypt_frame, encode_frame, frame_len, handshake_acceptor, handshake_initiator};

fn key() -> Vec<u8> {
    (0u8..32).collect()
}

/// Reads one frame out of a byte stream the way the peer's read loop does:
/// 8 length bytes, then the ciphertext, decrypted and verified.
fn read_frame(c: &Crypter, stream: &[u8]) -> (Vec<u8>, usize) {
    let len = frame_len(&stream[..8]) as usize;
    let ct = &stream[8..8 + len];
    (decrypt_frame(c, ct).unwrap(), 8 + len)
}

#[test]
fn frame_round_trip() {
    let c = Crypter::new(key(), vec![5u8; 12]).unwrap();
    let payload = b"one framed message".to_vec();
    let f = encode_frame(&c, &payload).unwrap();
    let (back, used) = read_frame(&c, &f);
    assert_eq!(back, payload);
    assert_eq!(used, f.len());
}

#[test]
fn frame_round_trip_empty() {
    let c = Crypter::new(key(), vec![5u8; 12]).unwrap();
    let f = encode_frame(&c, &[]).unwrap();
    let (back, _) = read_frame(&c, &f);
    assert_eq!(back, Vec::<u8>::new());
}

#[test]
fn frame_round_trip_large() {
    let c = Crypter::new(key(), vec![5u8; 12]).unwrap();
    let payload = vec![0xabu8; 1 << 20];
    let f = encode_frame(&c, &payload).unwrap();
    let (back, _) = read_frame(&c, &f);
    assert_eq!(back, payload);
}

#[test]
fn two_frames_in_sequence() {
    let c = Crypter::new(key(), vec![5u8; 12]).unwrap();
    let mut stream = encode_frame(&c, b"first").unwrap();
    stream.extend_from_slice(&encode_frame(&c, b"second").unwrap());
    let (one, used) = read_frame(&c, &stream);
    let (two, _) = read_frame(&c, &stream[used..]);
    assert_eq!(one, b"first".to_vec());
    assert_eq!(two, b"second".to_vec());
}

#[test]
fn handshake_pairs_up() {
    let k = key();
    let (initiator, nonce) = handshake_initiator(&k).unwrap();
    assert_eq!(nonce.len(), 12);
    let acceptor = handshake_acceptor(&k, nonce).unwrap();
    let f = encode_frame(&initiator, b"hello peer").unwrap();
    let (back, _) = read_frame(&acceptor, &f);
    assert_eq!(back, b"hello peer".to_vec());
}

#[test]
fn handshake_rejects_bad_key() {
    assert!(matches!(handshake_initiator(&vec![0u8; 16]), Err(Fail::BadKey)));
    assert!(handshake_acceptor(&vec![0u8; 16], vec![0u8; 12]).is_err());
    assert!(handshake_acceptor(&key(), vec![0u8; 3]).is_err());
}

#[test]
fn tampered_frame_kills_connection_read() {
    let c = Crypter::new(key(), vec![5u8; 12]).unwrap();
    let mut f = encode_frame(&c, b"payload").unwrap();
    let last = f.len() - 1;
    f[last] ^= 0xff;
    let len = frame_len(&f[..8]) as usize;
    assert_eq!(decrypt_frame(&c, &f[8..8 + len]), Err(Fail::Decrypt));
}
