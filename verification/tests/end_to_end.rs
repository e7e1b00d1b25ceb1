//! The whole exchange in memory: a client opens an `add-server` session,
//! the control side registers it, console output flows, and a command is
//! pushed back.

use wu::dispatch::{parse_port, session_kind, stdin_line, SessionKind};
use wu::kvmap::KvMap;
use wu::net::{decrypt_frame, encode_frame, frame_len, handshake_acceptor, handshake_initiator};
use wu::server::{Server, ServerRegistry};
use wu::wire::u16_to_be;

fn shared_key() -> Vec<u8> {
    b"0123456789abcdef0123456789abcdef".to_vec()
}

/// One frame off the front of a stream, as the read loop sees it.
fn read_frame(c: &wu::aes::Crypter, stream: &[u8]) -> (Vec<u8>, usize) {
    let len = frame_len(&stream[..8]) as usize;
    (decrypt_frame(c, &stream[8..8 + len]).unwrap(), 8 + len)
}

#[test]
fn add_server_session_end_to_end() {
    let key = shared_key();

    // client side dials in: handshake, then tag, name and port frames
    let (client, nonce) = handshake_initiator(&key).unwrap();
    let mut stream = nonce;
    stream.extend_from_slice(&encode_frame(&client, b"add-server").unwrap());
    stream.extend_from_slice(&encode_frame(&client, b"srv1").unwrap());
    stream.extend_from_slice(&encode_frame(&client, &u16_to_be(9000)).unwrap());
    stream.extend_from_slice(&encode_frame(&client, b"hello\n").unwrap());

    // control side accepts: nonce, tag, name
    let control = handshake_acceptor(&key, stream[..12].to_vec()).unwrap();
    let mut at = 12;
    let (tag, used) = read_frame(&control, &stream[at..]);
    at += used;
    assert_eq!(session_kind(&tag), Some(SessionKind::AddServer));
    let (name, used) = read_frame(&control, &stream[at..]);
    at += used;
    let name = String::from_utf8(name).unwrap();
    assert_eq!(name, "srv1");

    // the port advertisement becomes the callback address
    let (port_frame, used) = read_frame(&control, &stream[at..]);
    at += used;
    let port = parse_port(&port_frame).unwrap();
    assert_eq!(port, 9000);
    let server = Server::new("127.0.0.1", port, key.clone()).unwrap();
    assert_eq!(server.addr(), "127.0.0.1:9000");

    let mut registry: ServerRegistry = KvMap::new();
    registry.insert(name.clone(), server);

    // the relay loop appends the console chunk
    let (chunk, _) = read_frame(&control, &stream[at..]);
    let mut handle = registry.remove(&name).unwrap();
    handle.push_output(&chunk);
    registry.insert(name.clone(), handle);
    assert_eq!(registry.get("srv1").unwrap().data(), "hello\n");

    // the control side pushes a command over a fresh one-shot connection
    let push = registry.get("srv1").unwrap().cmd("stop").unwrap();
    let listener = handshake_acceptor(&key, push[..12].to_vec()).unwrap();
    let (cmd, used) = read_frame(&listener, &push[12..]);
    assert_eq!(12 + used, push.len());
    assert_eq!(cmd, b"stop".to_vec());
    assert_eq!(stdin_line(&cmd), b"stop\n".to_vec());

    // the connection dies: the owning loop removes the entry
    registry.remove("srv1");
    assert!(registry.get("srv1").is_none());
}

#[test]
fn unknown_tags_route_nowhere() {
    assert_eq!(session_kind(b"add-server"), Some(SessionKind::AddServer));
    assert_eq!(session_kind(b"send-stats"), Some(SessionKind::SendStats));
    assert_eq!(session_kind(b"bogus"), None);
    assert_eq!(session_kind(b""), None);
    assert_eq!(session_kind(&[0xff, 0xfe]), None);
}

#[test]
fn port_frames_must_be_two_bytes() {
    assert_eq!(parse_port(&[0x23, 0x28]).unwrap(), 9000);
    assert!(parse_port(&[1]).is_err());
    assert!(parse_port(&[1, 2, 3]).is_err());
}
