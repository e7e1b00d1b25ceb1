//! Registry lifecycle and overwrite semantics, and the session handle
//! itself.

use wu::kvmap::KvMap;
use wu::server::{Server, ServerRegistry};
use wu::stats::Statistics;

fn key() -> Vec<u8> {
    vec![9u8; 32]
}

#[test]
fn get_after_remove_reports_not_found() {
    let mut reg: KvMap<String> = KvMap::new();
    reg.insert("alpha".to_string(), "one".to_string());
    assert_eq!(reg.get("alpha"), Some(&"one".to_string()));
    reg.remove("alpha");
    assert_eq!(reg.get("alpha"), None);
}

#[test]
fn insert_overwrites_lookup_immediately() {
    let mut reg: KvMap<String> = KvMap::new();
    reg.insert("srv".to_string(), "old".to_string());
    reg.insert("srv".to_string(), "new".to_string());
    assert_eq!(reg.get("srv"), Some(&"new".to_string()));
    assert_eq!(reg.len(), 1);
}

#[test]
fn remove_absent_is_harmless() {
    let mut reg: KvMap<String> = KvMap::new();
    reg.insert("kept".to_string(), "v".to_string());
    assert_eq!(reg.remove("other"), None);
    assert_eq!(reg.get("kept"), Some(&"v".to_string()));
}

#[test]
fn server_handle_lifecycle() {
    let mut reg: ServerRegistry = KvMap::new();
    let server = Server::new("10.0.0.5", 9000, key()).unwrap();
    assert_eq!(server.addr(), "10.0.0.5:9000");
    assert_eq!(server.data(), "");
    reg.insert("srv1".to_string(), server);

    // the relay loop appends arriving console chunks in order
    {
        let mut tmp = reg.remove("srv1").unwrap();
        tmp.push_output(b"hello\n");
        tmp.push_output(b"world\n");
        assert_eq!(tmp.data(), "hello\nworld\n");
        reg.insert("srv1".to_string(), tmp);
    }
    assert_eq!(reg.get("srv1").unwrap().data(), "hello\nworld\n");

    // the peer goes away: the owning loop removes the entry
    reg.remove("srv1");
    assert!(reg.get("srv1").is_none());
}

#[test]
fn server_overwrite_replaces_handle() {
    let mut reg: ServerRegistry = KvMap::new();
    let mut first = Server::new("10.0.0.5", 9000, key()).unwrap();
    first.push_output(b"from the first session");
    reg.insert("srv1".to_string(), first);
    let second = Server::new("10.0.0.6", 9100, key()).unwrap();
    reg.insert("srv1".to_string(), second);
    let got = reg.get("srv1").unwrap();
    assert_eq!(got.addr(), "10.0.0.6:9100");
    assert_eq!(got.data(), "");
}

#[test]
fn server_rejects_bad_key() {
    assert!(Server::new("10.0.0.5", 9000, vec![0u8; 16]).is_err());
}

#[test]
fn lossy_console_data() {
    let mut server = Server::new("::1", 1, key()).unwrap();
    server.push_output(&[0x68, 0x69, 0xff]);
    assert_eq!(server.data(), "hi\u{fffd}");
}

#[test]
fn stats_registry_starts_zeroed() {
    let mut reg: KvMap<Statistics> = KvMap::new();
    reg.insert("box1".to_string(), Statistics::new());
    let s = reg.get("box1").unwrap();
    assert_eq!(s.cpu(), 0);
    assert_eq!(s.mem(), (0, 0));
    assert_eq!(s.disk(), (0, 0));
    reg.remove("box1");
    assert!(reg.get("box1").is_none());
}

#[test]
fn data_mut_appends() {
    let mut server = Server::new("::1", 2, key()).unwrap();
    server.data_mut().push_str("direct");
    assert_eq!(server.data(), "direct");
}
