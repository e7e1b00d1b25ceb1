//! Header lookups, number parsing, the JSON error body, and the storage
//! text format.

use wu::fail::Fail;
use wu::kvmap::KvMap;
use wu::storage::{parse, serialize};
use wu::utils::{get, get_an, get_str, get_username, json_error, parse_u64, Headers};

fn headers(pairs: &[(&str, &str)]) -> Headers {
    let mut h: Headers = KvMap::new();
    for (k, v) in pairs {
        h.insert(k.to_string(), v.to_string());
    }
    h
}

#[test]
fn get_str_finds_or_names_the_key() {
    let h = headers(&[("token", "abc")]);
    assert_eq!(get_str(&h, "token").unwrap(), "abc");
    match get_str(&h, "missing") {
        Err(Fail::Missing(k)) => assert_eq!(k, "missing"),
        other => panic!("unexpected: {:?}", other),
    }
}

#[test]
fn get_parses_numbers() {
    let h = headers(&[("readlen", "512"), ("bad", "12x"), ("plus", "+7")]);
    assert_eq!(get(&h, "readlen").unwrap(), 512);
    assert_eq!(get(&h, "plus").unwrap(), 7);
    assert!(matches!(get(&h, "bad"), Err(Fail::NotANumber(_))));
    assert!(matches!(get(&h, "absent"), Err(Fail::Missing(_))));
}

#[test]
fn parse_u64_edges() {
    assert_eq!(parse_u64("0"), Some(0));
    assert_eq!(parse_u64("18446744073709551615"), Some(u64::MAX));
    assert_eq!(parse_u64("18446744073709551616"), None);
    assert_eq!(parse_u64(""), None);
    assert_eq!(parse_u64("+"), None);
    assert_eq!(parse_u64("-1"), None);
    assert_eq!(parse_u64(" 5"), None);
}

#[test]
fn get_an_requires_alphanumeric() {
    let h = headers(&[("username", "admin"), ("user", "a!b")]);
    assert_eq!(get_an(&h, "username").unwrap(), "admin");
    assert!(matches!(get_an(&h, "user"), Err(Fail::NotAlphanumeric(_))));
    assert_eq!(get_username(&h).unwrap(), "admin");
}

#[test]
fn json_error_bodies() {
    assert_eq!(json_error("hi"), b"{\"error\":\"hi\"}".to_vec());
    assert_eq!(
        json_error("a\"b\\c"),
        b"{\"error\":\"a\\\"b\\\\c\"}".to_vec()
    );
    assert_eq!(json_error("x\ny"), b"{\"error\":\"x\\u000ay\"}".to_vec());
}

#[test]
fn fail_messages() {
    assert_eq!(Fail::Missing("token".to_string()).message(), "token required");
    assert_eq!(
        Fail::NotAlphanumeric("user".to_string()).message(),
        "user is not alphanumeric"
    );
    assert_eq!(Fail::Malformed("/proc/stat".to_string()).message(), "broken /proc/stat");
    assert_eq!(Fail::Closed.message(), "stream closed");
    assert_eq!(Fail::Transport.message(), "stream broken");
}

#[test]
fn storage_parse_entries() {
    let m = parse(b"Admin = Hash1\nplain=value\nnoequals\n".to_vec()).unwrap();
    assert_eq!(m.get("admin"), Some(&"Hash1".to_string()));
    assert_eq!(m.get("plain"), Some(&"value".to_string()));
    assert_eq!(m.get("noequals"), None);
}

#[test]
fn storage_parse_later_line_wins() {
    let m = parse(b"key=one\nkey=two\n".to_vec()).unwrap();
    assert_eq!(m.get("key"), Some(&"two".to_string()));
    assert_eq!(m.len(), 1);
}

#[test]
fn storage_parse_rejects_invalid_utf8() {
    match parse(vec![0x61, 0xff, 0x61]) {
        Err(e) => assert_eq!(e, Fail::NotUtf8),
        Ok(_) => panic!("invalid utf-8 accepted"),
    }
}

#[test]
fn storage_serialize_and_back() {
    let mut m: KvMap<String> = KvMap::new();
    m.insert("admin".to_string(), "hash".to_string());
    m.insert("guest".to_string(), "other".to_string());
    let text = serialize(&m).unwrap();
    let back = parse(text.into_bytes()).unwrap();
    assert_eq!(back.get("admin"), Some(&"hash".to_string()));
    assert_eq!(back.get("guest"), Some(&"other".to_string()));
    assert_eq!(back.len(), 2);
}

#[test]
fn storage_parse_folds_unicode() {
    let m = parse("É=1\nStraße = x\n".as_bytes().to_vec()).unwrap();
    assert_eq!(m.get("é"), Some(&"1".to_string()));
    assert_eq!(m.get("straße"), Some(&"x".to_string()));
}

#[test]
fn storage_parse_trims_unicode_whitespace() {
    let m = parse("\u{a0}key\u{a0}=\u{a0}v\u{a0}\n".as_bytes().to_vec()).unwrap();
    assert_eq!(m.get("key"), Some(&"v".to_string()));
}
