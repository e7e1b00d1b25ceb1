//! Error type shared by the whole crate.

use vstd::prelude::*;

verus! {

/// Why an operation failed. The stream-handling layer outside this crate
/// reports its conditions through `Closed` and `Transport`; the rest are the
/// failures the core logic itself detects.
#[derive(Debug, PartialEq, Eq)]
pub enum Fail {
    /// The shared key is not exactly 32 bytes.
    BadKey,
    /// The handshake nonce is not exactly 12 bytes.
    BadNonce,
    /// The AEAD refused to encrypt (plaintext beyond the cipher's limit).
    Encrypt,
    /// Authentication-tag mismatch on decryption.
    Decrypt,
    /// The peer ended the stream: distinct from a decryption failure.
    Closed,
    /// The stream could not be read or written.
    Transport,
    /// A frame that must hold a 2-byte port number has another length.
    BadPort,
    /// Bytes that must form UTF-8 text do not.
    NotUtf8,
    /// A required key is absent from a header map; holds the key.
    Missing(String),
    /// A value is not an unsigned decimal number; holds the key.
    NotANumber(String),
    /// A value is not alphanumeric; holds the key.
    NotAlphanumeric(String),
    /// A password hash could not be produced.
    Hash,
    /// System data that should follow a known layout does not; holds the
    /// source it came from.
    Malformed(String),
}

/// The message text of each failure, in the style `<key> required`.
pub open spec fn spec_message(f: Fail) -> Seq<char> {
    match f {
        Fail::BadKey => "key must be 32 bytes"@,
        Fail::BadNonce => "nonce must be 12 bytes"@,
        Fail::Encrypt => "failed to encrypt"@,
        Fail::Decrypt => "failed to decrypt"@,
        Fail::Closed => "stream closed"@,
        Fail::Transport => "stream broken"@,
        Fail::BadPort => "port must be 2 bytes"@,
        Fail::NotUtf8 => "invalid utf-8"@,
        Fail::Missing(key) => key@ + " required"@,
        Fail::NotANumber(key) => key@ + " is not correct type"@,
        Fail::NotAlphanumeric(key) => key@ + " is not alphanumeric"@,
        Fail::Hash => "failed to hash"@,
        Fail::Malformed(src) => "broken "@ + src@,
    }
}

impl Fail {
    /// A human-readable message.
    pub fn message(&self) -> (r: String)
        ensures
            r@ == spec_message(*self),
    {
        match self {
            Fail::BadKey => "key must be 32 bytes".to_owned(),
            Fail::BadNonce => "nonce must be 12 bytes".to_owned(),
            Fail::Encrypt => "failed to encrypt".to_owned(),
            Fail::Decrypt => "failed to decrypt".to_owned(),
            Fail::Closed => "stream closed".to_owned(),
            Fail::Transport => "stream broken".to_owned(),
            Fail::BadPort => "port must be 2 bytes".to_owned(),
            Fail::NotUtf8 => "invalid utf-8".to_owned(),
            Fail::Missing(key) => {
                let mut m = key.clone();
                m.append(" required");
                m
            },
            Fail::NotANumber(key) => {
                let mut m = key.clone();
                m.append(" is not correct type");
                m
            },
            Fail::NotAlphanumeric(key) => {
                let mut m = key.clone();
                m.append(" is not alphanumeric");
                m
            },
            Fail::Hash => "failed to hash".to_owned(),
            Fail::Malformed(src) => {
                let mut m: String = "broken ".to_owned();
                m.append(src.as_str());
                m
            },
        }
    }
}

} // verus!
