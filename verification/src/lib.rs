//! Core of a remote-process control system: an AES-256-GCM encrypted, framed
//! transport; a login/token gate; registries of named process and telemetry
//! sessions; and the codecs that the session handlers and clients share.
//!
//! All I/O (sockets, files, process pipes) lives outside this crate; the
//! functions here turn bytes into decisions and decisions into bytes.

pub mod aes;
pub mod dispatch;
pub mod fail;
pub mod hexcode;
pub mod kvmap;
pub mod logins;
pub mod net;
pub mod pwhash;
pub mod rng;
pub mod server;
pub mod sha;
pub mod stats;
pub mod storage;
pub mod sysinfo;
pub mod textenc;
pub mod utils;
pub mod web;
pub mod wire;
