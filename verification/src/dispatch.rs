//! Routing of freshly accepted connections: the session-type tag read as the
//! first frame, the port advertisement, and the one-shot command payload a
//! client writes to its process.

use vstd::prelude::*;
use vstd::utf8::encode_utf8;

use crate::fail::Fail;
use crate::wire;
use crate::wire::be_val;

verus! {

/// The two session types an inbound connection may open.
#[derive(Clone, Copy, Debug, PartialEq, Eq, Structural)]
pub enum SessionKind {
    /// A remote-process session: console relay plus command push-back.
    AddServer,
    /// A periodic host telemetry session.
    SendStats,
}

/// Classifies a connection's tag frame. A tag that is not exactly
/// `add-server` or `send-stats` routes nowhere: the acceptor drops the
/// connection silently.
pub fn session_kind(tag: &[u8]) -> (r: Option<SessionKind>)
    ensures
        r == Some(SessionKind::AddServer) <==> tag@ == encode_utf8("add-server"@),
        r == Some(SessionKind::SendStats) <==> tag@ == encode_utf8("send-stats"@),
{
    proof {
        reveal_strlit("add-server");
        reveal_strlit("send-stats");
        assert("add-server"@[0] != "send-stats"@[0]);
        assert(encode_utf8("add-server"@) != encode_utf8("send-stats"@)) by {
            vstd::utf8::encode_utf8_decode_utf8("add-server"@);
            vstd::utf8::encode_utf8_decode_utf8("send-stats"@);
        }
    }
    if wire::bytes_eq(tag, "add-server".as_bytes()) {
        Some(SessionKind::AddServer)
    } else if wire::bytes_eq(tag, "send-stats".as_bytes()) {
        Some(SessionKind::SendStats)
    } else {
        None
    }
}

/// Reads the port a client advertises for pushed commands: the third frame
/// of an `add-server` session, exactly 2 big-endian bytes.
pub fn parse_port(frame: &[u8]) -> (r: Result<u16, Fail>)
    ensures
        r is Ok <==> frame@.len() == 2,
        r matches Ok(p) ==> p == be_val(frame@),
        r is Err ==> r == Err::<u16, Fail>(Fail::BadPort),
{
    if frame.len() == 2 {
        Ok(wire::u16_from_be(frame))
    } else {
        Err(Fail::BadPort)
    }
}

/// What a pushed command becomes on the spawned process's standard input:
/// the command bytes with a trailing newline.
pub fn stdin_line(cmd: &[u8]) -> (r: Vec<u8>)
    ensures
        r@ == cmd@ + seq![10u8],
{
    let mut r: Vec<u8> = Vec::new();
    r.extend_from_slice(cmd);
    r.push(10);
    proof {
        assert(r@ =~= cmd@ + seq![10u8]);
    }
    r
}

} // verus!
