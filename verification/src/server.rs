//! The control side's handle for one remote-process session: the console
//! buffer fed by the relay loop, the callback address captured at session
//! start, and the one-shot command push.

use vstd::prelude::*;
use vstd::utf8::{decode_utf8, encode_utf8, valid_utf8};

use crate::aes::{gcm_dec, gcm_enc, GCM_PLAIN_MAX};
use crate::fail::Fail;
use crate::hexcode::hex_digits;
use crate::kvmap::KvMap;
use crate::net;
use crate::net::spec_frame;
use crate::stats::Statistics;
use crate::textenc;

verus! {

/// The registry of live remote-process sessions, by name.
pub type ServerRegistry = KvMap<Server>;

/// The registry of live telemetry sessions, by name.
pub type StatsRegistry = KvMap<Statistics>;

/// The decimal digits of `n`, most significant first.
pub open spec fn dec_chars(n: nat) -> Seq<char>
    decreases n,
{
    if n < 10 {
        seq![hex_digits()[n as int]]
    } else {
        dec_chars(n / 10).push(hex_digits()[(n % 10) as int])
    }
}

/// The ASCII bytes of the decimal digits of `n`.
pub open spec fn dec_bytes(n: nat) -> Seq<u8>
    decreases n,
{
    if n < 10 {
        seq![(0x30 + n) as u8]
    } else {
        dec_bytes(n / 10).push((0x30 + n % 10) as u8)
    }
}

proof fn lemma_dec_bytes_chars(n: nat)
    ensures
        dec_bytes(n).len() == dec_chars(n).len(),
        forall|i: int|
            0 <= i < dec_bytes(n).len() ==> (#[trigger] dec_bytes(n)[i]) < 0x80 && dec_chars(n)[i]
                == dec_bytes(n)[i] as char,
    decreases n,
{
    crate::hexcode::lemma_hex_digits();
    if n < 10 {
        assert(hex_digits()[n as int] == ((0x30 + n) as u8) as char) by {
            assert(hex_digits()[n as int] == seq![
                '0',
                '1',
                '2',
                '3',
                '4',
                '5',
                '6',
                '7',
                '8',
                '9',
            ][n as int]);
        }
    } else {
        lemma_dec_bytes_chars(n / 10);
        assert(hex_digits()[(n % 10) as int] == ((0x30 + n % 10) as u8) as char) by {
            assert(hex_digits()[(n % 10) as int] == seq![
                '0',
                '1',
                '2',
                '3',
                '4',
                '5',
                '6',
                '7',
                '8',
                '9',
            ][(n % 10) as int]);
        }
    }
}

/// Appends the decimal digits of `x` to `out`.
fn push_dec(x: u16, out: &mut Vec<u8>)
    ensures
        final(out)@ == old(out)@ + dec_bytes(x as nat),
    decreases x,
{
    if x < 10 {
        out.push(0x30 + x as u8);
        proof {
            assert(final(out)@ =~= old(out)@ + dec_bytes(x as nat));
        }
    } else {
        push_dec(x / 10, out);
        out.push(0x30 + (x % 10) as u8);
        proof {
            assert(final(out)@ =~= old(out)@ + dec_bytes(x as nat));
        }
    }
}

/// The callback address text: `ip`, a colon, and the port in decimal.
pub open spec fn spec_addr(ip: Seq<char>, port: u16) -> Seq<char> {
    ip + seq![':'] + dec_chars(port as nat)
}

/// Renders `ip:port`.
pub fn format_addr(ip: &str, port: u16) -> (r: String)
    ensures
        r@ == spec_addr(ip@, port),
{
    let mut digits: Vec<u8> = Vec::new();
    push_dec(port, &mut digits);
    proof {
        lemma_dec_bytes_chars(port as nat);
        assert(textenc::is_ascii_bytes(digits@));
        textenc::lemma_ascii_bytes_decode(digits@);
    }
    let digit_str = match textenc::utf8_to_string(digits) {
        Some(s) => s,
        None => vstd::pervasive::unreached(),
    };
    let mut r: String = String::new();
    r.append(ip);
    r.append(":");
    r.append(digit_str.as_str());
    proof {
        reveal_strlit(":");
        assert(":"@ =~= seq![':']);
        assert(digit_str@ =~= dec_chars(port as nat));
        assert(r@ =~= spec_addr(ip@, port));
    }
    r
}

/// One remote-process session as the control side holds it.
pub struct Server {
    data: String,
    addr: String,
    key: Vec<u8>,
}

impl Server {
    /// The console text relayed so far.
    pub closed spec fn console(&self) -> Seq<char> {
        self.data@
    }

    /// The callback address captured at session start.
    pub closed spec fn callback_addr(&self) -> Seq<char> {
        self.addr@
    }

    /// The shared key the session was opened under.
    pub closed spec fn spec_key(&self) -> Seq<u8> {
        self.key@
    }

    /// Well-formed: the key is 32 bytes.
    pub open spec fn wf(&self) -> bool {
        self.spec_key().len() == 32
    }

    /// A fresh handle: empty console, the peer's IP combined with the port
    /// it advertised, and the shared key for later command pushes. The
    /// address and key never change after this.
    pub fn new(ip: &str, port: u16, key: Vec<u8>) -> (r: Result<Server, Fail>)
        ensures
            r is Ok <==> key@.len() == 32,
            r matches Ok(s) ==> s.wf() && s.console() == Seq::<char>::empty() && s.callback_addr()
                == spec_addr(ip@, port) && s.spec_key() == key@,
            r is Err ==> r == Err::<Server, Fail>(Fail::BadKey),
    {
        if key.len() != 32 {
            return Err(Fail::BadKey);
        }
        Ok(Server { data: String::new(), addr: format_addr(ip, port), key })
    }

    /// Read-only view of the console text.
    pub fn data(&self) -> (r: &String)
        ensures
            r@ == self.console(),
    {
        &self.data
    }

    /// Writable access to the console text.
    pub fn data_mut(&mut self) -> (r: &mut String)
        ensures
            r@ == old(self).console(),
    {
        &mut self.data
    }

    /// Appends one relayed frame to the console, decoded as text with
    /// ill-formed bytes replaced; nothing else changes, and nothing already
    /// buffered moves: the console only grows at its end, in arrival order.
    pub fn push_output(&mut self, chunk: &[u8])
        ensures
            final(self).console() == old(self).console() + textenc::lossy_decode(chunk@),
            valid_utf8(chunk@) ==> final(self).console() == old(self).console() + decode_utf8(
                chunk@,
            ),
            final(self).callback_addr() == old(self).callback_addr(),
            final(self).spec_key() == old(self).spec_key(),
    {
        let text = textenc::utf8_lossy(chunk);
        self.data.append(text.as_str());
    }

    /// The callback address, for the connection the push opens.
    pub fn addr(&self) -> (r: &String)
        ensures
            r@ == self.callback_addr(),
    {
        &self.addr
    }

    /// Builds the one-shot command push: the full byte string to write on a
    /// fresh connection to the callback address — a fresh 12-byte handshake
    /// nonce, then one frame holding the command text. No reply is read;
    /// the connection closes after the write. Succeeds on every command up
    /// to the GCM length limit.
    pub fn cmd(&self, cmd: &str) -> (r: Result<Vec<u8>, Fail>)
        requires
            self.wf(),
        ensures
            encode_utf8(cmd@).len() <= GCM_PLAIN_MAX ==> r is Ok,
            r matches Ok(b) ==> exists|n: Seq<u8>|
                n.len() == 12 && #[trigger] gcm_dec(
                    self.spec_key(),
                    n,
                    gcm_enc(self.spec_key(), n, encode_utf8(cmd@)),
                ) == Some(encode_utf8(cmd@)) && b@ == n + spec_frame(
                    gcm_enc(self.spec_key(), n, encode_utf8(cmd@)),
                ),
            r is Err ==> r == Err::<Vec<u8>, Fail>(Fail::Encrypt),
    {
        let (crypt, nonce) = match net::handshake_initiator(&self.key) {
            Ok(p) => p,
            Err(_) => {
                return vstd::pervasive::unreached();
            },
        };
        let frame = match net::encode_frame(&crypt, cmd.as_bytes()) {
            Ok(f) => f,
            Err(e) => {
                return Err(Fail::Encrypt);
            },
        };
        let mut out = nonce;
        out.extend_from_slice(frame.as_slice());
        proof {
            assert(out@ == crypt.spec_nonce() + spec_frame(
                gcm_enc(self.spec_key(), crypt.spec_nonce(), encode_utf8(cmd@)),
            ));
        }
        Ok(out)
    }
}

} // verus!
