//! One TLS connection: where its handshake stands, and what the results of the
//! engine's calls mean.

use crate::error::Error;
use crate::fingerprint::spec::Fingerprint;
use vstd::prelude::*;

verus! {

/// Where a connection is in its life.
#[derive(Debug, Clone, Copy, PartialEq, Eq, Structural)]
pub enum HandshakeState {
    NotStarted,
    InProgress,
    Established,
    Shutdown,
}

/// One TLS connection.
#[derive(Debug)]
pub struct Connection {
    state: HandshakeState,
    server_hostname: Option<String>,
    is_server: bool,
}

/// The mathematical content of a [`Connection`].
pub struct ConnectionModel {
    pub state: HandshakeState,
    pub server_hostname: Option<Seq<char>>,
    pub is_server: bool,
}

impl View for Connection {
    type V = ConnectionModel;

    closed spec fn view(&self) -> ConnectionModel {
        ConnectionModel {
            state: self.state,
            server_hostname: crate::plan::opt_text(self.server_hostname),
            is_server: self.is_server,
        }
    }
}

impl ConnectionModel {
    /// A connection before its handshake. A server knows no hostname.
    pub open spec fn fresh(is_server: bool, hostname: Option<Seq<char>>) -> ConnectionModel {
        ConnectionModel {
            state: HandshakeState::NotStarted,
            server_hostname: if is_server {
                None
            } else {
                hostname
            },
            is_server,
        }
    }
}

// ----------------------------------------------------------------- errors

/// The engine's code for a read that needs more bytes from the peer.
pub const SSL_WANT_READ: i32 = 2;

/// The engine's code for a write that needs its bytes to be sent first.
pub const SSL_WANT_WRITE: i32 = 3;

/// The engine's code for a transport that was closed.
pub const SSL_SYSCALL: i32 = 5;

/// The engine's code for a connection that the peer closed.
pub const SSL_ZERO_RETURN: i32 = 6;

/// The error that a code of the engine stands for. For any other code the
/// engine's error queue has to be reported.
pub fn translate_ssl_error(code: i32) -> (r: Option<Error>)
    ensures
        r == (if code == SSL_WANT_READ {
            Some(Error::WantRead)
        } else if code == SSL_WANT_WRITE {
            Some(Error::WantWrite)
        } else if code == SSL_ZERO_RETURN {
            Some(Error::ZeroReturn)
        } else if code == SSL_SYSCALL {
            Some(Error::Eof)
        } else {
            None
        }),
{
    if code == SSL_WANT_READ {
        Some(Error::WantRead)
    } else if code == SSL_WANT_WRITE {
        Some(Error::WantWrite)
    } else if code == SSL_ZERO_RETURN {
        Some(Error::ZeroReturn)
    } else if code == SSL_SYSCALL {
        Some(Error::Eof)
    } else {
        None
    }
}

/// Whether a failed handshake is put down to the peer's certificate: the
/// engine reported a failure, certificates are checked, and the check did not
/// succeed.
pub open spec fn blames_certificate(err: Error, verify_mode: u32, verify_result: i64) -> bool {
    err is Protocol && verify_mode % 2 == 1 && verify_result != 0
}

/// The error of a failed handshake; nothing where it is to be put down to the
/// peer's certificate.
pub fn handshake_error(err: Error, verify_mode: u32, verify_result: i64) -> (r: Option<Error>)
    ensures
        r == (if blames_certificate(err, verify_mode, verify_result) {
            None
        } else {
            Some(err)
        }),
{
    match err {
        Error::Protocol { message, code } => if verify_mode % 2 == 1 && verify_result != 0 {
            None
        } else {
            Some(Error::Protocol { message, code })
        },
        other => Some(other),
    }
}

// -------------------------------------------------------------- handshake

/// What driving a handshake means in the current state.
#[derive(Debug, Clone, Copy, PartialEq, Eq, Structural)]
pub enum HandshakeAction {
    /// The handshake is complete; there is nothing to do.
    Complete,
    /// `SSL_do_handshake` is to be called.
    Drive,
}

impl Connection {
    /// A connection before its handshake.
    pub(crate) fn new(is_server: bool, hostname: Option<&str>) -> (r: Self)
        ensures
            r@ == ConnectionModel::fresh(is_server, crate::context::opt_slice(hostname)),
    {
        let server_hostname = match hostname {
            Some(h) if !is_server => Some(h.to_owned()),
            _ => None,
        };
        Connection { state: HandshakeState::NotStarted, server_hostname, is_server }
    }

    /// Begins to drive the handshake one step.
    pub fn do_handshake(&mut self) -> (r: HandshakeAction)
        ensures
            if old(self)@.state == HandshakeState::Established {
                r == HandshakeAction::Complete && final(self)@ == old(self)@
            } else {
                r == HandshakeAction::Drive && final(self)@ == (ConnectionModel {
                    state: HandshakeState::InProgress,
                    ..old(self)@
                })
            },
    {
        if self.state == HandshakeState::Established {
            return HandshakeAction::Complete;
        }
        self.state = HandshakeState::InProgress;
        HandshakeAction::Drive
    }

    /// Takes note of what `SSL_do_handshake` returned. The result says whether
    /// the handshake is complete; where it is not, the return value has to be
    /// translated into an error.
    pub fn handshake_returned(&mut self, rc: i32) -> (done: bool)
        ensures
            done == (rc == 1),
            final(self)@ == (if rc == 1 {
                ConnectionModel { state: HandshakeState::Established, ..old(self)@ }
            } else {
                old(self)@
            }),
    {
        if rc == 1 {
            self.state = HandshakeState::Established;
            return true;
        }
        false
    }

    /// Takes note of what `SSL_shutdown` returned: whether the connection is
    /// closed on both sides, or the peer's notice is still missing. Any other
    /// value has to be translated into an error.
    pub fn shutdown(&mut self, rc: i32) -> (r: Option<bool>)
        ensures
            r == (if rc == 1 {
                Some(true)
            } else if rc == 0 {
                Some(false)
            } else {
                None
            }),
            final(self)@ == (if rc == 1 {
                ConnectionModel { state: HandshakeState::Shutdown, ..old(self)@ }
            } else {
                old(self)@
            }),
    {
        if rc == 1 {
            self.state = HandshakeState::Shutdown;
            Some(true)
        } else if rc == 0 {
            Some(false)
        } else {
            None
        }
    }

    /// Where the connection is in its life.
    pub fn state(&self) -> (r: HandshakeState)
        ensures
            r == self@.state,
    {
        self.state
    }

    /// The hostname that the connection was made for.
    pub fn server_hostname(&self) -> (r: Option<&str>)
        ensures
            crate::context::opt_slice(r) == self@.server_hostname,
    {
        match &self.server_hostname {
            Some(h) => Some(h.as_str()),
            None => None,
        }
    }

    /// Whether the connection accepts rather than connects.
    pub fn is_server(&self) -> (r: bool)
        ensures
            r == self@.is_server,
    {
        self.is_server
    }
}

// ----------------------------------------------------- reading and writing

/// The most bytes that the engine takes or gives in one call.
pub const MAX_CALL: usize = 0x7FFF_FFFF;

/// The smaller of a length and the most that one call can handle.
pub open spec fn capped(len: nat) -> nat {
    if len <= MAX_CALL {
        len
    } else {
        MAX_CALL as nat
    }
}

/// A read that calls the engine until its buffer is full or the engine has no
/// more.
#[derive(Debug)]
pub struct Reading {
    cap: usize,
    filled: usize,
    stopped: bool,
}

/// The mathematical content of a [`Reading`].
pub struct ReadModel {
    /// How much the buffer holds.
    pub cap: nat,
    /// How much has been read.
    pub filled: nat,
    /// Whether the engine had no more.
    pub stopped: bool,
}

impl View for Reading {
    type V = ReadModel;

    closed spec fn view(&self) -> ReadModel {
        ReadModel { cap: self.cap as nat, filled: self.filled as nat, stopped: self.stopped }
    }
}

impl ReadModel {
    /// A read of up to `max` bytes before its first call.
    pub open spec fn start(max: nat) -> ReadModel {
        ReadModel { cap: capped(max), filled: 0, stopped: false }
    }

    /// How much is still to be asked for; nothing once the read is over.
    pub open spec fn wanted(self) -> nat {
        if self.stopped {
            0
        } else {
            (self.cap - self.filled) as nat
        }
    }

    /// The read after a call that returned `rc`.
    pub open spec fn after(self, rc: i32) -> ReadModel {
        if rc > 0 {
            ReadModel { filled: self.filled + rc as nat, ..self }
        } else {
            ReadModel { stopped: true, ..self }
        }
    }

    /// How many bytes the read gives; nothing where its error has to be
    /// reported, which is where no byte came although some were asked for.
    pub open spec fn outcome(self) -> Option<nat> {
        if self.filled > 0 || self.cap == 0 {
            Some(self.filled)
        } else {
            None
        }
    }
}

impl Reading {
    #[verifier::type_invariant]
    closed spec fn in_bounds(self) -> bool {
        self.filled <= self.cap <= MAX_CALL
    }

    /// A read of up to `max` bytes.
    fn new(max: usize) -> (r: Self)
        ensures
            r@ == ReadModel::start(max as nat),
    {
        let cap: usize = if max <= MAX_CALL {
            max
        } else {
            MAX_CALL
        };
        Reading { cap, filled: 0, stopped: false }
    }

    /// How many bytes have been read.
    pub fn filled(&self) -> (r: usize)
        ensures
            r == self@.filled,
    {
        self.filled
    }

    /// How many bytes the buffer has to hold.
    pub fn capacity(&self) -> (r: usize)
        ensures
            r == self@.cap,
    {
        self.cap
    }

    /// How many bytes to ask the engine for; zero once the read is over.
    pub fn wanted(&self) -> (r: i32)
        ensures
            r == self@.wanted(),
    {
        proof {
            use_type_invariant(self);
        }
        if self.stopped {
            0
        } else {
            (self.cap - self.filled) as i32
        }
    }

    /// Takes note of what the engine returned. It never gives more than it was
    /// asked for.
    pub fn answer(&mut self, rc: i32)
        requires
            rc <= old(self)@.wanted(),
        ensures
            final(self)@ == old(self)@.after(rc),
    {
        proof {
            use_type_invariant(&*self);
        }
        if rc > 0 {
            self.filled = self.filled + rc as usize;
        } else {
            self.stopped = true;
        }
    }

    /// How many bytes the read gives; nothing where the engine's error has to
    /// be reported.
    pub fn outcome(&self) -> (r: Option<usize>)
        ensures
            match self@.outcome() {
                Some(n) => r == Some(n as usize) && n <= self@.cap <= MAX_CALL,
                None => r is None,
            },
    {
        proof {
            use_type_invariant(self);
        }
        if self.filled > 0 || self.cap == 0 {
            Some(self.filled)
        } else {
            None
        }
    }
}

impl Connection {
    /// Starts to read up to `max` bytes.
    pub fn read(&self, max: usize) -> (r: Reading)
        ensures
            r@ == ReadModel::start(max as nat),
    {
        Reading::new(max)
    }

    /// Starts to read into a buffer.
    pub fn read_into(&self, buf: &[u8]) -> (r: Reading)
        ensures
            r@ == ReadModel::start(buf@.len()),
    {
        Reading::new(buf.len())
    }

    /// How many bytes of `data` to hand to `SSL_write`; nothing where there is
    /// no data, and then nothing is written.
    pub fn write(&self, data: &[u8]) -> (r: Option<i32>)
        ensures
            r == (if data@.len() == 0 {
                None
            } else {
                Some(capped(data@.len()) as i32)
            }),
    {
        if data.len() == 0 {
            return None;
        }
        if data.len() <= MAX_CALL {
            Some(data.len() as i32)
        } else {
            Some(MAX_CALL as i32)
        }
    }

    /// How many bytes `SSL_write` took, from what it returned. Where it took
    /// none, the return value has to be translated into an error.
    pub fn written(&self, rc: i32) -> (r: Option<usize>)
        ensures
            r == (if rc > 0 {
                Some(rc as usize)
            } else {
                None
            }),
    {
        if rc > 0 {
            Some(rc as usize)
        } else {
            None
        }
    }
}

/// The sum of what calls returned.
pub open spec fn total(rcs: Seq<i32>) -> int
    decreases rcs.len(),
{
    if rcs.len() == 0 {
        0
    } else {
        total(rcs.drop_last()) + rcs.last()
    }
}

/// The read after calls that returned the given values.
pub open spec fn after_all(s: ReadModel, rcs: Seq<i32>) -> ReadModel
    decreases rcs.len(),
{
    if rcs.len() == 0 {
        s
    } else {
        after_all(s, rcs.drop_last()).after(rcs.last())
    }
}

/// A read gives all bytes of its successful calls, never more than was asked
/// for; it goes on while the engine gives bytes and the buffer has room.
pub proof fn law_read_gathers(max: nat, rcs: Seq<i32>)
    requires
        forall|i: int| 0 <= i < rcs.len() ==> #[trigger] rcs[i] > 0,
        total(rcs) <= capped(max),
    ensures
        !after_all(ReadModel::start(max), rcs).stopped,
        after_all(ReadModel::start(max), rcs).cap == capped(max),
        after_all(ReadModel::start(max), rcs).filled == total(rcs),
        after_all(ReadModel::start(max), rcs).wanted() == capped(max) - total(rcs),
        rcs.len() > 0 ==> after_all(ReadModel::start(max), rcs).outcome() == Some(
            total(rcs) as nat,
        ),
    decreases rcs.len(),
{
    if rcs.len() > 0 {
        let before = rcs.drop_last();
        assert forall|i: int| 0 <= i < before.len() implies #[trigger] before[i] > 0 by {
            assert(before[i] == rcs[i]);
        }
        assert(rcs.last() == rcs[rcs.len() - 1]);
        law_read_gathers(max, before);
        lemma_total_positive(before);
    }
}

proof fn lemma_total_positive(rcs: Seq<i32>)
    requires
        forall|i: int| 0 <= i < rcs.len() ==> #[trigger] rcs[i] > 0,
    ensures
        total(rcs) >= 0,
    decreases rcs.len(),
{
    if rcs.len() > 0 {
        let before = rcs.drop_last();
        assert forall|i: int| 0 <= i < before.len() implies #[trigger] before[i] > 0 by {
            assert(before[i] == rcs[i]);
        }
        assert(rcs.last() == rcs[rcs.len() - 1]);
        lemma_total_positive(before);
    }
}

/// Where the engine stops after some bytes, those bytes are given and the
/// error is left for the next read; where it stops at once, the error is
/// reported.
pub proof fn law_read_keeps_what_came(s: ReadModel, rc: i32)
    requires
        rc <= 0,
        s.filled <= s.cap,
        s.wanted() > 0,
    ensures
        s.after(rc).wanted() == 0,
        s.after(rc).outcome() == (if s.filled > 0 {
            Some(s.filled)
        } else {
            None
        }),
{
}

// ------------------------------------------------------------ information

/// The text of optional bytes.
pub open spec fn opt_lossy(b: Option<Seq<u8>>) -> Option<Seq<char>> {
    match b {
        Some(bytes) => Some(crate::text::lossy(bytes)),
        None => None,
    }
}

/// Optional bytes, unless there are none of them.
pub open spec fn unless_empty(b: Option<Seq<u8>>) -> Option<Seq<u8>> {
    match b {
        Some(bytes) if bytes.len() > 0 => Some(bytes),
        _ => None,
    }
}

/// The name of a TLS version.
pub open spec fn version_name(number: i32) -> Option<Seq<char>> {
    if number == 0x0304 {
        Some("TLSv1.3"@)
    } else if number == 0x0303 {
        Some("TLSv1.2"@)
    } else if number == 0x0302 {
        Some("TLSv1.1"@)
    } else if number == 0x0301 {
        Some("TLSv1"@)
    } else {
        None
    }
}

/// What the engine says of the current cipher suite.
#[derive(Debug)]
pub struct CurrentCipher {
    /// The name, where it has one.
    pub name: Option<Vec<u8>>,
    pub bits: i32,
}

impl ConnectionModel {
    /// The name of the negotiated version, once there is one.
    pub open spec fn version(self, number: i32) -> Option<Seq<char>> {
        if self.state == HandshakeState::Established {
            version_name(number)
        } else {
            None
        }
    }
}

impl Connection {
    /// The server name that the peer asked for.
    pub fn peer_sni(&self, name: Option<&[u8]>) -> (r: Option<String>)
        ensures
            crate::plan::opt_text(r) == opt_lossy(crate::chain::opt_slice_bytes(name)),
    {
        match name {
            Some(b) => Some(crate::text::decode_lossy(b)),
            None => None,
        }
    }

    /// The fingerprint of the peer's ClientHello, where this is a server and a
    /// well-formed one was captured.
    pub fn observed_client_fingerprint(&self, captured: Option<&[u8]>) -> (r: Option<Fingerprint>)
        ensures
            crate::context::opt_fingerprint(r) == (match crate::chain::opt_slice_bytes(captured) {
                Some(raw) if self@.is_server => match crate::fingerprint::capture::client_hello(
                    raw,
                ) {
                    Ok(m) => Some(m),
                    Err(_) => None,
                },
                _ => None,
            }),
    {
        if !self.is_server {
            return None;
        }
        match captured {
            Some(raw) => match crate::fingerprint::capture::parse_client_hello(raw) {
                Ok(fp) => Some(fp),
                Err(_) => None,
            },
            None => None,
        }
    }

    /// The negotiated protocol.
    pub fn selected_alpn(&self, data: Option<&[u8]>) -> (r: Option<String>)
        ensures
            crate::plan::opt_text(r) == opt_lossy(
                unless_empty(crate::chain::opt_slice_bytes(data)),
            ),
    {
        match data {
            Some(b) => if b.len() > 0 {
                Some(crate::text::decode_lossy(b))
            } else {
                None
            },
            None => None,
        }
    }

    /// Whether ECH was accepted, from what `SSL_ech_accepted` returned.
    pub fn ech_accepted(&self, flag: i32) -> (r: bool)
        ensures
            r == (self@.state == HandshakeState::Established && flag == 1),
    {
        self.state == HandshakeState::Established && flag == 1
    }

    /// The ECH configuration to try next, from what the engine holds.
    pub fn ech_retry_configs(&self, data: Option<&[u8]>) -> (r: Option<Vec<u8>>)
        ensures
            crate::fingerprint::spec::opt_bytes(r) == (if self@.state
                == HandshakeState::Established {
                unless_empty(crate::chain::opt_slice_bytes(data))
            } else {
                None
            }),
    {
        if self.state != HandshakeState::Established {
            return None;
        }
        match data {
            Some(b) => if b.len() > 0 {
                Some(vstd::slice::slice_to_vec(b))
            } else {
                None
            },
            None => None,
        }
    }

    /// The name of the negotiated version, from the engine's number for it.
    pub fn version(&self, number: i32) -> (r: Option<&'static str>)
        ensures
            crate::fingerprint::apply::opt_str(r) == self@.version(number),
    {
        if self.state != HandshakeState::Established {
            return None;
        }
        match number {
            0x0304 => Some("TLSv1.3"),
            0x0303 => Some("TLSv1.2"),
            0x0302 => Some("TLSv1.1"),
            0x0301 => Some("TLSv1"),
            _ => None,
        }
    }

    /// The negotiated cipher suite: its name, the version and its strength.
    pub fn cipher(&self, current: Option<CurrentCipher>, number: i32) -> (r: Option<
        (String, &'static str, i32),
    >)
        ensures
            match current {
                Some(c) if c.name is Some => {
                    &&& r matches Some(t)
                    &&& t.0@ == crate::text::lossy(c.name->Some_0@)
                    &&& t.1@ == (match self@.version(number) {
                        Some(v) => v,
                        None => "TLS"@,
                    })
                    &&& t.2 == c.bits
                },
                _ => r is None,
            },
    {
        match current {
            Some(c) => match &c.name {
                Some(name) => {
                    let version = match self.version(number) {
                        Some(v) => v,
                        None => "TLS",
                    };
                    Some((crate::text::decode_lossy(name.as_slice()), version, c.bits))
                },
                None => None,
            },
            None => None,
        }
    }

    /// The session to resume later, once the handshake is complete.
    pub fn session<T>(&self, taken: Option<T>) -> (r: Option<T>)
        ensures
            r == (if self@.state == HandshakeState::Established {
                taken
            } else {
                None
            }),
    {
        if self.state == HandshakeState::Established {
            taken
        } else {
            None
        }
    }

    /// Whether an earlier session was resumed, from what `SSL_session_reused`
    /// returned.
    pub fn session_reused(&self, rc: i32) -> (r: bool)
        ensures
            r == (rc == 1),
    {
        rc == 1
    }
}

/// Where certificates are not checked, a failed handshake is never put down to
/// the peer's certificate: what the engine said comes through.
pub proof fn law_unchecked_handshake_keeps_its_error(
    mode: crate::context::VerifyMode,
    err: Error,
    verify_result: i64,
)
    ensures
        blames_certificate(err, mode.flags() as u32, verify_result) ==> mode
            != crate::context::VerifyMode::Disabled,
{
}

} // verus!
