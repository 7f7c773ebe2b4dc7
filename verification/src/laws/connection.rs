//! What the calls of a connection do.

use crate::connection::{
    capped, handshake_error, translate_ssl_error, Connection, CurrentCipher, HandshakeAction,
    HandshakeState, Reading,
};
use crate::error::Error;
use crate::fingerprint::spec::Fingerprint;
use vstd::prelude::*;

verus! {

/// The most that one call handles is 2147483647 bytes; anything shorter is
/// handled whole.
pub proof fn law_one_call(len: nat)
    ensures
        capped(len) <= 2147483647,
        len <= 2147483647 ==> capped(len) == len,
        len >= 2147483647 ==> capped(len) == 2147483647,
{
}

/// The engine's codes: 2 wants bytes from the peer, 3 wants bytes to be sent, 5
/// is a closed transport and 6 a closed connection; no other code stands for an
/// error of its own.
pub proof fn law_engine_codes(code: i32, r: Option<Error>)
    requires
        call_ensures(translate_ssl_error, (code,), r),
    ensures
        r == Some(Error::WantRead) <==> code == 2,
        r == Some(Error::WantWrite) <==> code == 3,
        r == Some(Error::Eof) <==> code == 5,
        r == Some(Error::ZeroReturn) <==> code == 6,
        r is None <==> code != 2 && code != 3 && code != 5 && code != 6,
{
}

/// A failed handshake is put down to the certificate exactly where the engine
/// reported a failure, certificates are checked in that mode and the check did
/// not succeed; otherwise the error comes through unchanged.
pub proof fn law_failed_handshakes(
    err: Error,
    mode: crate::context::VerifyMode,
    result: i64,
    r: Option<Error>,
)
    requires
        call_ensures(handshake_error, (err, mode.flags() as u32, result), r),
    ensures
        r is None <==> err is Protocol && mode != crate::context::VerifyMode::Disabled && result
            != 0,
        r is Some ==> r == Some(err),
{
}

/// A handshake is driven until it is complete and not after; only the engine's
/// 1 completes it. Hostname and side never change.
pub proof fn law_handshakes(
    c: &mut Connection,
    action: HandshakeAction,
    d: &mut Connection,
    rc: i32,
    done: bool,
)
    requires
        call_ensures(Connection::do_handshake, (c,), action),
        call_ensures(Connection::handshake_returned, (d, rc), done),
    ensures
        action == HandshakeAction::Complete <==> old(c)@.state == HandshakeState::Established,
        final(c)@.state == (if old(c)@.state == HandshakeState::Established {
            HandshakeState::Established
        } else {
            HandshakeState::InProgress
        }),
        final(c)@.server_hostname == old(c)@.server_hostname,
        final(c)@.is_server == old(c)@.is_server,
        done <==> rc == 1,
        final(d)@.state == (if rc == 1 {
            HandshakeState::Established
        } else {
            old(d)@.state
        }),
        final(d)@.server_hostname == old(d)@.server_hostname,
        final(d)@.is_server == old(d)@.is_server,
{
}

/// A connection is shut down once the engine says 1; 0 means that the peer's
/// notice is still missing; anything else is an error and changes nothing.
pub proof fn law_shutdowns(c: &mut Connection, rc: i32, r: Option<bool>)
    requires
        call_ensures(Connection::shutdown, (c, rc), r),
    ensures
        r == Some(true) <==> rc == 1,
        r == Some(false) <==> rc == 0,
        r is None <==> rc != 0 && rc != 1,
        final(c)@.state == (if rc == 1 {
            HandshakeState::Shutdown
        } else {
            old(c)@.state
        }),
        final(c)@.server_hostname == old(c)@.server_hostname,
        final(c)@.is_server == old(c)@.is_server,
{
}

/// A read starts empty, with room for all that was asked for and that one call
/// can give, and asks for just that much.
pub proof fn law_reads_start(
    c: &Connection,
    max: usize,
    r: Reading,
    buf: &[u8],
    q: Reading,
    room: usize,
    wanted: i32,
)
    requires
        call_ensures(Connection::read, (c, max), r),
        call_ensures(Connection::read_into, (c, buf), q),
        call_ensures(Reading::capacity, (&r,), room),
        call_ensures(Reading::wanted, (&r,), wanted),
    ensures
        r@.filled == 0 && !r@.stopped,
        q@.filled == 0 && !q@.stopped,
        room == (if max <= 2147483647 {
            max as int
        } else {
            2147483647
        }),
        wanted == room,
        q@.cap == (if buf@.len() <= 2147483647 {
            buf@.len()
        } else {
            2147483647
        }),
{
}

/// What the engine gives is counted in full, and what it refuses ends the read;
/// a read gives its bytes where there are any, or where none were asked for.
pub proof fn law_reads_count(
    s: &mut Reading,
    rc: i32,
    done: (),
    after: &Reading,
    filled: usize,
    wanted: i32,
    outcome: Option<usize>,
)
    requires
        rc <= old(s)@.wanted(),
        old(s)@.filled <= old(s)@.cap,
        call_ensures(Reading::answer, (s, rc), done),
        after@ == final(s)@,
        call_ensures(Reading::filled, (after,), filled),
        call_ensures(Reading::wanted, (after,), wanted),
        call_ensures(Reading::outcome, (after,), outcome),
    ensures
        filled == old(s)@.filled + (if rc > 0 {
            rc as int
        } else {
            0
        }),
        rc <= 0 ==> wanted == 0,
        rc > 0 && !old(s)@.stopped ==> wanted == old(s)@.wanted() - rc,
        outcome is Some <==> filled > 0 || old(s)@.cap == 0,
        outcome matches Some(n) ==> n == filled,
{
}

/// All that one call can take is handed over, and nothing is where there is
/// none; what the engine took is told as it is.
pub proof fn law_writes(
    c: &Connection,
    data: &[u8],
    r: Option<i32>,
    rc: i32,
    taken: Option<usize>,
)
    requires
        call_ensures(Connection::write, (c, data), r),
        call_ensures(Connection::written, (c, rc), taken),
    ensures
        r is None <==> data@.len() == 0,
        r matches Some(n) ==> n == (if data@.len() <= 2147483647 {
            data@.len() as int
        } else {
            2147483647
        }),
        taken is Some <==> rc > 0,
        taken matches Some(n) ==> n == rc,
{
}

/// What was negotiated is told once the handshake is complete and not before:
/// the version by its name, whether ECH was accepted, the configuration to
/// retry with, and the session.
pub proof fn law_negotiated(
    c: &Connection,
    number: i32,
    version: Option<&'static str>,
    flag: i32,
    accepted: bool,
    data: Option<&[u8]>,
    retry: Option<Vec<u8>>,
    taken: Option<u64>,
    session: Option<u64>,
    reused: bool,
)
    requires
        call_ensures(Connection::version, (c, number), version),
        call_ensures(Connection::ech_accepted, (c, flag), accepted),
        call_ensures(Connection::ech_retry_configs, (c, data), retry),
        call_ensures(Connection::session::<u64>, (c, taken), session),
        call_ensures(Connection::session_reused, (c, flag), reused),
    ensures
        c@.state != HandshakeState::Established ==> version is None && !accepted && retry is None
            && session is None,
        c@.state == HandshakeState::Established ==> {
            &&& version is Some <==> 0x0301 <= number <= 0x0304
            &&& version matches Some(v) ==> v@ == (if number == 0x0301 {
                "TLSv1"@
            } else {
                "TLSv1."@ + crate::text::decimal((number - 0x0301) as nat)
            })
            &&& accepted <==> flag == 1
            &&& retry is Some <==> (data matches Some(b) && b@.len() > 0)
            &&& retry matches Some(v) ==> v@ == data->Some_0@
            &&& session == taken
        },
        reused <==> flag == 1,
{
    reveal_strlit("TLSv1.");
    reveal_strlit("TLSv1.1");
    reveal_strlit("TLSv1.2");
    reveal_strlit("TLSv1.3");
    reveal_with_fuel(crate::text::decimal, 2);
    assert("TLSv1.1"@ =~= "TLSv1."@ + crate::text::decimal(1));
    assert("TLSv1.2"@ =~= "TLSv1."@ + crate::text::decimal(2));
    assert("TLSv1.3"@ =~= "TLSv1."@ + crate::text::decimal(3));
}

/// Names that the peer sent in UTF-8 are told as they are: the server name it
/// asked for, the protocol that was chosen unless it is empty, and the suite
/// with the version, or just `TLS` where there is none, and its strength.
pub proof fn law_names_that_are_told(
    c: &Connection,
    text: Seq<char>,
    bytes: &[u8],
    sni: Option<String>,
    alpn: Option<String>,
    none: Option<String>,
    nothing: Option<String>,
    current: CurrentCipher,
    number: i32,
    suite: Option<(String, &'static str, i32)>,
    version: Option<&'static str>,
)
    requires
        bytes@ == vstd::utf8::encode_utf8(text),
        call_ensures(Connection::peer_sni, (c, Some(bytes)), sni),
        call_ensures(Connection::selected_alpn, (c, Some(bytes)), alpn),
        call_ensures(Connection::peer_sni, (c, None), none),
        call_ensures(Connection::selected_alpn, (c, None), nothing),
        call_ensures(Connection::cipher, (c, Some(current), number), suite),
        call_ensures(Connection::version, (c, number), version),
    ensures
        sni matches Some(s) && s@ == text,
        alpn is Some <==> bytes@.len() > 0,
        alpn matches Some(s) ==> s@ == text,
        none is None && nothing is None,
        suite is Some <==> current.name is Some,
        suite matches Some(t) ==> t.2 == current.bits && t.1@ == (match version {
            Some(v) => v@,
            None => "TLS"@,
        }),
        suite matches Some(t) ==> (current.name->Some_0@ == bytes@ ==> t.0@ == text),
{
    crate::text::law_utf8_reads_back(text);
}

/// A server sees the fingerprint of the ClientHello that was captured for it,
/// where that is well-formed; a client sees none.
pub proof fn law_observed_fingerprints(
    c: &Connection,
    raw: &[u8],
    r: Option<Fingerprint>,
    none: Option<Fingerprint>,
)
    requires
        call_ensures(Connection::observed_client_fingerprint, (c, Some(raw)), r),
        call_ensures(Connection::observed_client_fingerprint, (c, None), none),
    ensures
        none is None,
        r is Some <==> c@.is_server && crate::fingerprint::capture::client_hello(raw@) is Ok,
        r matches Some(fp) ==> crate::fingerprint::capture::client_hello(raw@) == Ok::<
            crate::fingerprint::spec::FingerprintModel,
            Seq<char>,
        >(fp@),
{
}

/// What is told of a connection is what it holds.
pub proof fn law_what_is_told(
    c: &Connection,
    state: HandshakeState,
    host: Option<&str>,
    server: bool,
)
    requires
        call_ensures(Connection::state, (c,), state),
        call_ensures(Connection::server_hostname, (c,), host),
        call_ensures(Connection::is_server, (c,), server),
    ensures
        state == c@.state,
        server == c@.is_server,
        host is Some <==> c@.server_hostname is Some,
        host matches Some(h) ==> c@.server_hostname == Some(h@),
{
}

} // verus!
