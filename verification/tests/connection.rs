use utls::connection::{
    handshake_error, translate_ssl_error, Connection, CurrentCipher, HandshakeAction,
    HandshakeState,
};
use utls::context::{Context, Protocol};
use utls::error::Error;
use utls::wrap::NativeSnapshot;

fn connection(protocol: Protocol) -> Connection {
    let native = NativeSnapshot {
        certificate: false,
        key: false,
        chain: false,
        ciphers: vec![],
        keylog: false,
    };
    Context::new(protocol).0.wrap_bio(Some("h"), false, false, &native).unwrap().0
}

fn established() -> Connection {
    let mut c = connection(Protocol::TlsClient);
    c.do_handshake();
    c.handshake_returned(1);
    c
}

#[test]
fn handshake_states() {
    let mut c = connection(Protocol::TlsClient);
    assert_eq!(c.state(), HandshakeState::NotStarted);
    assert_eq!(c.do_handshake(), HandshakeAction::Drive);
    assert_eq!(c.state(), HandshakeState::InProgress);
    assert!(!c.handshake_returned(-1));
    assert_eq!(c.state(), HandshakeState::InProgress);
    assert_eq!(c.do_handshake(), HandshakeAction::Drive);
    assert!(c.handshake_returned(1));
    assert_eq!(c.state(), HandshakeState::Established);
    assert_eq!(c.do_handshake(), HandshakeAction::Complete);
    assert_eq!(c.shutdown(0), Some(false));
    assert_eq!(c.state(), HandshakeState::Established);
    assert_eq!(c.shutdown(-1), None);
    assert_eq!(c.shutdown(1), Some(true));
    assert_eq!(c.state(), HandshakeState::Shutdown);
}

#[test]
fn engine_codes() {
    assert_eq!(translate_ssl_error(2), Some(Error::WantRead));
    assert_eq!(translate_ssl_error(3), Some(Error::WantWrite));
    assert_eq!(translate_ssl_error(5), Some(Error::Eof));
    assert_eq!(translate_ssl_error(6), Some(Error::ZeroReturn));
    assert_eq!(translate_ssl_error(1), None);
}

#[test]
fn certificates_are_blamed_only_where_checked() {
    let failure = || Error::Protocol { message: "m".to_string(), code: Some(4) };
    assert_eq!(handshake_error(failure(), 3, 18), None);
    assert_eq!(handshake_error(failure(), 1, 18), None);
    assert_eq!(handshake_error(failure(), 0, 18), Some(failure()));
    assert_eq!(handshake_error(failure(), 3, 0), Some(failure()));
    assert_eq!(handshake_error(Error::WantRead, 3, 18), Some(Error::WantRead));
    assert_eq!(handshake_error(Error::Eof, 3, 18), Some(Error::Eof));
}

#[test]
fn reads_gather_until_the_engine_stops() {
    let c = connection(Protocol::TlsClient);
    let mut r = c.read(10);
    assert_eq!((r.capacity(), r.wanted()), (10, 10));
    r.answer(4);
    assert_eq!((r.filled(), r.wanted()), (4, 6));
    r.answer(-1);
    assert_eq!(r.wanted(), 0);
    assert_eq!(r.outcome(), Some(4));
    let mut r = c.read_into(&[0; 3]);
    r.answer(3);
    assert_eq!(r.wanted(), 0);
    assert_eq!(r.outcome(), Some(3));
    let mut r = c.read(5);
    r.answer(0);
    assert_eq!((r.wanted(), r.outcome()), (0, None));
    let r = c.read(0);
    assert_eq!((r.wanted(), r.outcome()), (0, Some(0)));
    assert_eq!(c.read(usize::MAX).wanted(), i32::MAX);
}

#[test]
fn writes() {
    let c = connection(Protocol::TlsClient);
    assert_eq!(c.write(b""), None);
    assert_eq!(c.write(b"abc"), Some(3));
    assert_eq!(c.written(2), Some(2));
    assert_eq!(c.written(0), None);
    assert_eq!(c.written(-1), None);
}

#[test]
fn negotiated_values() {
    let c = established();
    assert_eq!(c.version(0x0304), Some("TLSv1.3"));
    assert_eq!(c.version(0x0303), Some("TLSv1.2"));
    assert_eq!(c.version(0x0302), Some("TLSv1.1"));
    assert_eq!(c.version(0x0301), Some("TLSv1"));
    assert_eq!(c.version(0x0300), None);
    let suite = || Some(CurrentCipher { name: Some(b"AES".to_vec()), bits: 128 });
    assert_eq!(c.cipher(suite(), 0x0304), Some(("AES".to_string(), "TLSv1.3", 128)));
    assert_eq!(c.cipher(suite(), 0), Some(("AES".to_string(), "TLS", 128)));
    assert_eq!(c.cipher(Some(CurrentCipher { name: None, bits: 1 }), 0x0304), None);
    assert_eq!(c.cipher(None, 0x0304), None);
    assert!(c.ech_accepted(1) && !c.ech_accepted(0));
    assert_eq!(c.ech_retry_configs(Some(&[1, 2])), Some(vec![1, 2]));
    assert_eq!(c.ech_retry_configs(Some(&[])), None);
    assert_eq!(c.session(Some(7)), Some(7));
    assert!(c.session_reused(1) && !c.session_reused(0));
    assert_eq!(c.selected_alpn(Some(b"h2")), Some("h2".to_string()));
    assert_eq!(c.selected_alpn(Some(b"")), None);
    assert_eq!(c.selected_alpn(None), None);
    assert_eq!(c.peer_sni(Some(b"a\xFF")), Some("a\u{FFFD}".to_string()));
    assert_eq!(c.peer_sni(None), None);
}

#[test]
fn nothing_is_negotiated_before_the_handshake() {
    let c = connection(Protocol::TlsClient);
    assert_eq!(c.version(0x0304), None);
    assert!(!c.ech_accepted(1));
    assert_eq!(c.ech_retry_configs(Some(&[1])), None);
    assert_eq!(c.session(Some(7)), None);
}

#[test]
fn only_servers_observe_fingerprints() {
    let mut raw = vec![0x16, 3, 1, 0, 45, 1, 0, 0, 41, 3, 3];
    raw.extend_from_slice(&[0; 32]);
    raw.extend_from_slice(&[0, 0, 2, 0x13, 0x01, 1, 0]);
    let s = connection(Protocol::TlsServer);
    let fp = s.observed_client_fingerprint(Some(&raw)).unwrap();
    assert_eq!(fp.cipher_suites, vec![0x1301]);
    assert!(s.observed_client_fingerprint(None).is_none());
    assert!(s.observed_client_fingerprint(Some(&raw[..20])).is_none());
    assert!(connection(Protocol::TlsClient).observed_client_fingerprint(Some(&raw)).is_none());
}
