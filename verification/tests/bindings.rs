use utls::bindings::{
    action_for, callback_decision, certificate_entries, fault_text, new_fingerprint, protocol_of,
    purpose_of, read_limit, report_error, verify_mode_code, verify_mode_of, version_bounds_of,
    version_of, ArgumentFault, CallbackFault, CallbackReply, CertValue, EchArgument, ErrorReport,
    FingerprintArguments, PeerCertInfo, SniView,
};
use utls::context::{Protocol, Purpose, TlsVersion, VerifyMode};
use utls::error::Error;
use utls::fingerprint::spec::{CertCompressAlg, EchPolicy, Fingerprint};
use utls::registry::Registries;
use utls::sni::{
    reply_to, server_name_for_dispatch, sni_callback, SniAction, SniDispatcher, SniReply,
    SniSslHandle,
};

fn arguments() -> FingerprintArguments {
    FingerprintArguments {
        cipher_suites: None,
        extensions_order: None,
        supported_groups: None,
        key_shares: None,
        signature_algorithms: None,
        alpn: None,
        alps: None,
        alps_use_new_codepoint: true,
        compress_certificate: None,
        record_size_limit: None,
        grease: true,
        grease_sigalgs: false,
        ech: EchArgument::Absent,
        padding: None,
        trust_anchors: None,
    }
}

#[test]
fn numbers_of_the_module() {
    assert_eq!(protocol_of(2), Ok(Protocol::TlsClient));
    assert_eq!(protocol_of(3), Ok(Protocol::TlsServer));
    assert_eq!(
        protocol_of(16),
        Err("protocol must be PROTOCOL_TLS_CLIENT (2) or PROTOCOL_TLS_SERVER (3)")
    );
    for mode in [VerifyMode::Disabled, VerifyMode::Optional, VerifyMode::Required] {
        assert_eq!(verify_mode_of(verify_mode_code(mode)), Ok(mode));
    }
    assert_eq!(verify_mode_code(VerifyMode::Required), 2);
    assert_eq!(verify_mode_of(3), Err("verify_mode must be 0, 1, or 2"));
    assert_eq!(version_of(0), Ok(TlsVersion::MinimumSupported));
    assert_eq!(version_of(9), Ok(TlsVersion::MaximumSupported));
    assert_eq!(version_of(1), Err("invalid TLS version code"));
    assert_eq!(version_bounds_of(2, 3), Ok((TlsVersion::Tls1_2, TlsVersion::Tls1_3)));
    assert_eq!(version_bounds_of(2, 4), Err("invalid TLS version code"));
    assert_eq!(purpose_of(0), Ok(Purpose::ServerAuth));
    assert_eq!(purpose_of(1), Ok(Purpose::ClientAuth));
    assert_eq!(purpose_of(2), Err("purpose must be 0 (SERVER_AUTH) or 1 (CLIENT_AUTH)"));
    assert_eq!(read_limit(-1), None);
    assert_eq!(read_limit(0), Some(0));
    assert_eq!(read_limit(5), Some(5));
}

#[test]
fn fingerprint_arguments() {
    assert_eq!(new_fingerprint(arguments()), Ok(Fingerprint::default()));
    let mut a = arguments();
    a.cipher_suites = Some(vec![1]);
    a.alpn = Some(vec!["h2".to_string()]);
    a.compress_certificate = Some(vec!["Brotli".to_string(), "zstd".to_string()]);
    a.ech = EchArgument::Bytes(vec![4]);
    a.trust_anchors = Some(vec![1, 2]);
    let fp = new_fingerprint(a).unwrap();
    assert_eq!(fp.cipher_suites, vec![1]);
    assert_eq!(fp.alpn, vec!["h2"]);
    assert_eq!(fp.compress_certificate, vec![CertCompressAlg::Brotli, CertCompressAlg::Zstd]);
    assert_eq!(fp.ech, EchPolicy::Real(vec![4]));
    assert_eq!(fp.trust_anchors, Some(vec![1, 2]));
    let mut a = arguments();
    a.ech = EchArgument::Flag(true);
    assert_eq!(new_fingerprint(a).unwrap().ech, EchPolicy::Grease);
    let mut a = arguments();
    a.ech = EchArgument::Flag(false);
    assert_eq!(new_fingerprint(a).unwrap().ech, EchPolicy::Off);
}

#[test]
fn fingerprint_argument_faults_in_order() {
    let mut a = arguments();
    a.compress_certificate = Some(vec!["zlib".to_string(), "l\"z".to_string()]);
    a.ech = EchArgument::Other;
    a.trust_anchors = Some(vec![0]);
    assert_eq!(
        new_fingerprint(a),
        Err(ArgumentFault::Value(
            "unknown compress_certificate algorithm: \"l\\\"z\" (allowed: zlib, brotli, zstd)"
                .to_string()
        ))
    );
    let mut a = arguments();
    a.ech = EchArgument::Other;
    a.trust_anchors = Some(vec![0]);
    assert_eq!(
        new_fingerprint(a),
        Err(ArgumentFault::Value("ech must be bool or bytes".to_string()))
    );
    let mut a = arguments();
    a.trust_anchors = Some(vec![0]);
    assert!(matches!(new_fingerprint(a), Err(ArgumentFault::Invalid(Error::Usage(_)))));
}

#[test]
fn arguments_rebuild_a_fingerprint() {
    let fp = Fingerprint::builder()
        .compress_certificate(vec![CertCompressAlg::Zstd])
        .key_shares(vec![29])
        .padding(Some(3))
        .build();
    let mut a = arguments();
    a.compress_certificate = Some(vec!["zstd".to_string()]);
    a.key_shares = Some(vec![29]);
    a.padding = Some(3);
    assert_eq!(new_fingerprint(a), Ok(fp));
}

#[test]
fn error_reports() {
    let core = |kind: &'static str, message: &str, verify_code: Option<i64>| ErrorReport::Core {
        kind,
        message: message.to_string(),
        verify_code,
    };
    let shown = || "shown".to_string();
    assert_eq!(report_error(&Error::WantRead, shown()), core("WantRead", "shown", None));
    assert_eq!(report_error(&Error::WantWrite, shown()), core("WantWrite", "shown", None));
    assert_eq!(report_error(&Error::Eof, shown()), core("Eof", "shown", None));
    assert_eq!(report_error(&Error::ZeroReturn, shown()), core("ZeroReturn", "shown", None));
    assert_eq!(report_error(&Error::Io("x".to_string()), shown()), core("Io", "shown", None));
    let failed = |code| Error::Verification { reason: "r".to_string(), verify_code: code };
    assert_eq!(report_error(&failed(Some(18)), shown()), core("Verification", "r", Some(18)));
    assert_eq!(report_error(&failed(None), shown()), core("Verification", "r", Some(0)));
    let protocol = Error::Protocol { message: "m".to_string(), code: Some(1) };
    assert_eq!(report_error(&protocol, shown()), core("Protocol", "m", None));
    assert_eq!(
        report_error(&Error::Usage("u".to_string()), shown()),
        ErrorReport::Value(shown())
    );
    assert_eq!(
        report_error(&Error::Unsupported("u".to_string()), shown()),
        ErrorReport::NotImplemented(shown())
    );
}

#[test]
fn callback_replies() {
    assert_eq!(action_for(callback_decision(CallbackReply::Nothing)), SniAction::Proceed);
    assert_eq!(action_for(callback_decision(CallbackReply::Number(112))), SniAction::Abort(112));
    assert_eq!(action_for(callback_decision(CallbackReply::Number(256))), SniAction::Abort(80));
    assert_eq!(action_for(callback_decision(CallbackReply::Other)), SniAction::Abort(80));
    assert_eq!(action_for(callback_decision(CallbackReply::Raised)), SniAction::Abort(80));
    assert_eq!(fault_text(CallbackFault::Raised), None);
    assert_eq!(
        fault_text(CallbackFault::NotAnAlert),
        Some("SNI callback must return None or an int TLS alert code")
    );
    assert_eq!(
        fault_text(CallbackFault::AlertTooLarge),
        Some("SNI callback alert code must fit in a byte (0..=255)")
    );
}

#[test]
fn views_end_with_the_callback() {
    let mut v = SniView::new(SniSslHandle::from_raw(99), Some("host".to_string()));
    assert_eq!(v.server_name(), Some("host"));
    assert_eq!(v.swap_target().unwrap().as_usize(), 99);
    v.invalidate();
    assert_eq!(
        v.swap_target(),
        Err("SniHandshakeView is no longer valid (the callback has returned)")
    );
    assert_eq!(v.server_name(), Some("host"));
}

struct Refuse;

impl SniDispatcher for Refuse {
    fn dispatch(&self, handle: SniSslHandle, server_name: Option<&str>) -> SniAction {
        if handle.as_usize() == 5 && server_name == Some("bad") {
            SniAction::Abort(112)
        } else {
            SniAction::Proceed
        }
    }
}

#[test]
fn sni_callbacks() {
    let h = SniSslHandle::from_raw(5);
    let fatal = SniReply { code: 2, alert: Some(112) };
    let fine = SniReply { code: 0, alert: None };
    assert_eq!(sni_callback(Some(&Refuse), h, Some(b"bad")), fatal);
    assert_eq!(sni_callback(Some(&Refuse), h, Some(b"good")), fine);
    assert_eq!(sni_callback(Some(&Refuse), h, Some(b"bad\xFF")), fine);
    assert_eq!(sni_callback::<Refuse>(None, h, Some(b"bad")), fine);
    assert_eq!(reply_to(SniAction::Abort(80)), SniReply { code: 2, alert: Some(80) });
}

#[test]
fn names_for_dispatch() {
    assert_eq!(server_name_for_dispatch(Some("h\u{e9}".as_bytes())), Some("h\u{e9}".to_string()));
    assert_eq!(server_name_for_dispatch(Some(b"\xC3")), None);
    assert_eq!(server_name_for_dispatch(None), None);
}

#[test]
fn certificates_as_entries() {
    let info = |alternatives: Vec<(String, String)>| PeerCertInfo {
        subject: vec![vec![("commonName".to_string(), "a".to_string())]],
        issuer: vec![],
        version: 3,
        serial_number: "01".to_string(),
        not_before: "b".to_string(),
        not_after: "c".to_string(),
        subject_alt_name: alternatives,
    };
    let d = certificate_entries(info(vec![]));
    let keys: Vec<&str> = d.iter().map(|e| e.0).collect();
    assert_eq!(
        keys,
        vec!["subject", "issuer", "version", "serialNumber", "notBefore", "notAfter"]
    );
    assert!(matches!(d[2].1, CertValue::Number(3)));
    assert!(matches!(&d[3].1, CertValue::Text(t) if t == "01"));
    assert!(matches!(&d[0].1, CertValue::Name(n) if n[0][0].1 == "a"));
    let d = certificate_entries(info(vec![("DNS".to_string(), "a".to_string())]));
    assert_eq!(d[6].0, "subjectAltName");
    assert!(matches!(&d[6].1, CertValue::Pairs(p) if p.len() == 1));
}

#[test]
fn registries_forget_what_is_scrubbed() {
    let mut r: Registries<u32, &str> = Registries::new();
    r.alpn_registry_set(1, vec![b"h2".to_vec()]);
    r.alpn_registry_set(2, vec![b"h3".to_vec()]);
    r.keylog_registry_set(1, 7);
    r.keylog_registry_set(2, 8);
    r.sni_registry_set(1, "one");
    r.sni_registry_set(2, "two");
    assert_eq!(r.alpn_registry_lookup(1), Some(&vec![b"h2".to_vec()]));
    r.scrub(1);
    assert_eq!(r.alpn_registry_lookup(1), None);
    assert_eq!(r.keylog_registry_lookup(1), None);
    assert_eq!(r.sni_registry_lookup(1), None);
    assert_eq!(r.alpn_registry_lookup(2), Some(&vec![b"h3".to_vec()]));
    assert_eq!(r.keylog_registry_lookup(2), Some(&8));
    assert_eq!(r.sni_registry_lookup(2), Some(&"two"));
    r.alpn_registry_set(9, vec![b"own".to_vec()]);
    assert_eq!(r.alpn_of_connection(9, 2), Some(&vec![b"own".to_vec()]));
    assert_eq!(r.alpn_of_connection(8, 2), Some(&vec![b"h3".to_vec()]));
    assert_eq!(r.alpn_of_connection(8, 1), None);
    r.scrub(9);
    assert_eq!(r.alpn_of_connection(9, 2), Some(&vec![b"h3".to_vec()]));
    assert_eq!(r.keylog_of_connection(9, 2), Some(&8));
    r.keylog_connection_set(9, Some(5));
    assert_eq!(r.keylog_of_connection(9, 2), Some(&5));
    r.keylog_connection_set(9, None);
    assert_eq!(r.keylog_of_connection(9, 2), None);
    assert_eq!(r.keylog_of_connection(8, 2), Some(&8));
    assert_eq!(r.sni_of_connection(9, 2), Some(&"two"));
    r.sni_connection_set(9, Some("own"));
    assert_eq!(r.sni_of_connection(9, 2), Some(&"own"));
    r.sni_connection_set(9, None);
    assert_eq!(r.sni_of_connection(9, 2), None);
    assert_eq!(r.sni_of_connection(8, 2), Some(&"two"));
    r.scrub(9);
    assert_eq!(r.keylog_of_connection(9, 2), Some(&8));
    assert_eq!(r.sni_of_connection(9, 2), Some(&"two"));
    r.keylog_registry_remove(2);
    r.sni_registry_remove(2);
    assert_eq!(r.keylog_registry_lookup(2), None);
    assert_eq!(r.sni_registry_lookup(2), None);
}
