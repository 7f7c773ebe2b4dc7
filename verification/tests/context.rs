use utls::chain::{password_reply, wipe, ChainLoad, Stage};
use utls::context::{Context, Protocol, Purpose, TlsVersion, VerifyMode};
use utls::error::Error;
use utls::fingerprint::spec::Fingerprint;
use utls::plan::{Argument, End, Function, OnFailure, Plan};
use utls::store::{Encoding, StoreEntry};
use utls::wrap::NativeSnapshot;

fn functions(plan: &Plan) -> Vec<Function> {
    plan.steps.iter().map(|s| s.call.function).collect()
}

fn client() -> Context {
    Context::new(Protocol::TlsClient).0
}

fn server() -> Context {
    Context::new(Protocol::TlsServer).0
}

fn text<T>(r: Result<T, Error>) -> String {
    match r {
        Err(Error::Usage(t)) => t,
        Err(other) => panic!("{:?}", other),
        Ok(_) => panic!("no error"),
    }
}

fn snapshot() -> NativeSnapshot {
    NativeSnapshot { certificate: false, key: false, chain: false, ciphers: vec![], keylog: false }
}

#[test]
fn fresh_contexts() {
    let (c, plan) = Context::new(Protocol::TlsClient);
    assert!(!c.is_server() && c.check_hostname());
    assert_eq!(c.verify_mode(), VerifyMode::Required);
    assert_eq!(
        functions(&plan),
        vec![
            Function::NewContext,
            Function::SetMinVersion,
            Function::SetMaxVersion,
            Function::SetVerify,
            Function::ClearAutoRetry,
        ]
    );
    assert!(matches!(plan.steps[0].call.argument, Argument::Flag(false)));
    assert!(matches!(plan.steps[0].on_failure, OnFailure::Report("SSL_CTX_new")));
    assert!(matches!(plan.steps[1].call.argument, Argument::Number(0x0303)));
    assert!(matches!(plan.steps[2].call.argument, Argument::Number(0x0304)));
    assert!(matches!(plan.steps[3].call.argument, Argument::Number(3)));
    let (s, plan) = Context::new(Protocol::TlsServer);
    assert!(s.is_server() && !s.check_hostname());
    assert_eq!(s.verify_mode(), VerifyMode::Disabled);
    assert_eq!(
        functions(&plan)[4..],
        [
            Function::ClearAutoRetry,
            Function::InstallCapture,
            Function::InstallAlpnSelection,
            Function::InstallSniDispatch,
        ]
    );
    assert!(matches!(plan.steps[3].call.argument, Argument::Number(0)));
    assert!(Protocol::TlsServer.is_server() && !Protocol::TlsClient.is_server());
    assert_ne!(Purpose::ServerAuth, Purpose::ClientAuth);
}

#[test]
fn verify_mode_and_hostname_checks() {
    let mut c = client();
    let plan = c.set_verify_mode(VerifyMode::Optional);
    assert!(matches!(plan.steps[0].call.argument, Argument::Number(1)));
    c.set_check_hostname(false).unwrap();
    c.set_verify_mode(VerifyMode::Disabled);
    assert_eq!(
        text(c.set_check_hostname(true)),
        "Cannot enable check_hostname while verify_mode is CERT_NONE"
    );
    assert!(!c.check_hostname());
    c.set_check_hostname(false).unwrap();
    c.set_verify_mode(VerifyMode::Required);
    c.set_check_hostname(true).unwrap();
    assert!(c.check_hostname());
    c.set_verify_mode(VerifyMode::Disabled);
    assert!(c.check_hostname());
}

#[test]
fn version_bounds() {
    let mut c = client();
    let plan = c
        .set_version_bounds(TlsVersion::MinimumSupported, TlsVersion::MaximumSupported)
        .unwrap();
    assert!(matches!(plan.steps[0].call.argument, Argument::Number(0x0303)));
    assert!(matches!(plan.steps[1].call.argument, Argument::Number(0x0304)));
    assert_eq!(
        text(c.set_version_bounds(TlsVersion::Tls1_3, TlsVersion::Tls1_2)),
        "minimum_version (Tls1_3) cannot exceed maximum_version (Tls1_2)"
    );
    assert_eq!(
        text(c.set_version_bounds(TlsVersion::MaximumSupported, TlsVersion::Tls1_3)),
        "minimum_version (MaximumSupported) cannot exceed maximum_version (Tls1_3)"
    );
    c.set_version_bounds(TlsVersion::Tls1_3, TlsVersion::Tls1_3).unwrap();
    let all = [
        TlsVersion::MinimumSupported,
        TlsVersion::Tls1_2,
        TlsVersion::Tls1_3,
        TlsVersion::MaximumSupported,
    ];
    for a in all {
        for b in all {
            assert_eq!(c.set_version_bounds(a, b).is_ok(), a <= b);
            assert!(a > b || a.to_boring_version() <= b.to_boring_version());
        }
    }
}

#[test]
fn alpn_protocols() {
    let mut c = client();
    let plan = c.set_alpn_protocols(&["h2", "http/1.1"]).unwrap();
    assert_eq!(functions(&plan), vec![Function::SetContextAlpn]);
    assert!(matches!(&plan.steps[0].call.argument, Argument::Bytes(b) if b == b"\x02h2\x08http/1.1"));
    assert_eq!(c.alpn_list_snapshot(), vec![b"h2".to_vec(), b"http/1.1".to_vec()]);
    assert_eq!(
        text(c.set_alpn_protocols(&["h3", ""])),
        "ALPN protocol \"\" must be 1..=255 bytes"
    );
    assert_eq!(c.alpn_list_snapshot().len(), 2);
    let mut s = server();
    let plan = s.set_alpn_protocols(&["h2"]).unwrap();
    assert_eq!(functions(&plan), vec![Function::RegisterAlpn]);
    assert!(matches!(&plan.steps[0].call.argument, Argument::Names(n) if *n == vec![b"h2".to_vec()]));
}

#[test]
fn lists_without_nul() {
    let c = client();
    let plan = c.set_ciphers("HIGH:!aNULL").unwrap();
    assert!(matches!(&plan.steps[0].call.argument, Argument::Text(t) if t == "HIGH:!aNULL"));
    assert_eq!(text(c.set_ciphers("a\0b")), "cipher list contains a NUL byte");
    let plan = c.set_curves_list("X25519").unwrap();
    assert_eq!(functions(&plan), vec![Function::SetCurves]);
    assert_eq!(text(c.set_curves_list("\0")), "curves list contains a NUL byte");
}

#[test]
fn fingerprints_are_for_clients() {
    let mut c = client();
    c.set_fingerprint(Some(Fingerprint::default())).unwrap();
    assert_eq!(c.fingerprint(), Some(Fingerprint::default()));
    let bad = Fingerprint::builder().trust_anchors(Some(vec![0])).build();
    assert!(c.set_fingerprint(Some(bad)).is_err());
    assert_eq!(c.fingerprint(), Some(Fingerprint::default()));
    c.set_fingerprint(None).unwrap();
    assert_eq!(c.fingerprint(), None);
    let mut s = server();
    assert_eq!(
        text(s.set_fingerprint(Some(Fingerprint::default()))),
        "set_fingerprint() is client-only (servers do not send a ClientHello)"
    );
    s.set_fingerprint(None).unwrap();
}

#[test]
fn session_id_and_tickets() {
    let mut c = server();
    let plan = c.set_session_id_context(&[7; 32]).unwrap();
    assert!(matches!(&plan.steps[0].call.argument, Argument::Bytes(b) if b.len() == 32));
    assert_eq!(
        text(c.set_session_id_context(&[7; 33])),
        "session_id_context must be at most 32 bytes"
    );
    let plan = c.set_num_tickets(5);
    assert!(matches!(plan.steps[0].call.argument, Argument::Number(5)));
    assert_eq!(c.num_tickets(5), 5);
    assert_eq!(c.num_tickets(2), 2);
}

#[test]
fn ticket_numbers_of_a_fork_are_its_own() {
    let mut base = server();
    let mut fork = base.set_ech_configs(None);
    assert_eq!(fork.num_tickets(2), 2);
    assert!(fork.set_num_tickets(5).steps.is_empty());
    assert_eq!((fork.num_tickets(2), base.num_tickets(2)), (5, 2));
    fork.set_num_tickets(100);
    assert_eq!(fork.num_tickets(2), 16);
    let (_, plan) = fork.wrap_bio(None, false, false, &snapshot()).unwrap();
    assert!(!functions(&plan).contains(&Function::SetNumTickets));
}

#[test]
fn key_logs_of_a_fork_are_its_own() {
    let mut base = client();
    let mut fork = base.set_ech_configs(None);
    let plan = fork.set_keylog_filename(Some("keys.log"), Ok(())).unwrap();
    assert!(plan.steps.is_empty());
    let (_, plan) = fork.wrap_bio(Some("h"), false, false, &snapshot()).unwrap();
    let made = functions(&plan);
    let callback = made.iter().position(|f| *f == Function::SetKeylogCallback).unwrap();
    let attach = made.iter().position(|f| *f == Function::AttachPrivateContext).unwrap();
    assert!(callback < attach);
    assert!(!made.contains(&Function::CopyKeylog) && !made.contains(&Function::CopySni));
    assert!(matches!(argument(&plan, Function::RegisterConnectionKeylog), Argument::Flag(true)));
    let (_, plan) = base.wrap_bio(Some("h"), false, false, &snapshot()).unwrap();
    assert!(!functions(&plan).contains(&Function::RegisterConnectionKeylog));
    assert!(!functions(&plan).contains(&Function::AttachPrivateContext));
    assert!(fork.set_keylog_filename(None, Ok(())).unwrap().steps.is_empty());
    let (_, plan) = fork.wrap_bio(Some("h"), false, false, &snapshot()).unwrap();
    assert!(matches!(argument(&plan, Function::RegisterConnectionKeylog), Argument::Flag(false)));
    assert!(!functions(&plan).contains(&Function::AttachPrivateContext));
    let before = fork.set_keylog_filename(Some("x"), Err("denied".to_string()));
    assert!(before.is_err());
    let (_, plan) = fork.wrap_bio(Some("h"), false, false, &snapshot()).unwrap();
    assert!(matches!(argument(&plan, Function::RegisterConnectionKeylog), Argument::Flag(false)));
}

#[test]
fn dispatchers_of_a_fork_are_its_own() {
    let mut base = server();
    let mut fork = base.set_ech_configs(None);
    assert!(fork.set_sni_dispatcher(true).unwrap().steps.is_empty());
    let (_, plan) = fork.wrap_bio(None, false, false, &snapshot()).unwrap();
    assert!(matches!(argument(&plan, Function::RegisterConnectionSni), Argument::Flag(true)));
    let (_, plan) = base.wrap_bio(None, false, false, &snapshot()).unwrap();
    assert!(!functions(&plan).contains(&Function::RegisterConnectionSni));
    base.set_sni_dispatcher(false).unwrap();
    let (_, plan) = base.wrap_bio(None, false, false, &snapshot()).unwrap();
    assert!(matches!(argument(&plan, Function::RegisterConnectionSni), Argument::Flag(false)));
    fork.set_keylog_filename(Some("keys.log"), Ok(())).unwrap();
    let (_, plan) = fork.wrap_bio(None, false, false, &snapshot()).unwrap();
    assert!(matches!(argument(&plan, Function::NewContext), Argument::Flag(true)));
    assert!(functions(&plan).contains(&Function::CopySni));
    let mut c = client();
    let mut d = c.set_ech_configs(None);
    assert!(d.set_sni_dispatcher(true).is_err());
}

#[test]
fn verify_flags_are_replaced() {
    let mut c = client();
    let plan = c.set_verify_flags(0x80);
    assert_eq!(functions(&plan), vec![Function::GetContextParam, Function::SetVerifyFlags]);
    c.verify_flags_set(0x80, &End::Failed("X509_VERIFY_PARAM_set_flags"));
    assert_eq!(c.verify_flags(), 0);
    c.verify_flags_set(0x80, &End::Done);
    assert_eq!(c.verify_flags(), 0x80);
    let plan = c.set_verify_flags(0x0C);
    let mut bits = 0x80u64 | 0x4000;
    for step in &plan.steps {
        match (step.call.function, &step.call.argument) {
            (Function::ClearVerifyFlags, Argument::Number(n)) => bits &= !n,
            (Function::SetVerifyFlags, Argument::Number(n)) => bits |= n,
            _ => {}
        }
    }
    assert_eq!(bits, 0x400C);
    let plan = c.set_verify_flags(0);
    assert_eq!(functions(&plan), vec![Function::GetContextParam, Function::ClearVerifyFlags]);
}

#[test]
fn keylog() {
    let mut c = client();
    let plan = c.set_keylog_filename(Some("keys.log"), Ok(())).unwrap();
    assert_eq!(functions(&plan), vec![Function::RegisterKeylog, Function::SetKeylogCallback]);
    assert!(matches!(plan.steps[0].call.argument, Argument::Flag(true)));
    match c.set_keylog_filename(Some("a\"b"), Err("denied".to_string())) {
        Err(Error::Protocol { message, code: None }) => {
            assert_eq!(message, "keylog_filename: could not open \"a\\\"b\": denied")
        }
        other => panic!("{:?}", other),
    }
    let plan = c.set_keylog_filename(None, Err("unused".to_string())).unwrap();
    assert!(matches!(plan.steps[1].call.argument, Argument::Flag(false)));
}

#[test]
fn sni_dispatchers_are_for_servers() {
    assert_eq!(
        text(client().set_sni_dispatcher(true)),
        "set_servername_callback is server-side only"
    );
    let plan = server().set_sni_dispatcher(false).unwrap();
    assert!(matches!(plan.steps[0].call.argument, Argument::Flag(false)));
}

#[test]
fn ech_forks_leave_the_original_alone() {
    let mut base = client();
    base.set_fingerprint(Some(Fingerprint::default())).unwrap();
    base.set_alpn_protocols(&["h2"]).unwrap();
    base.set_check_hostname(false).unwrap();
    let mut fork = base.set_ech_configs(Some(vec![1, 2, 3]));
    assert_eq!(base.ech_config_list(), None);
    assert_eq!(fork.ech_config_list(), Some(vec![1, 2, 3]));
    assert_eq!(fork.fingerprint(), base.fingerprint());
    assert_eq!(fork.alpn_list_snapshot(), base.alpn_list_snapshot());
    assert!(!fork.check_hostname());
    assert_eq!(fork.set_ech_configs(None).ech_config_list(), None);
    assert_eq!(fork.ech_config_list(), Some(vec![1, 2, 3]));
}

fn argument(plan: &Plan, function: Function) -> &Argument {
    &plan.steps.iter().rfind(|s| s.call.function == function).unwrap().call.argument
}

#[test]
fn a_setting_of_a_fork_is_its_own() {
    let mut base = client();
    let mut fork = base.set_ech_configs(Some(vec![1]));
    assert!(fork.set_verify_mode(VerifyMode::Disabled).steps.is_empty());
    assert_eq!(fork.verify_mode(), VerifyMode::Disabled);
    assert_eq!(base.verify_mode(), VerifyMode::Required);
    fork.set_version_bounds(TlsVersion::Tls1_3, TlsVersion::Tls1_3).unwrap();
    let (_, plan) = fork.wrap_bio(Some("h"), false, false, &snapshot()).unwrap();
    assert!(matches!(argument(&plan, Function::SetConnectionVerify), Argument::Number(0)));
    assert!(matches!(
        argument(&plan, Function::SetConnectionMinVersion),
        Argument::Number(0x0304)
    ));
    let (_, plan) = base.wrap_bio(Some("h"), false, false, &snapshot()).unwrap();
    assert!(matches!(argument(&plan, Function::SetConnectionVerify), Argument::Number(3)));
    assert!(matches!(
        argument(&plan, Function::SetConnectionMinVersion),
        Argument::Number(0x0303)
    ));
    assert!(matches!(
        argument(&plan, Function::SetConnectionMaxVersion),
        Argument::Number(0x0304)
    ));
    assert!(base.set_verify_mode(VerifyMode::Optional).steps.is_empty());
    let (_, plan) = fork.wrap_bio(Some("h"), false, false, &snapshot()).unwrap();
    assert!(matches!(argument(&plan, Function::SetConnectionVerify), Argument::Number(0)));
}

#[test]
fn forks_advertise_their_own_protocols() {
    let mut base = client();
    base.set_alpn_protocols(&["h2"]).unwrap();
    let mut fork = base.set_ech_configs(None);
    assert!(fork.set_alpn_protocols(&["http/1.1"]).unwrap().steps.is_empty());
    let (_, plan) = fork.wrap_bio(Some("h"), false, false, &snapshot()).unwrap();
    assert!(
        matches!(argument(&plan, Function::SetAlpn), Argument::Bytes(b) if b == b"\x08http/1.1")
    );
    let (_, plan) = base.wrap_bio(Some("h"), false, false, &snapshot()).unwrap();
    assert!(matches!(argument(&plan, Function::SetAlpn), Argument::Bytes(b) if b == b"\x02h2"));
    let mut s = server();
    let mut t = s.set_ech_configs(None);
    assert!(t.set_alpn_protocols(&["h3"]).unwrap().steps.is_empty());
    let (_, plan) = t.wrap_bio(None, false, false, &snapshot()).unwrap();
    assert!(
        matches!(argument(&plan, Function::RegisterConnectionAlpn), Argument::Names(n) if *n == vec![b"h3".to_vec()])
    );
    let (_, plan) = s.wrap_bio(None, false, false, &snapshot()).unwrap();
    assert!(
        matches!(argument(&plan, Function::RegisterConnectionAlpn), Argument::Names(n) if n.is_empty())
    );
}

#[test]
fn lists_of_a_fork_are_tried_and_kept() {
    let mut base = client();
    let mut fork = base.set_ech_configs(None);
    let plan = fork.set_ciphers("HIGH").unwrap();
    assert_eq!(functions(&plan), vec![Function::NewTrial, Function::SetCiphers]);
    assert!(matches!(plan.steps[1].on_failure, OnFailure::Report("SSL_set_cipher_list")));
    fork.ciphers_set("BAD", &End::Failed("SSL_set_cipher_list"));
    let (_, plan) = fork.wrap_bio(Some("h"), false, false, &snapshot()).unwrap();
    assert!(!functions(&plan).contains(&Function::SetCiphers));
    fork.ciphers_set("HIGH", &End::Done);
    let plan = fork.set_curves_list("X25519").unwrap();
    assert_eq!(functions(&plan), vec![Function::NewTrial, Function::SetGroups]);
    fork.curves_set("X25519", &End::Done);
    assert!(fork.set_session_id_context(&[4; 33]).is_err());
    assert!(fork.set_session_id_context(&[4]).unwrap().steps.is_empty());
    let (_, plan) = fork.wrap_bio(Some("h"), false, false, &snapshot()).unwrap();
    assert!(matches!(argument(&plan, Function::SetCiphers), Argument::Text(t) if t == "HIGH"));
    assert!(matches!(argument(&plan, Function::SetGroups), Argument::Text(t) if t == "X25519"));
    assert!(
        matches!(argument(&plan, Function::SetConnectionIdContext), Argument::Bytes(b) if *b == vec![4])
    );
    let (_, plan) = base.wrap_bio(Some("h"), false, false, &snapshot()).unwrap();
    assert!(!functions(&plan).contains(&Function::SetCiphers));
    assert!(!functions(&plan).contains(&Function::SetGroups));
    let mut alone = client();
    alone.ciphers_set("HIGH", &End::Done);
    alone.curves_set("X25519", &End::Done);
    let (_, plan) = alone.wrap_bio(Some("h"), false, false, &snapshot()).unwrap();
    assert!(!functions(&plan).contains(&Function::SetCiphers));
}

fn bits_after(plan: &Plan, start: u64) -> u64 {
    let mut bits = start;
    for step in &plan.steps {
        match (step.call.function, &step.call.argument) {
            (Function::ClearVerifyFlags, Argument::Number(n)) => bits &= !n,
            (Function::SetVerifyFlags, Argument::Number(n)) => bits |= n,
            _ => {}
        }
    }
    bits
}

#[test]
fn verify_flags_of_a_fork_are_its_own() {
    let mut base = client();
    base.verify_flags_set(0x80, &End::Done);
    let mut fork = base.set_ech_configs(None);
    assert!(fork.set_verify_flags(0x0C).steps.is_empty());
    fork.verify_flags_set(0x0C, &End::Done);
    assert_eq!((base.verify_flags(), fork.verify_flags()), (0x80, 0x0C));
    let (_, plan) = fork.wrap_bio(Some("h"), false, false, &snapshot()).unwrap();
    assert!(functions(&plan).contains(&Function::GetConnectionParam));
    assert_eq!(bits_after(&plan, 0x4080), 0x400C);
    let (_, plan) = base.wrap_bio(Some("h"), false, false, &snapshot()).unwrap();
    assert_eq!(bits_after(&plan, 0x4080), 0x4080);
}

#[test]
fn verify_locations() {
    let c = client();
    assert_eq!(
        text(c.load_verify_locations(None, None)),
        "load_verify_locations() needs at least one of cafile / capath"
    );
    assert_eq!(
        text(c.load_verify_locations(Some("a\0"), Some("b\0"))),
        "cafile path contains a NUL byte"
    );
    assert_eq!(
        text(c.load_verify_locations(Some("a"), Some("b\0"))),
        "capath path contains a NUL byte"
    );
    let plan = c.load_verify_locations(None, Some("/certs")).unwrap();
    assert!(
        matches!(&plan.steps[0].call.argument, Argument::Paths(None, Some(p)) if p == "/certs")
    );
    let plan = c.add_trusted_cert_der(&[0x30]);
    assert_eq!(functions(&plan), vec![Function::ParseCertificate, Function::AddToStore]);
    assert!(matches!(plan.steps[0].on_failure, OnFailure::Report("d2i_X509 (cadata)")));
}

fn entry(kind: i32, announced: i32, written: i32, der: &[u8]) -> Option<StoreEntry> {
    Some(StoreEntry { kind, encoding: Some(Encoding { announced, written, der: der.to_vec() }) })
}

#[test]
fn store_contents() {
    let slots = vec![
        entry(1, 2, 2, &[1, 2]),
        None,
        entry(2, 2, 2, &[3, 4]),
        entry(1, 0, 0, &[]),
        entry(1, 3, 2, &[5, 6, 7]),
        Some(StoreEntry { kind: 1, encoding: None }),
        entry(1, 1, 1, &[9]),
        entry(3, 1, 1, &[9]),
    ];
    let c = client();
    assert_eq!(c.ca_certs_der(&slots), vec![vec![1, 2], vec![9]]);
    assert_eq!(c.cert_store_counts(&slots), (5, 1));
    assert_eq!(c.cert_store_counts(&vec![]), (0, 0));
}

fn load(results: &[bool]) -> ChainLoad {
    let mut l = client().load_cert_chain(b"certs", None, Some(b"secret"));
    for ok in results {
        l.answer(*ok);
    }
    l
}

#[test]
fn chain_with_intermediates_loads() {
    for k in 0..4 {
        let mut results = vec![true; 5 + 2 * k];
        results.push(false);
        results.extend_from_slice(&[true; 5]);
        let l = load(&results);
        assert_eq!(l.stage(), Stage::Loaded);
        assert_eq!(l.password(), Some(&[0u8; 6][..]));
        assert_eq!(l.key_source(), &[0u8; 5]);
    }
}

#[test]
fn keys_are_wiped() {
    let mut l = client().load_cert_chain(b"certs", Some(b"key"), None);
    for ok in [true, true, true, true, true, false, true, true] {
        l.answer(ok);
    }
    assert_eq!(l.stage(), Stage::ReadKey);
    assert_eq!(l.key_source(), b"key");
    l.answer(true);
    assert_eq!(l.stage(), Stage::UseKey);
    assert_eq!(l.key_source(), &[0u8; 3]);
    assert_eq!(l.certificates(), b"certs");
    let mut l = client().load_cert_chain(b"certs", Some(b"key"), None);
    l.answer(true);
    l.answer(false);
    assert_eq!(l.stage(), Stage::Failed);
    assert_eq!(l.key_source(), &[0u8; 3]);
}

#[test]
fn chain_failures_are_final() {
    let l = load(&[true, true, false, true, true]);
    assert_eq!(l.stage(), Stage::Failed);
    assert_eq!(l.label(), "PEM_read_bio_X509 (leaf)");
    assert_eq!(l.password(), Some(&[0u8; 6][..]));
    let l = load(&[true, true, true, true, true, true, false]);
    assert_eq!(l.label(), "SSL_CTX_add_extra_chain_cert");
    let l = load(&[true, true, true, true, true, false, true, true, false]);
    assert_eq!(l.label(), "PEM_read_bio_PrivateKey");
    let l = load(&[true, false]);
    assert_eq!(l.label(), "BIO_new_mem_buf");
    let l = load(&[true, true, true, true, true, false, true, true, true, true, false]);
    assert_eq!(l.label(), "SSL_CTX_check_private_key");
}

#[test]
fn chain_sources() {
    let l = client().load_cert_chain(b"certs", Some(b"key"), None);
    assert_eq!(l.certificates(), b"certs");
    assert_eq!(l.key_source(), b"key");
    assert_eq!(l.password(), None);
    let l = load(&[true, true, true, true, true, false, true, true]);
    assert_eq!(l.stage(), Stage::ReadKey);
    assert_eq!(l.key_source(), b"certs");
    assert_eq!(l.password(), Some(&b"secret"[..]));
}

#[test]
fn password_callback() {
    assert_eq!(password_reply(b"secret", 100), b"secret".to_vec());
    assert_eq!(password_reply(b"secret", 3), b"sec".to_vec());
    assert_eq!(password_reply(b"secret", 0), b"".to_vec());
    assert_eq!(password_reply(b"secret", -1), b"".to_vec());
    let mut buf = vec![1, 2, 3];
    wipe(&mut buf);
    assert_eq!(buf, vec![0, 0, 0]);
}

#[test]
fn wrapping_needs_a_hostname() {
    let c = client();
    assert_eq!(
        text(c.wrap_bio(None, false, false, &snapshot())),
        "server_hostname is required when check_hostname is True"
    );
    assert!(server().wrap_bio(None, false, false, &snapshot()).is_ok());
}

#[test]
fn wrapping_a_plain_client() {
    let c = client();
    let (conn, plan) = c.wrap_bio(Some("example.com"), false, true, &snapshot()).unwrap();
    assert_eq!(conn.server_hostname(), Some("example.com"));
    assert_eq!(
        functions(&plan),
        vec![
            Function::NewConnection,
            Function::SetBio,
            Function::SetConnectState,
            Function::SetServerName,
            Function::ExpectHost,
            Function::SetHostFlags,
            Function::SetSession,
        ]
    );
    assert!(matches!(argument(&plan, Function::SetHostFlags), Argument::Number(0x20)));
    let (_, plan) = c.wrap_bio(Some("192.0.2.1"), true, false, &snapshot()).unwrap();
    assert_eq!(
        functions(&plan)[2..],
        [Function::SetConnectState, Function::ExpectIp]
    );
    let (_, plan) = c.wrap_bio(Some("a\0b"), false, true, &snapshot()).unwrap();
    assert_eq!(plan.refusal.as_deref(), Some("server_hostname contains a NUL byte"));
    assert_eq!(functions(&plan).last(), Some(&Function::SetConnectState));
}

#[test]
fn wrapping_a_server() {
    let mut s = server();
    s.set_alpn_protocols(&["h2"]).unwrap();
    let (conn, plan) = s.wrap_bio(Some("ignored"), false, true, &snapshot()).unwrap();
    assert_eq!(conn.server_hostname(), None);
    assert!(conn.is_server());
    assert_eq!(
        functions(&plan),
        vec![
            Function::NewConnection,
            Function::SetBio,
            Function::SetAcceptState,
            Function::AttachCaptureSlot,
            Function::SetSession,
        ]
    );
}

#[test]
fn fingerprints_get_a_private_context() {
    let mut c = client();
    c.set_fingerprint(Some(Fingerprint::builder().alpn(vec!["h2".to_string()]).build())).unwrap();
    let c = c.set_ech_configs(Some(vec![5]));
    let native = NativeSnapshot {
        certificate: true,
        key: true,
        chain: true,
        ciphers: vec!["A".to_string(), "B".to_string()],
        keylog: true,
    };
    let (_, plan) = c.wrap_bio(Some("h"), false, false, &native).unwrap();
    assert_eq!(
        functions(&plan),
        vec![
            Function::NewConnection,
            Function::NewContext,
            Function::SetMinVersion,
            Function::SetMaxVersion,
            Function::SetVerify,
            Function::ClearAutoRetry,
            Function::ShareStore,
            Function::SetStore,
            Function::CopyParam,
            Function::CopyCertificate,
            Function::CopyKey,
            Function::GetChain,
            Function::CopyChain,
            Function::SetContextCiphers,
            Function::CopyKeylog,
            Function::SetKeylogCallback,
            Function::AttachPrivateContext,
            Function::SetBio,
            Function::SetConnectionVerify,
            Function::SetConnectionMinVersion,
            Function::SetConnectionMaxVersion,
            Function::SetAlpn,
            Function::GetConnectionParam,
            Function::SetConnectState,
            Function::SetServerName,
            Function::ExpectHost,
            Function::SetHostFlags,
            Function::SetAlpn,
            Function::GetContext,
            Function::SetGrease,
            Function::SetGreaseSigalgs,
            Function::SetEchConfig,
        ]
    );
    assert!(matches!(&plan.steps[13].call.argument, Argument::Text(t) if t == "A:B"));
    let (_, plan) = c.fingerprint_context(&snapshot());
    assert_eq!(functions(&plan).len(), 9);
}

#[test]
fn own_protocols_stand_in_for_the_fingerprints() {
    let mut c = client();
    let fp = Fingerprint::builder()
        .alpn(vec!["h2".to_string()])
        .alps(vec!["h2".to_string()])
        .build();
    c.set_fingerprint(Some(fp)).unwrap();
    c.set_alpn_protocols(&["http/1.1"]).unwrap();
    let (_, plan) = c.wrap_bio(Some("h"), false, false, &snapshot()).unwrap();
    assert!(
        matches!(argument(&plan, Function::SetAlpn), Argument::Bytes(b) if b == b"\x08http/1.1")
    );
    assert!(!functions(&plan).contains(&Function::AddAlps));
}
