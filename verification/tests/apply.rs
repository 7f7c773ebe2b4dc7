use utls::fingerprint::apply::apply;
use utls::fingerprint::spec::{CertCompressAlg, EchPolicy, Fingerprint};
use utls::plan::{Argument, Call, End, Function, OnFailure, Plan, Run};

fn functions(plan: &Plan) -> Vec<Function> {
    plan.steps.iter().map(|s| s.call.function).collect()
}

fn call(plan: &Plan, function: Function) -> &Call {
    &plan.steps.iter().find(|s| s.call.function == function).unwrap().call
}

#[test]
fn empty_fingerprint_sets_grease_alone() {
    let plan = Fingerprint::default().apply_to_ssl();
    assert_eq!(
        functions(&plan),
        vec![Function::GetContext, Function::SetGrease, Function::SetGreaseSigalgs]
    );
    assert!(matches!(plan.steps[1].call.argument, Argument::Flag(true)));
    assert!(matches!(plan.steps[2].call.argument, Argument::Flag(false)));
    assert!(plan.refusal.is_none());
}

fn chrome() -> Fingerprint {
    Fingerprint::builder()
        .cipher_suites(vec![0x1301, 0x1302, 0xC02B, 0xBEEF, 0x002F])
        .extensions_order(vec![0x0012, 5, 10])
        .supported_groups(vec![0x11EC, 0x001D, 0x0017])
        .key_shares(vec![0x11EC, 0x001D])
        .signature_algorithms(vec![0x0904, 0x0403])
        .alpn(vec!["h2".to_string(), "http/1.1".to_string()])
        .alps(vec!["h2".to_string()])
        .compress_certificate(vec![
            CertCompressAlg::Zlib,
            CertCompressAlg::Brotli,
            CertCompressAlg::Zstd,
        ])
        .grease_sigalgs(true)
        .ech(EchPolicy::Grease)
        .trust_anchors(Some(vec![1, 7]))
        .build()
}

#[test]
fn full_fingerprint_in_order() {
    let plan = apply(&chrome(), None);
    assert_eq!(
        functions(&plan),
        vec![
            Function::SetCiphers,
            Function::SetGroups,
            Function::SetVerifyAlgorithms,
            Function::SetAlpn,
            Function::GetContext,
            Function::AddCompression,
            Function::EnableOcsp,
            Function::EnableTimestamps,
            Function::GetContext,
            Function::SetGrease,
            Function::SetGreaseSigalgs,
            Function::SetPermuteExtensions,
            Function::SetKeyShares,
            Function::SetAlpsCodepoint,
            Function::AddAlps,
            Function::SetEchGrease,
            Function::SetTrustAnchors,
        ]
    );
    assert!(
        matches!(&call(&plan, Function::SetCiphers).argument, Argument::Text(t) if t == "ECDHE-ECDSA-AES128-GCM-SHA256:AES128-SHA")
    );
    assert!(
        matches!(&call(&plan, Function::SetGroups).argument, Argument::Text(t) if t == "X25519MLKEM768:X25519:P-256")
    );
    assert!(
        matches!(&call(&plan, Function::SetVerifyAlgorithms).argument, Argument::Codes(c) if *c == vec![0x0904, 0x0403])
    );
    assert!(
        matches!(&call(&plan, Function::SetAlpn).argument, Argument::Bytes(b) if b == b"\x02h2\x08http/1.1")
    );
    assert!(matches!(call(&plan, Function::AddCompression).argument, Argument::Number(2)));
    assert!(matches!(call(&plan, Function::SetGreaseSigalgs).argument, Argument::Flag(true)));
    assert!(
        matches!(&call(&plan, Function::SetTrustAnchors).argument, Argument::Bytes(b) if *b == vec![1, 7])
    );
}

#[test]
fn groups_have_a_fallback_without_hybrids() {
    let plan = chrome().apply_to_ssl();
    match &plan.steps[1].on_failure {
        OnFailure::Otherwise(other, label) => {
            assert!(matches!(&other.argument, Argument::Text(t) if t == "X25519:P-256"));
            assert_eq!(*label, "SSL_set1_groups_list");
        }
        other => panic!("{:?}", other),
    }
    let only = Fingerprint::builder().supported_groups(vec![0x6399]).build().apply_to_ssl();
    assert!(
        matches!(&only.steps[0].call.argument, Argument::Text(t) if t == "X25519Kyber768Draft00")
    );
    assert!(matches!(only.steps[0].on_failure, OnFailure::Report("SSL_set1_groups_list")));
}

#[test]
fn unknown_suites_are_left_to_the_engine() {
    let plan = Fingerprint::builder()
        .cipher_suites(vec![0x1301, 0x1303])
        .supported_groups(vec![0xABCD])
        .build()
        .apply_to_ssl();
    assert!(!functions(&plan).contains(&Function::SetCiphers));
    assert!(!functions(&plan).contains(&Function::SetGroups));
}

#[test]
fn cipher_names_by_codepoint() {
    let table = [
        (0xC02B, "ECDHE-ECDSA-AES128-GCM-SHA256"),
        (0xC02F, "ECDHE-RSA-AES128-GCM-SHA256"),
        (0xC02C, "ECDHE-ECDSA-AES256-GCM-SHA384"),
        (0xC030, "ECDHE-RSA-AES256-GCM-SHA384"),
        (0xCCA9, "ECDHE-ECDSA-CHACHA20-POLY1305"),
        (0xCCA8, "ECDHE-RSA-CHACHA20-POLY1305"),
        (0xC009, "ECDHE-ECDSA-AES128-SHA"),
        (0xC013, "ECDHE-RSA-AES128-SHA"),
        (0xC00A, "ECDHE-ECDSA-AES256-SHA"),
        (0xC014, "ECDHE-RSA-AES256-SHA"),
        (0x009C, "AES128-GCM-SHA256"),
        (0x009D, "AES256-GCM-SHA384"),
        (0x002F, "AES128-SHA"),
        (0x0035, "AES256-SHA"),
    ];
    for (code, name) in table {
        let plan = Fingerprint::builder().cipher_suites(vec![code]).build().apply_to_ssl();
        assert!(matches!(&plan.steps[0].call.argument, Argument::Text(t) if t == name));
    }
}

#[test]
fn override_replaces_alpn_and_gates_alps() {
    let own = vec![b"http/1.1".to_vec()];
    let plan = chrome().apply_to_ssl_with_alpn_override(&own);
    assert!(
        matches!(&call(&plan, Function::SetAlpn).argument, Argument::Bytes(b) if b == b"\x08http/1.1")
    );
    assert_eq!(functions(&plan).iter().filter(|f| **f == Function::SetAlpn).count(), 1);
    assert!(!functions(&plan).contains(&Function::AddAlps));
    assert!(functions(&plan).contains(&Function::SetAlpsCodepoint));
    let others = |p: &Plan| -> Vec<Function> {
        functions(p)
            .into_iter()
            .filter(|f| *f != Function::SetAlpn && *f != Function::AddAlps)
            .collect()
    };
    assert_eq!(others(&plan), others(&chrome().apply_to_ssl()));
    let both = vec![b"http/1.1".to_vec(), b"h2".to_vec()];
    let plan = chrome().apply_to_ssl_with_alpn_override(&both);
    assert!(matches!(&call(&plan, Function::AddAlps).argument, Argument::Bytes(b) if b == b"h2"));
    assert!(
        matches!(&call(&plan, Function::SetAlpn).argument, Argument::Bytes(b) if b == b"\x08http/1.1\x02h2")
    );
}

#[test]
fn empty_override_advertises_nothing() {
    let plan = chrome().apply_to_ssl_with_alpn_override(&[]);
    assert!(matches!(&call(&plan, Function::SetAlpn).argument, Argument::Bytes(b) if b.is_empty()));
    assert!(!functions(&plan).contains(&Function::AddAlps));
}

#[test]
fn improper_override_is_refused() {
    let plan = chrome().apply_to_ssl_with_alpn_override(&[b"h2".to_vec(), vec![]]);
    assert_eq!(plan.refusal.as_deref(), Some("ALPN protocol \"\" length out of range"));
    let plan = chrome().apply_to_ssl_with_alpn_override(&[vec![b'x'; 256]]);
    assert_eq!(
        plan.refusal.unwrap(),
        format!("ALPN protocol {:?} length out of range", "x".repeat(256))
    );
}

#[test]
fn fingerprints_leave_verification_alone() {
    let made = functions(&chrome().apply_to_ssl());
    for f in [
        Function::SetConnectionVerify,
        Function::SetConnectionMinVersion,
        Function::SetConnectionMaxVersion,
        Function::SetVerifyFlags,
        Function::ExpectHost,
    ] {
        assert!(!made.contains(&f));
    }
}

#[test]
fn invalid_fingerprint_makes_no_call() {
    let plan = Fingerprint::builder().trust_anchors(Some(vec![9])).build().apply_to_ssl();
    assert!(plan.steps.is_empty());
    assert_eq!(
        plan.refusal.as_deref(),
        Some("trust_anchors must be a list of non-empty IDs, each preceded by its length")
    );
}

#[test]
fn improper_alpn_is_refused_after_the_calls_before_it() {
    let plan = Fingerprint::builder()
        .signature_algorithms(vec![1])
        .alpn(vec!["h2".to_string(), "".to_string()])
        .build()
        .apply_to_ssl();
    assert_eq!(functions(&plan), vec![Function::SetVerifyAlgorithms]);
    assert_eq!(plan.refusal.as_deref(), Some("ALPN protocol \"\" length out of range"));
    let long = "x".repeat(256);
    let plan = Fingerprint::builder().alpn(vec![long.clone()]).build().apply_to_ssl();
    assert_eq!(
        plan.refusal.unwrap(),
        format!("ALPN protocol {:?} length out of range", long)
    );
}

#[test]
fn sigalg_grease_needs_grease() {
    let plan = Fingerprint::builder().grease(false).grease_sigalgs(true).build().apply_to_ssl();
    assert!(matches!(call(&plan, Function::SetGrease).argument, Argument::Flag(false)));
    assert!(matches!(call(&plan, Function::SetGreaseSigalgs).argument, Argument::Flag(false)));
}

#[test]
fn real_ech_and_empty_trust_anchors_go_out() {
    let plan = Fingerprint::builder()
        .ech(EchPolicy::Real(vec![1, 2]))
        .trust_anchors(Some(vec![]))
        .permute_extensions(false)
        .extensions_order(vec![1])
        .alps(vec!["h2".to_string()])
        .alps_use_new_codepoint(false)
        .build()
        .apply_to_ssl();
    assert!(matches!(&call(&plan, Function::SetEchConfig).argument, Argument::Bytes(b) if *b == vec![1, 2]));
    assert!(matches!(&call(&plan, Function::SetTrustAnchors).argument, Argument::Bytes(b) if b.is_empty()));
    assert!(matches!(call(&plan, Function::SetPermuteExtensions).argument, Argument::Flag(false)));
    assert!(matches!(call(&plan, Function::SetAlpsCodepoint).argument, Argument::Flag(false)));
}

fn carry_out(plan: Plan, results: &[bool]) -> (Vec<Function>, usize, End) {
    let mut run = Run::new(plan);
    let mut made = Vec::new();
    let mut drained = 0;
    let mut i = 0;
    loop {
        if let Some(end) = run.end() {
            return (made, drained, end);
        }
        made.push(run.call().function);
        let ok = results.get(i).copied().unwrap_or(true);
        i += 1;
        if run.answer(ok) {
            drained += 1;
        }
    }
}

#[test]
fn a_plan_is_carried_out_in_order() {
    let expected = functions(&chrome().apply_to_ssl());
    let (made, drained, end) = carry_out(chrome().apply_to_ssl(), &[]);
    assert_eq!(made, expected);
    assert_eq!(drained, 0);
    assert_eq!(end, End::Done);
}

#[test]
fn a_reported_failure_stops_the_plan() {
    let (made, _, end) = carry_out(chrome().apply_to_ssl(), &[false]);
    assert_eq!(made, vec![Function::SetCiphers]);
    assert_eq!(end, End::Failed("SSL_set_cipher_list"));
}

#[test]
fn a_group_failure_is_retried_once() {
    let (made, _, end) = carry_out(chrome().apply_to_ssl(), &[true, false, true]);
    assert_eq!(&made[..3], &[Function::SetCiphers, Function::SetGroups, Function::SetGroups]);
    assert_eq!(end, End::Done);
    let (made, _, end) = carry_out(chrome().apply_to_ssl(), &[true, false, false]);
    assert_eq!(made.len(), 3);
    assert_eq!(end, End::Failed("SSL_set1_groups_list"));
}

#[test]
fn a_missing_context_is_refused_and_duplicates_are_drained() {
    let results = [true, true, true, true, false];
    let (_, _, end) = carry_out(chrome().apply_to_ssl(), &results);
    assert_eq!(end, End::Refused("SSL_get_SSL_CTX returned null".to_string()));
    let results = [true, true, true, true, true, false];
    let (_, drained, end) = carry_out(chrome().apply_to_ssl(), &results);
    assert_eq!(drained, 1);
    assert_eq!(end, End::Done);
}

#[test]
fn a_refusal_comes_after_the_calls() {
    let plan = Fingerprint::builder()
        .key_shares(vec![29])
        .signature_algorithms(vec![1])
        .alpn(vec!["".to_string()])
        .build()
        .apply_to_ssl();
    let (made, _, end) = carry_out(plan, &[]);
    assert_eq!(made, vec![Function::SetVerifyAlgorithms]);
    assert!(matches!(end, End::Refused(_)));
}
