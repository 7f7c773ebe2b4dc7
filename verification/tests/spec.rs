use utls::error::Error;
use utls::fingerprint::spec::{
    validate_trust_anchor_ids, CertCompressAlg, EchPolicy, Fingerprint, FpValue,
    GREASE_EXTENSION, TRUST_ANCHORS_EXTENSION,
};

#[test]
fn algorithms_have_codepoints_and_names() {
    assert_eq!(CertCompressAlg::Zlib.codepoint(), 1);
    assert_eq!(CertCompressAlg::Brotli.codepoint(), 2);
    assert_eq!(CertCompressAlg::Zstd.codepoint(), 3);
    assert_eq!(CertCompressAlg::from_name("zlib"), Some(CertCompressAlg::Zlib));
    assert_eq!(CertCompressAlg::from_name("BroTLI"), Some(CertCompressAlg::Brotli));
    assert_eq!(CertCompressAlg::from_name("ZSTD"), Some(CertCompressAlg::Zstd));
    assert_eq!(CertCompressAlg::from_name("lzma"), None);
    assert_eq!(CertCompressAlg::from_name("zlib "), None);
    assert_eq!(CertCompressAlg::from_name(""), None);
}

#[test]
fn reserved_codepoints() {
    assert_eq!(GREASE_EXTENSION, 0xFFFE);
    assert_eq!(TRUST_ANCHORS_EXTENSION, 0xCA34);
}

#[test]
fn defaults() {
    let fp = Fingerprint::default();
    assert!(fp.permute_extensions && fp.alps_use_new_codepoint && fp.grease);
    assert!(!fp.grease_sigalgs);
    assert_eq!(fp.ech, EchPolicy::Off);
    assert!(fp.padding.is_none() && fp.trust_anchors.is_none());
    assert_eq!(fp, Fingerprint::builder().build());
    assert_eq!(fp.clone(), fp);
}

#[test]
fn builder_sets_each_field() {
    let fp = Fingerprint::builder()
        .cipher_suites(vec![1])
        .extensions_order(vec![2])
        .permute_extensions(false)
        .supported_groups(vec![3])
        .key_shares(vec![4])
        .signature_algorithms(vec![5])
        .alpn(vec!["a".to_string()])
        .alps(vec!["b".to_string()])
        .alps_use_new_codepoint(false)
        .compress_certificate(vec![CertCompressAlg::Zstd])
        .record_size_limit(Some(6))
        .grease(false)
        .grease_sigalgs(true)
        .ech(EchPolicy::Real(vec![7]))
        .padding(Some(8))
        .trust_anchors(Some(vec![]))
        .build();
    assert_eq!(fp.cipher_suites, vec![1]);
    assert_eq!(fp.extensions_order, vec![2]);
    assert!(!fp.permute_extensions);
    assert_eq!(fp.supported_groups, vec![3]);
    assert_eq!(fp.key_shares, vec![4]);
    assert_eq!(fp.signature_algorithms, vec![5]);
    assert_eq!(fp.alpn, vec!["a"]);
    assert_eq!(fp.alps, vec!["b"]);
    assert!(!fp.alps_use_new_codepoint);
    assert_eq!(fp.compress_certificate, vec![CertCompressAlg::Zstd]);
    assert_eq!(fp.record_size_limit, Some(6));
    assert!(!fp.grease);
    assert!(fp.grease_sigalgs);
    assert_eq!(fp.ech, EchPolicy::Real(vec![7]));
    assert_eq!(fp.padding, Some(8));
    assert_eq!(fp.trust_anchors, Some(vec![]));
    assert_eq!(fp.clone(), fp);
}

#[test]
fn dictionary_is_sorted_and_complete() {
    let fp = Fingerprint::builder()
        .compress_certificate(vec![CertCompressAlg::Brotli, CertCompressAlg::Zlib])
        .ech(EchPolicy::Grease)
        .cipher_suites(vec![0x1301])
        .build();
    let map = fp.to_btreemap();
    let keys: Vec<&str> = map.iter().map(|e| e.0).collect();
    assert_eq!(
        keys,
        vec![
            "alpn",
            "alps",
            "alps_use_new_codepoint",
            "cipher_suites",
            "compress_certificate",
            "ech",
            "extensions_order",
            "grease",
            "grease_sigalgs",
            "key_shares",
            "padding",
            "permute_extensions",
            "record_size_limit",
            "signature_algorithms",
            "supported_groups",
            "trust_anchors",
        ]
    );
    let mut sorted = keys.clone();
    sorted.sort();
    assert_eq!(keys, sorted);
    assert!(matches!(&map[3].1, FpValue::U16Vec(v) if *v == vec![0x1301]));
    assert!(matches!(&map[4].1, FpValue::StringVec(v) if *v == vec!["brotli", "zlib"]));
    assert!(matches!(&map[5].1, FpValue::Str(s) if s == "grease"));
    assert!(matches!(&map[7].1, FpValue::Bool(true)));
    assert!(matches!(&map[10].1, FpValue::OptUsize(None)));
    assert!(matches!(&map[12].1, FpValue::OptU16(None)));
    assert!(matches!(&map[15].1, FpValue::OptBytes(None)));
    assert!(matches!(map[5].1.clone(), FpValue::Str(s) if s == "grease"));
}

#[test]
fn dictionary_tells_ech_policies_apart() {
    let of = |ech: EchPolicy| format!("{:?}", Fingerprint::builder().ech(ech).build().to_btreemap());
    assert_ne!(of(EchPolicy::Off), of(EchPolicy::Grease));
    assert_ne!(of(EchPolicy::Grease), of(EchPolicy::Real(b"grease".to_vec())));
    assert_ne!(of(EchPolicy::Real(vec![1])), of(EchPolicy::Real(vec![2])));
}

#[test]
fn trust_anchor_lists() {
    assert!(validate_trust_anchor_ids(&[]).is_ok());
    assert!(validate_trust_anchor_ids(&[1, 9, 2, 8, 8]).is_ok());
    for bad in [&[0u8][..], &[2, 1], &[1, 1, 0], &[255]] {
        assert_eq!(
            validate_trust_anchor_ids(bad),
            Err(Error::Usage(
                "trust_anchors must be a list of non-empty IDs, each preceded by its length"
                    .to_string()
            ))
        );
    }
    assert!(Fingerprint::builder().trust_anchors(Some(vec![0])).build().validate().is_err());
    assert!(Fingerprint::builder().trust_anchors(Some(vec![])).build().validate().is_ok());
    assert!(Fingerprint::default().validate().is_ok());
}
