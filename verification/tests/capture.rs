use utls::error::Error;
use utls::fingerprint::capture::{is_grease, parse_client_hello, parse_extension, Reader};
use utls::fingerprint::spec::{CertCompressAlg, EchPolicy, Fingerprint, GREASE_EXTENSION};
use utls::fingerprint::wire::record_of;

#[test]
fn grease_detection() {
    assert!(is_grease(0x0A0A));
    assert!(is_grease(0xFAFA));
    assert!(!is_grease(0x1301));
    assert!(!is_grease(0xFFFE));
}

#[test]
fn rejects_non_handshake_record() {
    let raw = [0x17u8, 0x03, 0x03, 0x00, 0x00];
    let err = parse_client_hello(&raw).unwrap_err();
    assert!(matches!(err, Error::Usage(_)));
}

#[test]
fn truncation_does_not_panic() {
    let raw = [0x16u8, 0x03, 0x01]; // shorter than record header
    assert!(parse_client_hello(&raw).is_err());
}

fn sized16(b: &[u8]) -> Vec<u8> {
    let mut v = (b.len() as u16).to_be_bytes().to_vec();
    v.extend_from_slice(b);
    v
}

fn codes(c: &[u16]) -> Vec<u8> {
    let mut v = Vec::new();
    for x in c {
        v.extend_from_slice(&x.to_be_bytes());
    }
    v
}

fn names(list: &[&[u8]]) -> Vec<u8> {
    let mut v = Vec::new();
    for n in list {
        v.push(n.len() as u8);
        v.extend_from_slice(n);
    }
    v
}

struct Hello {
    random: u8,
    session_id: Vec<u8>,
    suites: Vec<u8>,
    methods: Vec<u8>,
    extensions: Option<Vec<(u16, Vec<u8>)>>,
}

impl Hello {
    fn new(suites: &[u16], extensions: Vec<(u16, Vec<u8>)>) -> Self {
        Hello {
            random: 7,
            session_id: vec![1; 32],
            suites: codes(suites),
            methods: vec![0],
            extensions: Some(extensions),
        }
    }

    fn record(&self) -> Vec<u8> {
        let mut body = vec![0x03, 0x03];
        body.extend_from_slice(&[self.random; 32]);
        body.push(self.session_id.len() as u8);
        body.extend_from_slice(&self.session_id);
        body.extend(sized16(&self.suites));
        body.push(self.methods.len() as u8);
        body.extend_from_slice(&self.methods);
        if let Some(list) = &self.extensions {
            let mut block = Vec::new();
            for (kind, b) in list {
                block.extend_from_slice(&kind.to_be_bytes());
                block.extend(sized16(b));
            }
            body.extend(sized16(&block));
        }
        let mut message = vec![0x01];
        message.extend_from_slice(&(body.len() as u32).to_be_bytes()[1..]);
        message.extend_from_slice(&body);
        let mut raw = vec![0x16, 0x03, 0x01];
        raw.extend(sized16(&message));
        raw
    }
}

fn full_extensions() -> Vec<(u16, Vec<u8>)> {
    let mut shares = Vec::new();
    for (group, key) in [(0x1A1Au16, vec![0u8]), (0x11EC, vec![9; 40]), (0x001D, vec![8; 32])] {
        shares.extend_from_slice(&group.to_be_bytes());
        shares.extend(sized16(&key));
    }
    vec![
        (0x2A2A, vec![]),
        (0, b"ignored".to_vec()),
        (10, sized16(&codes(&[0x3A3A, 0x11EC, 0x001D, 0x0017]))),
        (13, sized16(&codes(&[0x4A4A, 0x0904, 0x0403, 0x0804]))),
        (16, sized16(&names(&[b"h2", b"http/1.1"]))),
        (51, sized16(&shares)),
        (27, vec![6, 0, 2, 0, 9, 0, 1]),
        (17613, sized16(&names(&[b"h2"]))),
        (28, vec![0x40, 0x01]),
        (65037, vec![1, 2, 3]),
        (21, vec![0; 11]),
        (0xCA34, sized16(&names(&[&[1, 2], &[3]]))),
        (0x5A5A, vec![0]),
    ]
}

fn full_fingerprint() -> Fingerprint {
    Fingerprint::builder()
        .cipher_suites(vec![0x1301, 0xC02B])
        .extensions_order(vec![
            GREASE_EXTENSION,
            0,
            10,
            13,
            16,
            51,
            27,
            17613,
            28,
            65037,
            21,
            0xCA34,
            GREASE_EXTENSION,
        ])
        .supported_groups(vec![0x11EC, 0x001D, 0x0017])
        .signature_algorithms(vec![0x0904, 0x0403, 0x0804])
        .alpn(vec!["h2".to_string(), "http/1.1".to_string()])
        .key_shares(vec![0x11EC, 0x001D])
        .compress_certificate(vec![CertCompressAlg::Brotli, CertCompressAlg::Zlib])
        .alps(vec!["h2".to_string()])
        .record_size_limit(Some(0x4001))
        .ech(EchPolicy::Grease)
        .padding(Some(11))
        .trust_anchors(Some(vec![2, 1, 2, 1, 3]))
        .grease(true)
        .grease_sigalgs(true)
        .build()
}

#[test]
fn capture_gives_back_the_fingerprint() {
    let raw = Hello::new(&[0x0A0A, 0x1301, 0xC02B], full_extensions()).record();
    assert_eq!(parse_client_hello(&raw).unwrap(), full_fingerprint());
}

#[test]
fn capture_ignores_what_varies() {
    let mut h = Hello::new(&[0xFAFA, 0x1301, 0xC02B], full_extensions());
    h.random = 200;
    h.session_id = vec![];
    h.methods = vec![0, 1, 64];
    let mut raw = h.record();
    raw[1] = 9;
    raw.extend_from_slice(b"the next record");
    assert_eq!(parse_client_hello(&raw).unwrap(), full_fingerprint());
}

#[test]
fn hello_without_extensions_is_tolerated() {
    let mut h = Hello::new(&[0x002F], vec![]);
    h.extensions = None;
    let fp = parse_client_hello(&h.record()).unwrap();
    assert_eq!(fp.cipher_suites, vec![0x002F]);
    assert!(fp.extensions_order.is_empty());
    assert!(!fp.grease);
    assert!(fp.permute_extensions);
    assert!(fp.alps_use_new_codepoint);
}

#[test]
fn order_is_kept_and_grease_is_noted() {
    let h = Hello::new(&[1, 2, 3], vec![(43, vec![]), (0x0A0A, vec![]), (5, vec![])]);
    let fp = parse_client_hello(&h.record()).unwrap();
    assert_eq!(fp.extensions_order, vec![43, GREASE_EXTENSION, 5]);
    assert!(fp.grease);
}

fn usage(raw: &[u8]) -> String {
    match parse_client_hello(raw) {
        Err(Error::Usage(t)) => t,
        other => panic!("{:?}", other),
    }
}

#[test]
fn capture_error_texts() {
    assert_eq!(
        usage(&[0x17]),
        "expected TLS handshake record (0x16), got 0x17"
    );
    assert_eq!(
        usage(&[]),
        "truncated ClientHello: need 1 more bytes for record type, have 0"
    );
    assert_eq!(
        usage(&[0x16, 3, 1, 0, 12, 1]),
        "truncated ClientHello: need 12 more bytes for record body, have 1"
    );
    assert_eq!(
        usage(&[0x16, 3, 1, 0, 1, 2]),
        "expected ClientHello (0x01), got 0x02"
    );
    let mut h = Hello::new(&[], vec![]);
    h.suites = vec![1];
    assert_eq!(usage(&h.record()), "cipher_suites length is not even");
}

fn extension_fault(kind: u16, body: &[u8]) -> String {
    let mut fp = Fingerprint::default();
    let got = match parse_extension(kind, body, &mut fp) {
        Err(Error::Usage(t)) => t,
        other => panic!("{:?}", other),
    };
    assert_eq!(fp, Fingerprint::default());
    got
}

#[test]
fn extension_error_texts() {
    let bad = "invalid signature_algorithms length";
    assert_eq!(extension_fault(13, &[0, 0]), bad);
    assert_eq!(extension_fault(13, &[0, 1, 4]), bad);
    assert_eq!(extension_fault(13, &[0, 2, 4, 3, 9]), bad);
    assert_eq!(
        extension_fault(0xCA34, &[0, 1, 0, 0]),
        "trailing bytes in trust_anchors extension"
    );
    assert_eq!(
        extension_fault(0xCA34, &[0, 1, 0]),
        "trust_anchors must be a list of non-empty IDs, each preceded by its length"
    );
    assert_eq!(
        extension_fault(16, &[0, 2, 5, 1]),
        "truncated ClientHello: need 5 more bytes for alpn proto, have 1"
    );
    assert_eq!(
        extension_fault(51, &[0, 5, 0, 29, 0, 9, 1]),
        "truncated ClientHello: need 9 more bytes for key_share key, have 1"
    );
}

#[test]
fn lists_of_odd_length_are_refused() {
    let mut fp = Fingerprint::default();
    assert_eq!(
        parse_extension(10, &[0, 3, 0, 29, 0], &mut fp),
        Err(Error::Usage("supported_groups length is not even".to_string()))
    );
    assert_eq!(
        parse_extension(27, &[3, 0, 2, 0], &mut fp),
        Err(Error::Usage("compress_certificate length is not even".to_string()))
    );
    assert_eq!(fp, Fingerprint::default());
    parse_extension(10, &[0, 2, 0, 29], &mut fp).unwrap();
    parse_extension(27, &[2, 0, 2], &mut fp).unwrap();
    assert_eq!(fp.supported_groups, vec![29]);
    assert_eq!(fp.compress_certificate, vec![CertCompressAlg::Brotli]);

    let raw = Hello::new(&[0x1301], vec![(10, vec![0, 3, 0, 29, 0])]).record();
    assert_eq!(
        parse_client_hello(&raw),
        Err(Error::Usage("supported_groups length is not even".to_string()))
    );
}

#[test]
fn legacy_alps_codepoint_is_noted() {
    let mut fp = Fingerprint::default();
    parse_extension(17513, &[0, 3, 2, b'h', b'2'], &mut fp).unwrap();
    assert!(!fp.alps_use_new_codepoint);
    assert_eq!(fp.alps, vec!["h2".to_string()]);
}

#[test]
fn names_that_are_not_utf8_are_replaced() {
    let mut fp = Fingerprint::default();
    parse_extension(16, &[0, 5, 2, 0xFF, b'a', 1, b'b'], &mut fp).unwrap();
    assert_eq!(fp.alpn, vec!["\u{FFFD}a".to_string(), "b".to_string()]);
}

#[test]
fn captured_fingerprints_have_their_shape() {
    let raw = Hello::new(&[0x0A0A, 0x1301], full_extensions()).record();
    let fp = parse_client_hello(&raw).unwrap();
    assert!(fp.validate().is_ok());
    for list in [
        &fp.cipher_suites,
        &fp.extensions_order,
        &fp.supported_groups,
        &fp.key_shares,
        &fp.signature_algorithms,
    ] {
        assert!(list.iter().all(|c| !is_grease(*c)));
    }
}

#[test]
fn there_are_sixteen_grease_values() {
    let found: Vec<u16> = (0..=0xFFFFu16).filter(|v| is_grease(*v)).collect();
    let expected: Vec<u16> = (0..16u16).map(|k| 0x0A0A + k * 0x1010).collect();
    assert_eq!(found, expected);
}

#[test]
fn reader_reads_numbers() {
    let mut r = Reader::new(&[1, 2, 3, 4, 5, 6, 7]);
    assert_eq!(r.u8("a").unwrap(), 1);
    assert_eq!(r.u16("b").unwrap(), 0x0203);
    assert_eq!(r.u24("c").unwrap(), 0x040506);
    assert_eq!(r.remaining(), 1);
    assert_eq!(
        r.u16("d"),
        Err(Error::Usage(
            "truncated ClientHello: need 2 more bytes for d, have 1".to_string()
        ))
    );
    assert_eq!(r.take(1, "e").unwrap(), &[7]);
}

#[test]
fn bodies_are_put_back_into_records() {
    let raw = Hello::new(&[0x0A0A, 0x1301, 0xC02B], full_extensions()).record();
    let again = record_of(&raw[9..]).unwrap();
    assert_eq!(again, raw);
    assert_eq!(parse_client_hello(&again).unwrap(), full_fingerprint());
    assert_eq!(record_of(&vec![0; 65531]).unwrap().len(), 65540);
    assert!(record_of(&vec![0; 65532]).is_none());
}
