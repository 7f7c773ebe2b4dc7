use std::io::Write;
use utls::decompress::{decompress_certificate, of_announced_length, MAX_CERT_BYTES};

fn compressed(data: &[u8]) -> Vec<u8> {
    let mut out = Vec::new();
    {
        let mut w = brotli::CompressorWriter::new(&mut out, 4096, 5, 20);
        w.write_all(data).unwrap();
    }
    out
}

fn sample(n: usize) -> Vec<u8> {
    (0..n).map(|i| (i * i / 7) as u8).collect()
}

#[test]
fn certificates_are_decompressed() {
    for n in [1, 2, 4096, 70000] {
        let data = sample(n);
        assert_eq!(decompress_certificate(&compressed(&data), n), Some(data));
    }
}

#[test]
fn wrong_lengths_are_rejected() {
    let data = sample(1000);
    let c = compressed(&data);
    assert_eq!(decompress_certificate(&c, 999), None);
    assert_eq!(decompress_certificate(&c, 1001), None);
    assert_eq!(decompress_certificate(&c, 0), None);
    assert_eq!(decompress_certificate(&c, MAX_CERT_BYTES + 1), None);
}

#[test]
fn the_limit_is_a_mebibyte() {
    let data = vec![3u8; MAX_CERT_BYTES];
    assert_eq!(decompress_certificate(&compressed(&data), MAX_CERT_BYTES), Some(data));
    let data = vec![3u8; MAX_CERT_BYTES + 1];
    assert_eq!(decompress_certificate(&compressed(&data), MAX_CERT_BYTES + 1), None);
}

#[test]
fn broken_streams_are_rejected() {
    let data = sample(5000);
    let c = compressed(&data);
    assert_eq!(decompress_certificate(&c[..c.len() - 1], 5000), None);
    assert_eq!(decompress_certificate(&[], 5), None);
    assert_eq!(decompress_certificate(&[0xFF; 40], 5), None);
}

#[test]
fn bytes_behind_the_stream_do_not_matter() {
    let data = sample(300);
    let mut c = compressed(&data);
    c.extend_from_slice(b"trailing");
    assert_eq!(decompress_certificate(&c, 300), Some(data));
}

#[test]
fn decoded_bytes_need_the_announced_length() {
    assert_eq!(of_announced_length(Some(vec![1, 2]), 2), Some(vec![1, 2]));
    assert_eq!(of_announced_length(Some(vec![1, 2]), 3), None);
    assert_eq!(of_announced_length(None, 0), None);
}
