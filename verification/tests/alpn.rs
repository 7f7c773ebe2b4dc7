use utls::alpn::{encode, select, select_reply, SELECT_NOACK, SELECT_OK};

fn list(names: &[&str]) -> Vec<Vec<u8>> {
    names.iter().map(|n| n.as_bytes().to_vec()).collect()
}

#[test]
fn encoding_prefixes_each_item() {
    assert_eq!(encode(&list(&["h2", "http/1.1"])), Ok(b"\x02h2\x08http/1.1".to_vec()));
    assert_eq!(encode(&list(&[])), Ok(vec![]));
    assert_eq!(encode(&list(&["a", "", "b", ""])), Err(1));
    assert_eq!(encode(&vec![vec![0; 255]]).unwrap().len(), 256);
    assert_eq!(encode(&vec![vec![0; 256]]), Err(0));
}

#[test]
fn first_preference_wins() {
    let client = encode(&list(&["http/1.1", "h2"])).unwrap();
    assert_eq!(select(&list(&["h2", "http/1.1"]), &client), Some(b"h2".to_vec()));
    assert_eq!(select(&list(&["h3", "http/1.1"]), &client), Some(b"http/1.1".to_vec()));
    assert_eq!(select(&list(&["h3"]), &client), None);
    assert_eq!(select(&list(&[]), &client), None);
}

#[test]
fn broken_client_list_is_read_as_far_as_it_goes() {
    assert_eq!(select(&list(&["h2"]), b"\x02h2\x09h"), Some(b"h2".to_vec()));
    assert_eq!(select(&list(&["h3"]), b"\x02h2\x09h3"), None);
    assert_eq!(select(&list(&["h3"]), b""), None);
}

#[test]
fn selection_replies() {
    let prefs = list(&["h2"]);
    assert_eq!(select_reply(Some(&prefs), b"\x02h2"), (SELECT_OK, Some(b"h2".to_vec())));
    assert_eq!(select_reply(Some(&prefs), b"\x02h3"), (SELECT_NOACK, None));
    assert_eq!(select_reply(None, b"\x02h2"), (SELECT_NOACK, None));
    assert_eq!(select_reply(Some(&list(&[])), b"\x02h2"), (SELECT_NOACK, None));
    assert_eq!((SELECT_OK, SELECT_NOACK), (0, 3));
}
