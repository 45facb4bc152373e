use echo_backend::text::is_valid_text;

fn check_against_std(bytes: &[u8]) {
    let v = bytes.to_vec();
    assert_eq!(is_valid_text(&v), std::str::from_utf8(bytes).is_ok());
}

#[test]
fn ascii_and_empty_bodies_are_text() {
    assert!(is_valid_text(&b"hello".to_vec()));
    assert!(is_valid_text(&b"".to_vec()));
    assert!(is_valid_text(&b"line\r\nline\ttab".to_vec()));
}

#[test]
fn multibyte_text_is_accepted() {
    assert!(is_valid_text(&"héllo".as_bytes().to_vec()));
    assert!(is_valid_text(&"中文".as_bytes().to_vec()));
    assert!(is_valid_text(&"😀 emoji".as_bytes().to_vec()));
    assert!(is_valid_text(&"\u{7ff}\u{800}\u{ffff}\u{10000}\u{10ffff}".as_bytes().to_vec()));
}

#[test]
fn malformed_encodings_are_rejected() {
    // lone continuation byte
    assert!(!is_valid_text(&vec![0x80]));
    // overlong two-byte form
    assert!(!is_valid_text(&vec![0xc0, 0x80]));
    assert!(!is_valid_text(&vec![0xc1, 0xbf]));
    // truncated sequences
    assert!(!is_valid_text(&vec![0xe2]));
    assert!(!is_valid_text(&vec![0xf0, 0x9f]));
    // bad continuation
    assert!(!is_valid_text(&vec![0xe2, 0x28, 0xa1]));
    // surrogate range
    assert!(!is_valid_text(&vec![0xed, 0xa0, 0x80]));
    // beyond the last scalar value
    assert!(!is_valid_text(&vec![0xf4, 0x90, 0x80, 0x80]));
    assert!(!is_valid_text(&vec![0xf5, 0x80, 0x80, 0x80]));
    // stray invalid byte
    assert!(!is_valid_text(&vec![0xff]));
}

#[test]
fn validator_agrees_with_std() {
    let cases: Vec<Vec<u8>> = vec![
        b"plain".to_vec(),
        vec![0xc3, 0xa9],
        vec![0xc3],
        vec![0xe0, 0x9f, 0x80],
        vec![0xe0, 0xa0, 0x80],
        vec![0xed, 0x9f, 0xbf],
        vec![0xed, 0xa0, 0x80],
        vec![0xf0, 0x8f, 0x80, 0x80],
        vec![0xf0, 0x90, 0x80, 0x80],
        vec![0xf4, 0x8f, 0xbf, 0xbf],
        vec![0xf4, 0x90, 0x80, 0x80],
        vec![0x68, 0x69, 0xc3, 0xa9, 0xe2, 0x82, 0xac, 0xf0, 0x9f, 0x98, 0x80],
        vec![0x68, 0x80],
    ];
    for c in &cases {
        check_against_std(c);
    }
}
