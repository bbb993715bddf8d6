use systemd_journal_logger::fields;
use systemd_journal_logger::fields::FieldName::{WellFormed, WriteEscaped};

#[test]
fn escape_journal_key() {
    for case in &["FOO", "FOO_123"] {
        assert_eq!(
            &String::from_utf8_lossy(&fields::escape_journal_key(case)),
            case
        );
    }

    let cases = vec![
        ("foo", "FOO"),
        ("_foo", "ESCAPED__FOO"),
        ("1foo", "ESCAPED_1FOO"),
        ("Hallöchen", "HALL_CHEN"),
        // Each character that may not stand in a name becomes one `_`.
        ("Hall√∂chen", "HALL__CHEN"),
    ];
    for (key, expected) in cases {
        assert_eq!(
            &String::from_utf8_lossy(&fields::escape_journal_key(key)),
            expected
        );
    }
}

#[test]
fn put_field_length_encoded() {
    let mut buffer = Vec::new();
    fields::put_field_length_encoded(&mut buffer, WellFormed("FOO"), "BAR".as_bytes());
    assert_eq!(&buffer, b"FOO\n\x03\0\0\0\0\0\0\0BAR\n");
}

#[test]
fn put_field_bytes_no_newline() {
    let mut buffer = Vec::new();
    fields::put_field_bytes(&mut buffer, WellFormed("FOO"), "BAR".as_bytes());
    assert_eq!(&buffer, b"FOO=BAR\n");
}

#[test]
fn put_field_bytes_newline() {
    let mut buffer = Vec::new();
    fields::put_field_bytes(
        &mut buffer,
        WellFormed("FOO"),
        "BAR\nSPAM_WITH_EGGS".as_bytes(),
    );
    assert_eq!(&buffer, b"FOO\n\x12\0\0\0\0\0\0\0BAR\nSPAM_WITH_EGGS\n");
}

#[test]
fn escape_empty_key() {
    assert_eq!(fields::escape_journal_key(""), b"EMPTY".to_vec());
}

#[test]
fn escape_keeps_valid_names() {
    for name in ["A", "MESSAGE", "SPAM_WITH_EGGS", "X1_2_3", "CODE_LINE"] {
        assert_eq!(fields::escape_journal_key(name), name.as_bytes().to_vec());
    }
}

#[test]
fn escape_valid_characters_with_bad_start() {
    assert_eq!(fields::escape_journal_key("123_FOO"), b"ESCAPED_123_FOO".to_vec());
    assert_eq!(fields::escape_journal_key("_SPAM"), b"ESCAPED__SPAM".to_vec());
    assert_eq!(fields::escape_journal_key("_spam"), b"ESCAPED__SPAM".to_vec());
}

#[test]
fn escape_truncates_to_64_bytes() {
    let long = "A".repeat(100);
    assert_eq!(fields::escape_journal_key(&long), "A".repeat(64).into_bytes());
    let long_lower = "b".repeat(70);
    assert_eq!(fields::escape_journal_key(&long_lower), "B".repeat(64).into_bytes());
    let long_digits = "1".repeat(70);
    let mut expected = b"ESCAPED_".to_vec();
    expected.extend_from_slice(&[b'1'; 56]);
    assert_eq!(fields::escape_journal_key(&long_digits), expected);
}

fn is_field_name(name: &[u8]) -> bool {
    !name.is_empty()
        && name.len() <= 64
        && name
            .iter()
            .all(|b| b.is_ascii_uppercase() || b.is_ascii_digit() || *b == b'_')
        && !(name[0] == b'_' || name[0].is_ascii_digit())
}

#[test]
fn escape_yields_field_names() {
    for key in [
        "a b c",
        "ümlaut",
        "9lives",
        "__",
        "-",
        "tab\there",
        "日本語",
        "mixed_Case-key.with.dots",
        "\n",
    ] {
        let escaped = fields::escape_journal_key(key);
        assert!(is_field_name(&escaped), "{:?} -> {:?}", key, escaped);
    }
    assert_eq!(fields::escape_journal_key("a b.c"), b"A_B_C".to_vec());
    assert_eq!(fields::escape_journal_key("9lives"), b"ESCAPED_9LIVES".to_vec());
}

#[test]
fn escape_is_idempotent() {
    for key in ["FOO", "foo", "_foo", "1foo", "Hallöchen", "", "x".repeat(80).as_str()] {
        let once = fields::escape_journal_key(key);
        let twice = fields::escape_journal_key(std::str::from_utf8(&once).unwrap());
        assert_eq!(once, twice);
    }
}

#[test]
fn put_field_bytes_escapes_name() {
    let mut buffer = Vec::new();
    fields::put_field_bytes(&mut buffer, WriteEscaped("spam with eggs"), b"yes");
    assert_eq!(&buffer, b"SPAM_WITH_EGGS=yes\n");
    let mut buffer = Vec::new();
    fields::put_field_bytes(&mut buffer, WriteEscaped(""), b"x");
    assert_eq!(&buffer, b"EMPTY=x\n");
}

#[test]
fn put_field_bytes_keeps_binary_values() {
    let mut buffer = b"A=B\n".to_vec();
    fields::put_field_bytes(&mut buffer, WellFormed("DATA"), b"a\0b");
    assert_eq!(&buffer, b"A=B\nDATA=a\0b\n");
}

#[test]
fn put_field_bytes_trailing_newline() {
    let mut buffer = Vec::new();
    fields::put_field_bytes(&mut buffer, WellFormed("MESSAGE"), b"trailing newline\n");
    assert_eq!(
        &buffer,
        b"MESSAGE\n\x11\0\0\0\0\0\0\0trailing newline\n\n"
    );
}

#[test]
fn put_field_length_encoded_large_value() {
    let value = vec![b'x'; 0x0102_0304];
    let mut buffer = Vec::new();
    fields::put_field_length_encoded(&mut buffer, WellFormed("BIG"), value.as_slice());
    assert_eq!(&buffer[..12], b"BIG\n\x04\x03\x02\x01\0\0\0\0");
    assert_eq!(buffer.len(), 12 + value.len() + 1);
    assert_eq!(buffer[buffer.len() - 1], b'\n');
}

#[test]
fn put_field_length_encoded_empty_value() {
    let mut buffer = Vec::new();
    fields::put_field_length_encoded(&mut buffer, WriteEscaped("e"), b"".as_slice());
    assert_eq!(&buffer, b"E\n\0\0\0\0\0\0\0\0\n");
}
