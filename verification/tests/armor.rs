use ghostkey::armor::{
    armor, armor_base64, armored_base64_of, extract_base64_from_armor, extract_bytes_from_armor,
};
use ghostkey::errors::CryptoError;

#[test]
fn armor_of_a_short_payload_is_exact() {
    let text = armor(b"hello", "GHOST KEY");
    assert_eq!(text, "-----BEGIN GHOST KEY-----\naGVsbG8=\n-----END GHOST KEY-----\n");
}

#[test]
fn armor_of_nothing_has_an_empty_line() {
    let text = armor(b"", "GHOST KEY");
    assert_eq!(text, "-----BEGIN GHOST KEY-----\n\n-----END GHOST KEY-----\n");
    assert_eq!(extract_bytes_from_armor(&text, "GHOST KEY"), Ok(vec![]));
}

#[test]
fn armor_breaks_lines_at_64_characters() {
    let bytes: Vec<u8> = (0..100u8).collect();
    let text = armor(&bytes, "DELEGATE CERTIFICATE");
    let lines: Vec<&str> = text.lines().collect();
    assert_eq!(lines.len(), 5);
    assert_eq!(lines[0], "-----BEGIN DELEGATE CERTIFICATE-----");
    assert_eq!(lines[1].len(), 64);
    assert_eq!(lines[2].len(), 64);
    assert_eq!(lines[3].len(), 8);
    assert_eq!(lines[4], "-----END DELEGATE CERTIFICATE-----");
    assert_eq!(
        lines[1],
        "AAECAwQFBgcICQoLDA0ODxAREhMUFRYXGBkaGxwdHh8gISIjJCUmJygpKissLS4v"
    );
    assert!(text.ends_with("-----\n"));
}

#[test]
fn armor_of_48_bytes_is_one_full_line() {
    let bytes = [7u8; 48];
    let text = armor(&bytes, "X");
    let lines: Vec<&str> = text.lines().collect();
    assert_eq!(lines.len(), 3);
    assert_eq!(lines[1].len(), 64);
}

#[test]
fn armored_bytes_are_read_back() {
    for len in [0usize, 1, 2, 3, 47, 48, 49, 95, 96, 97, 1000] {
        let bytes: Vec<u8> = (0..len).map(|i| (i * 31 % 256) as u8).collect();
        let text = armor(&bytes, "MASTER SIGNING KEY");
        assert_eq!(extract_bytes_from_armor(&text, "MASTER SIGNING KEY"), Ok(bytes));
    }
}

#[test]
fn armor_is_deterministic() {
    assert_eq!(armor(b"same bytes", "GHOST KEY"), armor(b"same bytes", "GHOST KEY"));
}

#[test]
fn another_label_finds_nothing() {
    let text = armor(b"secret", "MASTER SIGNING KEY");
    assert_eq!(
        extract_bytes_from_armor(&text, "MASTER VERIFYING KEY"),
        Err(CryptoError::ArmorError)
    );
    assert_eq!(extract_bytes_from_armor(&text, "MASTER SIGNING"), Err(CryptoError::ArmorError));
    assert_eq!(extract_bytes_from_armor(&text, ""), Err(CryptoError::ArmorError));
}

#[test]
fn text_without_markers_is_refused() {
    assert_eq!(extract_bytes_from_armor("aGVsbG8=", "GHOST KEY"), Err(CryptoError::ArmorError));
    assert_eq!(extract_bytes_from_armor("", "GHOST KEY"), Err(CryptoError::ArmorError));
    assert_eq!(
        extract_bytes_from_armor("-----BEGIN GHOST KEY-----\naGVsbG8=\n", "GHOST KEY"),
        Err(CryptoError::ArmorError)
    );
    assert_eq!(
        extract_bytes_from_armor("aGVsbG8=\n-----END GHOST KEY-----\n", "GHOST KEY"),
        Err(CryptoError::ArmorError)
    );
    assert_eq!(
        extract_bytes_from_armor(
            "-----END GHOST KEY-----\naGVsbG8=\n-----BEGIN GHOST KEY-----\n",
            "GHOST KEY"
        ),
        Err(CryptoError::ArmorError)
    );
}

#[test]
fn content_that_is_not_base64_is_refused() {
    let text = "-----BEGIN GHOST KEY-----\nnot base64!\n-----END GHOST KEY-----\n";
    assert_eq!(extract_bytes_from_armor(text, "GHOST KEY"), Err(CryptoError::ArmorError));
    assert_eq!(extract_base64_from_armor(text, "GHOST KEY"), Ok(b"not base64!".to_vec()));
    let unpadded = "-----BEGIN GHOST KEY-----\naGVsbG8\n-----END GHOST KEY-----\n";
    assert_eq!(extract_bytes_from_armor(unpadded, "GHOST KEY"), Err(CryptoError::ArmorError));
}

#[test]
fn carriage_returns_before_line_feeds_are_dropped() {
    let text = "-----BEGIN GHOST KEY-----\r\naGVs\r\nbG8=\r\n-----END GHOST KEY-----\r\n";
    assert_eq!(extract_bytes_from_armor(text, "GHOST KEY"), Ok(b"hello".to_vec()));
}

#[test]
fn the_last_line_need_not_end_with_a_line_feed() {
    let text = "-----BEGIN GHOST KEY-----\naGVsbG8=\n-----END GHOST KEY-----";
    assert_eq!(extract_bytes_from_armor(text, "GHOST KEY"), Ok(b"hello".to_vec()));
}

#[test]
fn lines_with_dashes_inside_an_envelope_are_dropped() {
    let text = "-----BEGIN GHOST KEY-----\naGVs\n-----COMMENT-----\nbG8=\n-----END GHOST KEY-----\n";
    assert_eq!(extract_bytes_from_armor(text, "GHOST KEY"), Ok(b"hello".to_vec()));
}

#[test]
fn each_envelope_of_a_text_is_found_by_its_label() {
    let text = format!("{}\n\n{}", armor(b"first", "GHOSTKEY CERTIFICATE"), armor(b"second", "GHOST KEY"));
    assert_eq!(extract_bytes_from_armor(&text, "GHOSTKEY CERTIFICATE"), Ok(b"first".to_vec()));
    assert_eq!(extract_bytes_from_armor(&text, "GHOST KEY"), Ok(b"second".to_vec()));
    assert_eq!(extract_bytes_from_armor(&text, "DELEGATE CERTIFICATE"), Err(CryptoError::ArmorError));
}

#[test]
fn text_around_an_envelope_is_passed_over() {
    let text = format!("a note\n{}more notes\n", armor(b"hello", "GHOST KEY"));
    assert_eq!(extract_bytes_from_armor(&text, "GHOST KEY"), Ok(b"hello".to_vec()));
}

#[test]
fn a_label_with_a_line_feed_does_not_read_back() {
    let text = armor(b"hello", "GHOST\nKEY");
    assert_eq!(extract_bytes_from_armor(&text, "GHOST\nKEY"), Err(CryptoError::ArmorError));
}

#[test]
fn a_label_may_hold_any_other_character() {
    let text = armor(b"hello", "Schlüssel-----");
    assert_eq!(extract_bytes_from_armor(&text, "Schlüssel-----"), Ok(b"hello".to_vec()));
}

#[test]
fn framing_takes_the_base64_text_as_it_is() {
    let text = armor_base64(b"QUJD", b"GHOST KEY");
    assert_eq!(text, b"-----BEGIN GHOST KEY-----\nQUJD\n-----END GHOST KEY-----\n".to_vec());
    assert_eq!(armored_base64_of(&text, b"GHOST KEY"), Some(b"QUJD".to_vec()));
    assert_eq!(armored_base64_of(&text, b"GHOST"), None);
    let long = [b'A'; 130];
    let framed = armor_base64(&long, b"L");
    let mut expected = b"-----BEGIN L-----\n".to_vec();
    expected.extend_from_slice(&[b'A'; 64]);
    expected.push(b'\n');
    expected.extend_from_slice(&[b'A'; 64]);
    expected.push(b'\n');
    expected.extend_from_slice(&[b'A'; 2]);
    expected.extend_from_slice(b"\n-----END L-----\n");
    assert_eq!(framed, expected);
    assert_eq!(armored_base64_of(&framed, b"L"), Some(long.to_vec()));
}

#[test]
fn base64_is_the_standard_alphabet_with_padding() {
    let text = armor(&[0xfb, 0xff, 0xfe], "X");
    assert_eq!(text, "-----BEGIN X-----\n+//+\n-----END X-----\n");
    let padded = armor(&[0xff], "X");
    assert_eq!(padded, "-----BEGIN X-----\n/w==\n-----END X-----\n");
    assert_eq!(
        extract_bytes_from_armor("-----BEGIN X-----\n-_-_\n-----END X-----\n", "X"),
        Err(CryptoError::ArmorError)
    );
}
