use ghostkey::canonical::{
    read_byte_string, read_text, read_uint8, write_byte_string, write_text, write_uint8,
};
use ghostkey::certificate::{DelegateKeyCertificate, GhostkeyCertificate, GhostkeySigningData};
use ghostkey::errors::CryptoError;

fn delegate(verifying_key: &[u8], info: &str, signature: &[u8]) -> DelegateKeyCertificate {
    DelegateKeyCertificate {
        verifying_key: verifying_key.to_vec(),
        info: info.to_string(),
        signature: signature.to_vec(),
    }
}

fn pattern(len: usize) -> Vec<u8> {
    (0..len).map(|i| (i * 7 % 256) as u8).collect()
}

#[test]
fn a_delegate_certificate_is_encoded_field_by_field() {
    let certificate = delegate(&[1, 200], "hi", &[]);
    assert_eq!(
        certificate.to_bytes(),
        Ok(vec![0x93, 0x92, 0x01, 0xcc, 0xc8, 0xa2, b'h', b'i', 0x90])
    );
}

#[test]
fn integers_take_one_byte_below_128_and_two_from_there() {
    let mut out = vec![9u8];
    write_uint8(&mut out, 0);
    write_uint8(&mut out, 127);
    write_uint8(&mut out, 128);
    write_uint8(&mut out, 255);
    assert_eq!(out, vec![9, 0, 127, 0xcc, 128, 0xcc, 255]);
    assert_eq!(read_uint8(&out, 1), Some((0, 2)));
    assert_eq!(read_uint8(&out, 2), Some((127, 3)));
    assert_eq!(read_uint8(&out, 3), Some((128, 5)));
    assert_eq!(read_uint8(&out, 5), Some((255, 7)));
    assert_eq!(read_uint8(&out, 7), None);
    assert_eq!(read_uint8(&[0xcc, 0x05], 0), None);
    assert_eq!(read_uint8(&[0xcc], 0), None);
    assert_eq!(read_uint8(&[0xcd, 0x00, 0x05], 0), None);
    assert_eq!(read_uint8(&[0x80], 0), None);
}

#[test]
fn headers_take_the_shortest_form() {
    let mut out = Vec::new();
    write_byte_string(&mut out, &[0u8; 15]);
    assert_eq!(out[0], 0x9f);
    assert_eq!(out.len(), 16);
    let mut out = Vec::new();
    write_byte_string(&mut out, &[0u8; 16]);
    assert_eq!(&out[..3], &[0xdc, 0x00, 0x10]);
    let mut out = Vec::new();
    write_byte_string(&mut out, &[0u8; 0x1234]);
    assert_eq!(&out[..3], &[0xdc, 0x12, 0x34]);
    let mut out = Vec::new();
    write_byte_string(&mut out, &vec![0u8; 0x1_0000]);
    assert_eq!(&out[..5], &[0xdd, 0x00, 0x01, 0x00, 0x00]);
    let mut out = Vec::new();
    write_text(&mut out, &"a".repeat(31));
    assert_eq!(out[0], 0xbf);
    let mut out = Vec::new();
    write_text(&mut out, &"a".repeat(32));
    assert_eq!(&out[..2], &[0xd9, 32]);
    let mut out = Vec::new();
    write_text(&mut out, &"a".repeat(255));
    assert_eq!(&out[..2], &[0xd9, 255]);
    let mut out = Vec::new();
    write_text(&mut out, &"a".repeat(256));
    assert_eq!(&out[..3], &[0xda, 0x01, 0x00]);
    let mut out = Vec::new();
    write_text(&mut out, &"a".repeat(0x1_0000));
    assert_eq!(&out[..5], &[0xdb, 0x00, 0x01, 0x00, 0x00]);
    assert_eq!(out.len(), 5 + 0x1_0000);
}

#[test]
fn readers_refuse_headers_that_are_longer_than_needed() {
    assert_eq!(read_byte_string(&[0xdc, 0x00, 0x01, 0x07], 0), None);
    assert_eq!(read_byte_string(&[0x91, 0x07], 0), Some((vec![7], 2)));
    assert_eq!(read_byte_string(&[0xdd, 0x00, 0x00, 0x00, 0x01, 0x07], 0), None);
    assert_eq!(read_byte_string(&[0xc4, 0x01, 0x07], 0), None);
    assert_eq!(read_byte_string(&[0x92, 0x07], 0), None);
    assert_eq!(read_text(&[0xd9, 0x01, b'a'], 0), None);
    assert_eq!(read_text(&[0xa1, b'a'], 0), Some(("a".to_string(), 2)));
    assert_eq!(read_text(&[0xda, 0x00, 0x01, b'a'], 0), None);
    assert_eq!(read_text(&[0xa2, b'a'], 0), None);
    assert_eq!(read_text(&[0xa1, 0xff], 0), None);
    assert_eq!(read_text(&[0xa2, 0xc3, 0xbc], 0), Some(("ü".to_string(), 3)));
}

#[test]
fn the_encoding_is_that_of_messagepack_arrays() {
    let infos = [
        String::new(),
        "tier=20;currency=usd".to_string(),
        "ü€😀".to_string(),
        "x".repeat(31),
        "x".repeat(32),
        "x".repeat(255),
        "x".repeat(256),
        "x".repeat(70_000),
    ];
    for len in [0usize, 1, 15, 16, 17, 65, 255, 256, 70_000] {
        for info in infos.iter() {
            let key = pattern(len);
            let signature = pattern(len / 2);
            let ours = delegate(&key, info, &signature).to_bytes().unwrap();
            let theirs = rmp_serde::to_vec(&(key, info.clone(), signature)).unwrap();
            assert_eq!(ours, theirs);
        }
    }
    for version in [0u8, 1, 127, 128, 255] {
        let certificate = GhostkeyCertificate {
            version,
            delegate_certificate: pattern(300),
            ghostkey_verifying_key: pattern(65),
            signature: pattern(71),
        };
        let theirs =
            rmp_serde::to_vec(&(version, pattern(300), pattern(65), pattern(71))).unwrap();
        assert_eq!(certificate.to_bytes().unwrap(), theirs);
        let data = GhostkeySigningData {
            version,
            delegate_certificate: pattern(300),
            ghostkey_verifying_key: pattern(65),
        };
        let theirs = rmp_serde::to_vec(&(version, pattern(300), pattern(65))).unwrap();
        assert_eq!(data.to_bytes().unwrap(), theirs);
        assert_eq!(certificate.signing_payload(), data.to_bytes());
    }
}

#[test]
fn a_delegate_certificate_is_read_back_from_its_encoding() {
    for len in [0usize, 1, 15, 16, 65, 300, 70_000] {
        let certificate = delegate(&pattern(len), &"é".repeat(len), &pattern(len + 3));
        let bytes = certificate.to_bytes().unwrap();
        assert_eq!(DelegateKeyCertificate::from_bytes(&bytes), Ok(certificate));
    }
}

#[test]
fn a_ghostkey_certificate_is_read_back_from_its_encoding() {
    for version in [0u8, 1, 127, 128, 255] {
        let certificate = GhostkeyCertificate {
            version,
            delegate_certificate: pattern(200),
            ghostkey_verifying_key: pattern(65),
            signature: pattern(70),
        };
        let bytes = certificate.to_bytes().unwrap();
        assert_eq!(GhostkeyCertificate::from_bytes(&bytes), Ok(certificate));
    }
}

#[test]
fn the_signed_payload_has_an_empty_signature() {
    let certificate = delegate(&[1, 2, 3], "info", &[9, 9, 9]);
    let blank = delegate(&[1, 2, 3], "info", &[]);
    assert_eq!(certificate.signing_payload(), blank.to_bytes());
    assert_ne!(certificate.signing_payload(), certificate.to_bytes());
    let other_info = delegate(&[1, 2, 3], "infp", &[9, 9, 9]);
    assert_ne!(certificate.signing_payload(), other_info.signing_payload());
    let other_key = delegate(&[1, 2, 4], "info", &[9, 9, 9]);
    assert_ne!(certificate.signing_payload(), other_key.signing_payload());
}

#[test]
fn nothing_but_the_canonical_encoding_is_read() {
    let bytes = delegate(&[1, 200], "hi", &[5]).to_bytes().unwrap();
    assert_eq!(bytes, vec![0x93, 0x92, 0x01, 0xcc, 0xc8, 0xa2, b'h', b'i', 0x91, 0x05]);
    let refused = Err(CryptoError::DeserializationError);
    assert_eq!(DelegateKeyCertificate::from_bytes(&[]), refused);
    assert_eq!(DelegateKeyCertificate::from_bytes(&bytes[..bytes.len() - 1]), refused);
    let mut longer = bytes.clone();
    longer.push(0);
    assert_eq!(DelegateKeyCertificate::from_bytes(&longer), refused);
    let mut four = bytes.clone();
    four[0] = 0x94;
    assert_eq!(DelegateKeyCertificate::from_bytes(&four), refused);
    assert_eq!(GhostkeyCertificate::from_bytes(&bytes), Err(CryptoError::DeserializationError));
    let wide = vec![0x93, 0x92, 0xcc, 0x01, 0xcc, 0xc8, 0xa2, b'h', b'i', 0x91, 0x05];
    assert_eq!(DelegateKeyCertificate::from_bytes(&wide), refused);
    let bad_text = vec![0x93, 0x90, 0xa1, 0xff, 0x90];
    assert_eq!(DelegateKeyCertificate::from_bytes(&bad_text), refused);
    let text_for_bytes = vec![0x93, 0xa0, 0xa0, 0x90];
    assert_eq!(DelegateKeyCertificate::from_bytes(&text_for_bytes), refused);
}

#[test]
fn every_byte_of_an_encoding_counts() {
    let certificate = delegate(&pattern(20), "tier=20;currency=usd", &pattern(10));
    let bytes = certificate.to_bytes().unwrap();
    for at in 0..bytes.len() {
        let mut flipped = bytes.clone();
        flipped[at] ^= 0x01;
        match DelegateKeyCertificate::from_bytes(&flipped) {
            Ok(read) => {
                assert_ne!(read, certificate);
                assert_eq!(read.to_bytes(), Ok(flipped));
            }
            Err(e) => assert_eq!(e, CryptoError::DeserializationError),
        }
    }
}

#[test]
fn the_reader_is_stricter_than_a_messagepack_reader() {
    type Fields = (Vec<u8>, String, Vec<u8>);
    let canonical = vec![0x93, 0x91, 0x05, 0xa1, b'a', 0x90];
    let read: Fields = rmp_serde::from_slice(&canonical).unwrap();
    assert_eq!(read, (vec![5u8], "a".to_string(), vec![]));
    assert_eq!(
        DelegateKeyCertificate::from_bytes(&canonical),
        Ok(delegate(&[5], "a", &[]))
    );
    let wide_integer = vec![0x93, 0x91, 0xcc, 0x05, 0xa1, b'a', 0x90];
    let read: Fields = rmp_serde::from_slice(&wide_integer).unwrap();
    assert_eq!(read, (vec![5u8], "a".to_string(), vec![]));
    assert_eq!(
        DelegateKeyCertificate::from_bytes(&wide_integer),
        Err(CryptoError::DeserializationError)
    );
    let wide_header = vec![0x93, 0xdc, 0x00, 0x01, 0x05, 0xd9, 0x01, b'a', 0x90];
    let read: Fields = rmp_serde::from_slice(&wide_header).unwrap();
    assert_eq!(read, (vec![5u8], "a".to_string(), vec![]));
    assert_eq!(
        DelegateKeyCertificate::from_bytes(&wide_header),
        Err(CryptoError::DeserializationError)
    );
}
