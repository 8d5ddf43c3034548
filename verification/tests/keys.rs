use ghostkey::errors::CryptoError;
use ghostkey::keys::{Signature, SigningKey, VerifyingKey};
use ghostkey::util::{create_keypair, sign, verify};
use p256::ecdsa::signature::{Signer, Verifier};

fn unhex(text: &str) -> Vec<u8> {
    let digits: Vec<u8> = text
        .bytes()
        .filter(|b| !b.is_ascii_whitespace())
        .map(|b| match b {
            b'0'..=b'9' => b - b'0',
            b'a'..=b'f' => b - b'a' + 10,
            _ => panic!("not a hex digit"),
        })
        .collect();
    digits.chunks(2).map(|pair| pair[0] * 16 + pair[1]).collect()
}

const SAMPLE_KEY: &str = "c9afa9d845ba75166b5c215767b1d6934e50c3db36e89b127b8a622b120f6721";
const ORDER: &str = "ffffffff00000000ffffffffffffffffbce6faada7179e84f3b9cac2fc632551";
const ORDER_LESS_ONE: &str = "ffffffff00000000ffffffffffffffffbce6faada7179e84f3b9cac2fc632550";

#[test]
fn test_key_generation() {
    println!("Running test code...");
    let key = SigningKey::random();
    assert_eq!(key.to_bytes().len(), 32);
    assert_eq!(key.verifying_key().to_sec1_bytes().len(), 65);
    assert_ne!(key.to_bytes(), SigningKey::random().to_bytes());
}

#[test]
fn test_create_keypair() {
    let result = create_keypair();
    assert!(result.is_ok());
    let (signing_key, verifying_key) = result.unwrap();
    assert_eq!(VerifyingKey::from(&signing_key), verifying_key);
}

#[test]
fn test_sign_and_verify() {
    let (signing_key, verifying_key) = create_keypair().unwrap();
    let test_data = test_data_bytes("Hello", 42);

    let signature = sign(&signing_key, &test_data).unwrap();

    let is_valid = verify(&verifying_key, &test_data, &signature).unwrap();
    assert!(is_valid);

    let modified_data = test_data_bytes("Hello", 43);
    let is_valid = verify(&verifying_key, &modified_data, &signature).unwrap();
    assert!(!is_valid);
}

fn test_data_bytes(field1: &str, field2: i32) -> Vec<u8> {
    let value = ciborium::Value::Map(vec![
        (ciborium::Value::Text("field1".to_string()), ciborium::Value::Text(field1.to_string())),
        (ciborium::Value::Text("field2".to_string()), ciborium::Value::Integer(field2.into())),
    ]);
    let mut bytes = Vec::new();
    ciborium::ser::into_writer(&value, &mut bytes).unwrap();
    bytes
}

#[test]
fn sign_goes_over_the_blake3_digest() {
    let key = SigningKey::from_slice(&unhex(SAMPLE_KEY)).unwrap();
    let data = b"some serialised data";
    let signature = sign(&key, data).unwrap();
    let digest = blake3::hash(data);
    let outside = p256::ecdsa::SigningKey::from_slice(&unhex(SAMPLE_KEY)).unwrap();
    let expected: p256::ecdsa::Signature = outside.sign(digest.as_bytes());
    assert_eq!(signature.to_vec(), expected.to_vec());
    assert_eq!(verify(&key.verifying_key(), data, &signature), Ok(true));
    assert_eq!(verify(&key.verifying_key(), b"other data", &signature), Ok(false));
}

#[test]
fn signing_is_that_of_rfc_6979() {
    let key = SigningKey::from_slice(&unhex(SAMPLE_KEY)).unwrap();
    let signature = key.sign(b"sample").unwrap();
    assert_eq!(
        signature.to_vec(),
        unhex(
            "efd48b2aacb6a8fd1140dd9cd45e81d69d2c877b56aaf991c34d0ea84eaf3716
             f7cb1c942d657c41d436c7a1b6e29f65f3e900dbb9aff4064dc4ab2f843acda8"
        )
    );
    let again = key.sign(b"test").unwrap();
    assert_eq!(
        again.to_vec(),
        unhex(
            "f1abb023518351cd71d881567b1ea663ed3efcf6c5132b354f28d3b0b7d38367
             019f4113742a2b14bd25926b49c649155f267e60d3814b4c0cc84250e46f0083"
        )
    );
}

#[test]
fn the_verifying_key_is_the_uncompressed_point() {
    let key = SigningKey::from_slice(&unhex(SAMPLE_KEY)).unwrap();
    let public = key.verifying_key().to_sec1_bytes();
    assert_eq!(
        public,
        unhex(
            "04
             60fed4ba255a9d31c961eb74c6356d68c049b8923b61fa6ce669622e60f29fb6
             7903fe1008b8bc99a41ae9e95628bc64f2f1b20c2d7e9f5177a3c294d4462299"
        )
    );
    let outside = p256::ecdsa::SigningKey::from_slice(&unhex(SAMPLE_KEY)).unwrap();
    assert_eq!(
        public,
        p256::ecdsa::VerifyingKey::from(&outside).to_encoded_point(false).as_bytes().to_vec()
    );
}

#[test]
fn signing_keys_are_scalars_below_the_order() {
    assert!(SigningKey::from_slice(&[0u8; 32]).is_err());
    assert!(SigningKey::from_slice(&[0xffu8; 32]).is_err());
    assert!(SigningKey::from_slice(&unhex(ORDER)).is_err());
    assert!(SigningKey::from_slice(&unhex(ORDER_LESS_ONE)).is_ok());
    let mut one = [0u8; 32];
    one[31] = 1;
    assert!(SigningKey::from_slice(&one).is_ok());
    assert_eq!(SigningKey::from_slice(&one).unwrap().to_bytes(), one.to_vec());
    assert!(matches!(SigningKey::from_slice(&[]), Err(CryptoError::KeyCreationError)));
    assert!(SigningKey::from_slice(&[1u8; 33]).is_err());
    assert!(SigningKey::from_slice(&[1u8; 23]).is_err());
}

#[test]
fn short_signing_keys_are_padded_in_front() {
    let short = [5u8; 24];
    let key = SigningKey::from_slice(&short).unwrap();
    let mut padded = vec![0u8; 8];
    padded.extend_from_slice(&short);
    assert_eq!(key.to_bytes(), padded);
    assert_eq!(
        key.verifying_key(),
        SigningKey::from_slice(&padded).unwrap().verifying_key()
    );
    assert!(SigningKey::from_slice(&[0u8; 24]).is_err());
}

#[test]
fn verifying_keys_are_points_on_the_curve() {
    let key = SigningKey::from_slice(&unhex(SAMPLE_KEY)).unwrap();
    let public = key.verifying_key().to_sec1_bytes();
    assert!(VerifyingKey::from_sec1_bytes(&public).is_ok());
    assert_eq!(VerifyingKey::from_sec1_bytes(&public).unwrap().to_sec1_bytes(), public);
    let mut off_curve = public.clone();
    off_curve[64] ^= 1;
    assert_eq!(VerifyingKey::from_sec1_bytes(&off_curve), Err(CryptoError::KeyCreationError));
    assert!(VerifyingKey::from_sec1_bytes(&public[..64]).is_err());
    assert!(VerifyingKey::from_sec1_bytes(&[]).is_err());
    assert!(VerifyingKey::from_sec1_bytes(&[0u8]).is_err());
    let outside = p256::ecdsa::VerifyingKey::from_sec1_bytes(&public).unwrap();
    let compressed = outside.to_encoded_point(true).as_bytes().to_vec();
    assert_eq!(compressed.len(), 33);
    let read = VerifyingKey::from_sec1_bytes(&compressed).unwrap();
    assert_eq!(read.to_sec1_bytes(), compressed);
    let signature = key.sign(b"message").unwrap();
    assert!(read.verify(b"message", &signature));
}

#[test]
fn a_signature_verifies_for_its_message_and_key_only() {
    let key = SigningKey::random();
    let other = SigningKey::random();
    let signature = key.sign(b"message").unwrap();
    assert!(key.verifying_key().verify(b"message", &signature));
    assert!(!key.verifying_key().verify(b"messagf", &signature));
    assert!(!key.verifying_key().verify(b"", &signature));
    assert!(!other.verifying_key().verify(b"message", &signature));
    let outside = p256::ecdsa::VerifyingKey::from_sec1_bytes(&key.verifying_key().to_sec1_bytes())
        .unwrap();
    let raw = p256::ecdsa::Signature::from_slice(&signature.to_vec()).unwrap();
    assert!(outside.verify(b"message", &raw).is_ok());
}

#[test]
fn fixed_width_signatures_are_two_scalars() {
    let mut bytes = vec![0u8; 64];
    assert_eq!(Signature::from_slice(&bytes), Err(CryptoError::SignatureError));
    bytes[31] = 1;
    assert!(Signature::from_slice(&bytes).is_err());
    bytes[63] = 1;
    assert!(Signature::from_slice(&bytes).is_ok());
    assert_eq!(Signature::from_slice(&bytes).unwrap().to_vec(), bytes);
    assert!(Signature::from_slice(&bytes[..63]).is_err());
    let mut high = unhex(ORDER);
    high.extend_from_slice(&bytes[32..]);
    assert!(Signature::from_slice(&high).is_err());
    let mut top = unhex(ORDER_LESS_ONE);
    top.extend_from_slice(&unhex(ORDER_LESS_ONE));
    assert!(Signature::from_slice(&top).is_ok());
    assert!(Signature::from_slice(&[0xffu8; 64]).is_err());
}

#[test]
fn der_signatures_are_read_back() {
    let key = SigningKey::from_slice(&unhex(SAMPLE_KEY)).unwrap();
    let signature = key.sign(b"sample").unwrap();
    let der = signature.to_der();
    assert_eq!(der[0], 0x30);
    assert_ne!(der, signature.to_vec());
    let outside = p256::ecdsa::Signature::from_slice(&signature.to_vec()).unwrap();
    assert_eq!(der, outside.to_der().as_bytes().to_vec());
    assert_eq!(Signature::from_der(&der), Ok(key.sign(b"sample").unwrap()));
    assert_eq!(Signature::from_der(&signature.to_vec()), Err(CryptoError::SignatureError));
    assert!(Signature::from_der(&der[..der.len() - 1]).is_err());
    assert!(Signature::from_der(&[]).is_err());
}

#[test]
fn stored_signatures_are_read_in_either_form() {
    let key = SigningKey::from_slice(&unhex(SAMPLE_KEY)).unwrap();
    let signature = key.sign(b"sample").unwrap();
    let from_der = Signature::from_stored(&signature.to_der()).unwrap();
    let from_raw = Signature::from_stored(&signature.to_vec()).unwrap();
    assert_eq!(from_der, from_raw);
    assert!(key.verifying_key().verify(b"sample", &from_der));
    assert!(key.verifying_key().verify(b"sample", &from_raw));
    assert_eq!(Signature::from_stored(&[1, 2, 3]), Err(CryptoError::SignatureError));
    assert_eq!(Signature::from_stored(&[0u8; 64]), Err(CryptoError::SignatureError));
}

#[test]
fn bytes_that_read_as_der_are_read_as_der() {
    let mut bytes = vec![0x30, 0x3e, 0x02, 0x1d];
    bytes.extend_from_slice(&[0x11; 29]);
    bytes.extend_from_slice(&[0x02, 0x1d]);
    bytes.extend_from_slice(&[0x22; 29]);
    assert_eq!(bytes.len(), 64);
    let as_raw = Signature::from_slice(&bytes).unwrap();
    let as_der = Signature::from_der(&bytes).unwrap();
    assert_ne!(as_raw, as_der);
    assert_eq!(Signature::from_stored(&bytes), Ok(as_der));
}
