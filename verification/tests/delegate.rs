use ghostkey::armor::{armor, extract_bytes_from_armor};
use ghostkey::certificate::DelegateKeyCertificate;
use ghostkey::delegate::{
    certify_delegate_key, extract_delegate_certificate, generate_delegate_key,
    issue_delegate_certificate, validate_delegate_certificate, validate_delegate_key,
    verify_delegate_certificate,
};
use ghostkey::errors::CryptoError;
use ghostkey::keys::{Signature, SigningKey, VerifyingKey};
use ghostkey::master_key::{armor_master_key, generate_master_key, generate_master_verifying_key};

const INFO: &str = "tier=20;currency=usd";

fn issued() -> (SigningKey, SigningKey, DelegateKeyCertificate) {
    let master = SigningKey::random();
    let delegate = SigningKey::random();
    let certificate =
        issue_delegate_certificate(&master, &delegate.verifying_key(), INFO).unwrap();
    (master, delegate, certificate)
}

fn recoded(certificate: &DelegateKeyCertificate) -> Vec<u8> {
    certificate.to_bytes().unwrap()
}

#[test]
fn a_delegate_certificate_verifies_under_the_master_key_that_issued_it() {
    let (master, delegate, certificate) = issued();
    assert_eq!(certificate.verifying_key, delegate.verifying_key().to_sec1_bytes());
    assert_eq!(certificate.info, INFO);
    assert_eq!(
        verify_delegate_certificate(&master.verifying_key(), &recoded(&certificate)),
        Ok(INFO.to_string())
    );
}

#[test]
fn a_delegate_certificate_fails_under_another_master_key() {
    let (_, _, certificate) = issued();
    let other = SigningKey::random();
    assert_eq!(
        verify_delegate_certificate(&other.verifying_key(), &recoded(&certificate)),
        Err(CryptoError::SignatureVerificationError)
    );
}

#[test]
fn the_certificate_signature_is_the_master_signature_in_der() {
    let (master, _, certificate) = issued();
    let payload = certificate.signing_payload().unwrap();
    let expected = master.sign(&payload).unwrap();
    assert_eq!(certificate.signature, expected.to_der());
    assert_eq!(Signature::from_der(&certificate.signature), Ok(expected));
}

#[test]
fn a_flipped_byte_of_the_info_fails_verification() {
    let (master, _, certificate) = issued();
    for at in 0..certificate.info.len() {
        let mut info = certificate.info.clone().into_bytes();
        info[at] ^= 0x01;
        let changed = DelegateKeyCertificate {
            verifying_key: certificate.verifying_key.clone(),
            info: String::from_utf8(info).unwrap(),
            signature: certificate.signature.clone(),
        };
        assert_eq!(
            verify_delegate_certificate(&master.verifying_key(), &recoded(&changed)),
            Err(CryptoError::SignatureVerificationError)
        );
    }
}

#[test]
fn a_flipped_byte_of_the_verifying_key_fails_verification() {
    let (master, _, certificate) = issued();
    for at in 0..certificate.verifying_key.len() {
        let mut changed = DelegateKeyCertificate {
            verifying_key: certificate.verifying_key.clone(),
            info: certificate.info.clone(),
            signature: certificate.signature.clone(),
        };
        changed.verifying_key[at] ^= 0x01;
        assert_eq!(
            verify_delegate_certificate(&master.verifying_key(), &recoded(&changed)),
            Err(CryptoError::SignatureVerificationError)
        );
    }
}

#[test]
fn a_flipped_byte_of_the_signature_fails_verification() {
    let (master, _, certificate) = issued();
    for at in 0..certificate.signature.len() {
        let mut changed = DelegateKeyCertificate {
            verifying_key: certificate.verifying_key.clone(),
            info: certificate.info.clone(),
            signature: certificate.signature.clone(),
        };
        changed.signature[at] ^= 0x01;
        let verdict = verify_delegate_certificate(&master.verifying_key(), &recoded(&changed));
        assert!(matches!(
            verdict,
            Err(CryptoError::SignatureVerificationError) | Err(CryptoError::SignatureError)
        ));
    }
}

#[test]
fn raw_and_der_signatures_verify_alike() {
    let (master, _, certificate) = issued();
    let signature = Signature::from_der(&certificate.signature).unwrap();
    let raw = DelegateKeyCertificate {
        verifying_key: certificate.verifying_key.clone(),
        info: certificate.info.clone(),
        signature: signature.to_vec(),
    };
    assert_eq!(raw.signature.len(), 64);
    assert_ne!(raw.signature, certificate.signature);
    assert_eq!(
        verify_delegate_certificate(&master.verifying_key(), &recoded(&raw)),
        Ok(INFO.to_string())
    );
    assert_eq!(
        verify_delegate_certificate(&master.verifying_key(), &recoded(&certificate)),
        Ok(INFO.to_string())
    );
}

#[test]
fn malformed_input_is_told_from_a_wrong_signature() {
    let (master, _, certificate) = issued();
    let key = master.verifying_key();
    assert_eq!(
        verify_delegate_certificate(&key, b"no certificate"),
        Err(CryptoError::DeserializationError)
    );
    let unsigned = DelegateKeyCertificate {
        verifying_key: certificate.verifying_key.clone(),
        info: certificate.info.clone(),
        signature: vec![],
    };
    assert_eq!(
        verify_delegate_certificate(&key, &recoded(&unsigned)),
        Err(CryptoError::SignatureError)
    );
    let garbled = DelegateKeyCertificate {
        verifying_key: certificate.verifying_key.clone(),
        info: certificate.info.clone(),
        signature: vec![0u8; 64],
    };
    assert_eq!(
        verify_delegate_certificate(&key, &recoded(&garbled)),
        Err(CryptoError::SignatureError)
    );
}

#[test]
fn validation_reads_the_armored_master_key() {
    let (master, _, certificate) = issued();
    let (_, public) = armor_master_key(&master);
    let bytes = recoded(&certificate);
    assert_eq!(validate_delegate_certificate(&public, &bytes), Ok(INFO.to_string()));
    let mislabeled = armor(&master.verifying_key().to_sec1_bytes(), "MASTER SIGNING KEY");
    assert_eq!(validate_delegate_certificate(&mislabeled, &bytes), Err(CryptoError::ArmorError));
    let no_key = armor(b"not a key", "MASTER VERIFYING KEY");
    assert_eq!(validate_delegate_certificate(&no_key, &bytes), Err(CryptoError::KeyCreationError));
    assert_eq!(validate_delegate_certificate(&no_key, b"junk"), Err(CryptoError::KeyCreationError));
    assert_eq!(
        validate_delegate_certificate(&public, b"junk"),
        Err(CryptoError::DeserializationError)
    );
}

#[test]
fn an_armored_delegate_certificate_validates() {
    let (master, _, certificate) = issued();
    let (_, public) = armor_master_key(&master);
    let armored = armor(&recoded(&certificate), "DELEGATE CERTIFICATE");
    assert_eq!(validate_delegate_key(&public, &armored), Ok(INFO.to_string()));
    assert_eq!(extract_delegate_certificate(&armored), Ok(recoded(&certificate)));
    let mislabeled = armor(&recoded(&certificate), "GHOSTKEY CERTIFICATE");
    assert_eq!(validate_delegate_key(&public, &mislabeled), Err(CryptoError::ArmorError));
    assert_eq!(extract_delegate_certificate(&mislabeled), Err(CryptoError::ArmorError));
    assert_eq!(validate_delegate_key("", &armored), Err(CryptoError::ArmorError));
}

#[test]
fn a_generated_delegate_validates_and_keeps_its_key() {
    let (private, public) = generate_master_key().unwrap();
    let (certificate, signing_key) = generate_delegate_key(&private, INFO).unwrap();
    assert_eq!(validate_delegate_key(&public, &certificate), Ok(INFO.to_string()));
    let key_bytes = extract_bytes_from_armor(&signing_key, "DELEGATE SIGNING KEY").unwrap();
    let delegate = SigningKey::from_slice(&key_bytes).unwrap();
    let record = DelegateKeyCertificate::from_bytes(
        &extract_bytes_from_armor(&certificate, "DELEGATE CERTIFICATE").unwrap(),
    )
    .unwrap();
    assert_eq!(record.verifying_key, delegate.verifying_key().to_sec1_bytes());
    assert_eq!(record.info, INFO);
    let (again, other_key) = generate_delegate_key(&private, INFO).unwrap();
    assert_ne!(again, certificate);
    assert_ne!(other_key, signing_key);
}

#[test]
fn generating_a_delegate_needs_a_master_signing_key() {
    let (private, public) = generate_master_key().unwrap();
    assert_eq!(generate_delegate_key(&public, INFO), Err(CryptoError::ArmorError));
    assert_eq!(generate_delegate_key("", INFO), Err(CryptoError::ArmorError));
    let zero = armor(&[0u8; 32], "MASTER SIGNING KEY");
    assert_eq!(generate_delegate_key(&zero, INFO), Err(CryptoError::KeyCreationError));
    let short = armor(&[1u8; 5], "MASTER SIGNING KEY");
    assert_eq!(generate_delegate_key(&short, INFO), Err(CryptoError::KeyCreationError));
    assert!(generate_delegate_key(&private, "").is_ok());
}

#[test]
fn certifying_a_delegate_key_is_deterministic() {
    let master = SigningKey::random();
    let delegate = SigningKey::random();
    let one = certify_delegate_key(&master, &delegate, INFO).unwrap();
    let two = certify_delegate_key(&master, &delegate, INFO).unwrap();
    assert_eq!(one, two);
    assert_eq!(one.1, armor(&delegate.to_bytes(), "DELEGATE SIGNING KEY"));
    let record = issue_delegate_certificate(&master, &delegate.verifying_key(), INFO).unwrap();
    assert_eq!(one.0, armor(&record.to_bytes().unwrap(), "DELEGATE CERTIFICATE"));
}

#[test]
fn the_master_verifying_key_follows_from_the_signing_key() {
    let (private, public) = generate_master_key().unwrap();
    assert_eq!(generate_master_verifying_key(&private), Ok(public.clone()));
    assert_eq!(generate_master_verifying_key(&public), Err(CryptoError::ArmorError));
    let zero = armor(&[0u8; 32], "MASTER SIGNING KEY");
    assert_eq!(generate_master_verifying_key(&zero), Err(CryptoError::KeyCreationError));
    let key = SigningKey::from_slice(
        &extract_bytes_from_armor(&private, "MASTER SIGNING KEY").unwrap(),
    )
    .unwrap();
    let read = VerifyingKey::from_sec1_bytes(
        &extract_bytes_from_armor(&public, "MASTER VERIFYING KEY").unwrap(),
    )
    .unwrap();
    assert_eq!(key.verifying_key(), read);
    assert_eq!(armor_master_key(&key), (private, public));
}
