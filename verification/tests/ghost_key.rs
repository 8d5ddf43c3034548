use ghostkey::armor::{armor, extract_bytes_from_armor};
use ghostkey::certificate::{DelegateKeyCertificate, GhostkeyCertificate};
use ghostkey::delegate::{generate_delegate_key, issue_delegate_certificate};
use ghostkey::errors::{CryptoError, ValidationError, ValidationStage};
use ghostkey::ghost_key::{
    assemble_ghostkey, extract_delegate_verifying_key, generate_ghostkey, issue_ghost_key,
    issue_ghostkey_certificate, validate_ghost_key, verify_ghost_key, verify_ghostkey_signature,
};
use ghostkey::keys::{Signature, SigningKey};
use ghostkey::master_key::{armor_master_key, generate_master_key};

const INFO: &str = "tier=20;currency=usd";

struct Chain {
    master_public: String,
    delegate: SigningKey,
    delegate_certificate: Vec<u8>,
    certificate: GhostkeyCertificate,
}

fn chain() -> Chain {
    let master = SigningKey::random();
    let delegate = SigningKey::random();
    let ghost = SigningKey::random();
    let delegate_certificate =
        issue_delegate_certificate(&master, &delegate.verifying_key(), INFO)
            .unwrap()
            .to_bytes()
            .unwrap();
    let certificate =
        issue_ghostkey_certificate(&delegate_certificate, &delegate, &ghost.verifying_key())
            .unwrap();
    Chain { master_public: armor_master_key(&master).1, delegate, delegate_certificate, certificate }
}

fn failed(stage: ValidationStage, cause: CryptoError) -> Result<String, ValidationError> {
    Err(ValidationError { stage, cause })
}

#[test]
fn a_ghost_key_is_issued_and_verified_end_to_end() {
    let (master_signing_key, master_verifying_key) = generate_master_key().unwrap();
    let (delegate_certificate, delegate_signing_key) =
        generate_delegate_key(&master_signing_key, "tier=20;currency=usd").unwrap();
    let ghost_key = generate_ghostkey(&delegate_certificate, &delegate_signing_key).unwrap();
    assert_eq!(
        validate_ghost_key(&master_verifying_key, &ghost_key),
        Ok("tier=20;currency=usd".to_string())
    );
}

#[test]
fn the_text_of_a_ghost_key_holds_certificate_and_signing_key() {
    let c = chain();
    let ghost = SigningKey::random();
    let text = assemble_ghostkey(&c.delegate_certificate, &c.delegate, &ghost).unwrap();
    let issued = issue_ghost_key(&c.delegate_certificate, &c.delegate, &ghost).unwrap();
    assert_eq!(
        text,
        format!(
            "{}\n\n{}",
            armor(&issued.certificate.to_bytes().unwrap(), "GHOSTKEY CERTIFICATE"),
            armor(&ghost.to_bytes(), "GHOST KEY")
        )
    );
    assert_eq!(extract_bytes_from_armor(&text, "GHOST KEY"), Ok(ghost.to_bytes()));
    let read = GhostkeyCertificate::from_bytes(
        &extract_bytes_from_armor(&text, "GHOSTKEY CERTIFICATE").unwrap(),
    )
    .unwrap();
    assert_eq!(read.version, 1);
    assert_eq!(read.delegate_certificate, c.delegate_certificate);
    assert_eq!(read.ghostkey_verifying_key, ghost.verifying_key().to_sec1_bytes());
    assert_eq!(issued.version, 1);
    assert_eq!(issued.signing_key, ghost.to_bytes());
    assert_eq!(issued.verifying_key, ghost.verifying_key().to_sec1_bytes());
    assert_eq!(validate_ghost_key(&c.master_public, &text), Ok(INFO.to_string()));
}

#[test]
fn the_outer_signature_is_the_delegate_signature_in_der() {
    let c = chain();
    let payload = c.certificate.signing_payload().unwrap();
    let expected = c.delegate.sign(&payload).unwrap();
    assert_eq!(c.certificate.signature, expected.to_der());
    assert_eq!(verify_ghostkey_signature(&c.certificate), Ok(()));
}

#[test]
fn a_ghost_key_certificate_verifies_when_both_signatures_hold() {
    let c = chain();
    assert_eq!(verify_ghost_key(&c.master_public, &c.certificate), Ok(INFO.to_string()));
    assert_eq!(verify_ghost_key(&c.master_public, &c.certificate), Ok(INFO.to_string()));
    let armored = armor(&c.certificate.to_bytes().unwrap(), "GHOSTKEY CERTIFICATE");
    assert_eq!(validate_ghost_key(&c.master_public, &armored), Ok(INFO.to_string()));
}

#[test]
fn a_corrupted_delegate_certificate_fails_at_the_delegate_chain() {
    let c = chain();
    let record = DelegateKeyCertificate::from_bytes(&c.delegate_certificate).unwrap();
    let mut info = record.info.clone().into_bytes();
    info[5] ^= 0x01;
    let forged = DelegateKeyCertificate {
        verifying_key: record.verifying_key.clone(),
        info: String::from_utf8(info).unwrap(),
        signature: record.signature.clone(),
    };
    let certificate = GhostkeyCertificate {
        version: c.certificate.version,
        delegate_certificate: forged.to_bytes().unwrap(),
        ghostkey_verifying_key: c.certificate.ghostkey_verifying_key.clone(),
        signature: c.certificate.signature.clone(),
    };
    assert_eq!(
        verify_ghost_key(&c.master_public, &certificate),
        failed(ValidationStage::DelegateChain, CryptoError::SignatureVerificationError)
    );
    let mut truncated = c.delegate_certificate.clone();
    truncated.pop();
    let certificate = GhostkeyCertificate {
        version: c.certificate.version,
        delegate_certificate: truncated,
        ghostkey_verifying_key: c.certificate.ghostkey_verifying_key.clone(),
        signature: c.certificate.signature.clone(),
    };
    assert_eq!(
        verify_ghost_key(&c.master_public, &certificate),
        failed(ValidationStage::DelegateChain, CryptoError::DeserializationError)
    );
}

#[test]
fn a_corrupted_outer_signature_fails_at_the_ghost_signature() {
    let c = chain();
    let signature = Signature::from_der(&c.certificate.signature).unwrap();
    let mut raw = signature.to_vec();
    raw[40] ^= 0x01;
    let certificate = GhostkeyCertificate {
        version: c.certificate.version,
        delegate_certificate: c.certificate.delegate_certificate.clone(),
        ghostkey_verifying_key: c.certificate.ghostkey_verifying_key.clone(),
        signature: raw,
    };
    assert_eq!(
        verify_ghost_key(&c.master_public, &certificate),
        failed(ValidationStage::GhostSignature, CryptoError::SignatureVerificationError)
    );
    let certificate = GhostkeyCertificate {
        version: c.certificate.version,
        delegate_certificate: c.certificate.delegate_certificate.clone(),
        ghostkey_verifying_key: c.certificate.ghostkey_verifying_key.clone(),
        signature: vec![1, 2, 3],
    };
    assert_eq!(
        verify_ghost_key(&c.master_public, &certificate),
        failed(ValidationStage::GhostSignature, CryptoError::SignatureError)
    );
    assert_eq!(verify_ghostkey_signature(&certificate), Err(CryptoError::SignatureError));
}

#[test]
fn a_changed_ghost_key_or_version_fails_at_the_ghost_signature() {
    let c = chain();
    let mut key = c.certificate.ghostkey_verifying_key.clone();
    key[10] ^= 0x01;
    let certificate = GhostkeyCertificate {
        version: c.certificate.version,
        delegate_certificate: c.certificate.delegate_certificate.clone(),
        ghostkey_verifying_key: key,
        signature: c.certificate.signature.clone(),
    };
    assert_eq!(
        verify_ghost_key(&c.master_public, &certificate),
        failed(ValidationStage::GhostSignature, CryptoError::SignatureVerificationError)
    );
    let certificate = GhostkeyCertificate {
        version: 2,
        delegate_certificate: c.certificate.delegate_certificate.clone(),
        ghostkey_verifying_key: c.certificate.ghostkey_verifying_key.clone(),
        signature: c.certificate.signature.clone(),
    };
    assert_eq!(
        verify_ghost_key(&c.master_public, &certificate),
        failed(ValidationStage::GhostSignature, CryptoError::SignatureVerificationError)
    );
}

#[test]
fn a_signature_of_another_delegate_fails_at_the_ghost_signature() {
    let c = chain();
    let stranger = SigningKey::random();
    let ghost = SigningKey::random();
    let certificate =
        issue_ghostkey_certificate(&c.delegate_certificate, &stranger, &ghost.verifying_key())
            .unwrap();
    assert_eq!(
        verify_ghost_key(&c.master_public, &certificate),
        failed(ValidationStage::GhostSignature, CryptoError::SignatureVerificationError)
    );
}

#[test]
fn another_master_key_fails_at_the_delegate_chain() {
    let c = chain();
    let other = armor_master_key(&SigningKey::random()).1;
    assert_eq!(
        verify_ghost_key(&other, &c.certificate),
        failed(ValidationStage::DelegateChain, CryptoError::SignatureVerificationError)
    );
    assert_eq!(
        verify_ghost_key("no armor", &c.certificate),
        failed(ValidationStage::DelegateChain, CryptoError::ArmorError)
    );
    let no_key = armor(b"junk", "MASTER VERIFYING KEY");
    assert_eq!(
        verify_ghost_key(&no_key, &c.certificate),
        failed(ValidationStage::DelegateChain, CryptoError::KeyCreationError)
    );
}

#[test]
fn an_unreadable_ghost_key_certificate_fails_at_the_envelope() {
    let c = chain();
    assert_eq!(
        validate_ghost_key(&c.master_public, "no armor"),
        failed(ValidationStage::Envelope, CryptoError::ArmorError)
    );
    let mislabeled = armor(&c.certificate.to_bytes().unwrap(), "DELEGATE CERTIFICATE");
    assert_eq!(
        validate_ghost_key(&c.master_public, &mislabeled),
        failed(ValidationStage::Envelope, CryptoError::ArmorError)
    );
    let junk = armor(b"junk", "GHOSTKEY CERTIFICATE");
    assert_eq!(
        validate_ghost_key(&c.master_public, &junk),
        failed(ValidationStage::Envelope, CryptoError::DeserializationError)
    );
    let delegate_only = armor(&c.delegate_certificate, "GHOSTKEY CERTIFICATE");
    assert_eq!(
        validate_ghost_key(&c.master_public, &delegate_only),
        failed(ValidationStage::Envelope, CryptoError::DeserializationError)
    );
}

#[test]
fn the_delegate_verifying_key_is_read_from_the_certificate() {
    let c = chain();
    assert_eq!(
        extract_delegate_verifying_key(&c.delegate_certificate),
        Ok(c.delegate.verifying_key())
    );
    assert_eq!(
        extract_delegate_verifying_key(b"junk"),
        Err(CryptoError::DeserializationError)
    );
    let no_key = DelegateKeyCertificate {
        verifying_key: vec![4, 5, 6],
        info: INFO.to_string(),
        signature: vec![],
    };
    assert_eq!(
        extract_delegate_verifying_key(&no_key.to_bytes().unwrap()),
        Err(CryptoError::KeyCreationError)
    );
    let certificate = GhostkeyCertificate {
        version: 1,
        delegate_certificate: no_key.to_bytes().unwrap(),
        ghostkey_verifying_key: vec![],
        signature: vec![],
    };
    assert_eq!(verify_ghostkey_signature(&certificate), Err(CryptoError::KeyCreationError));
}

#[test]
fn generating_a_ghost_key_needs_certificate_and_signing_key() {
    let (master_signing_key, _) = generate_master_key().unwrap();
    let (certificate, signing_key) = generate_delegate_key(&master_signing_key, INFO).unwrap();
    assert_eq!(generate_ghostkey(&signing_key, &signing_key), Err(CryptoError::ArmorError));
    assert_eq!(generate_ghostkey(&certificate, &certificate), Err(CryptoError::ArmorError));
    let zero = armor(&[0u8; 32], "DELEGATE SIGNING KEY");
    assert_eq!(generate_ghostkey(&certificate, &zero), Err(CryptoError::KeyCreationError));
    let one = generate_ghostkey(&certificate, &signing_key).unwrap();
    let two = generate_ghostkey(&certificate, &signing_key).unwrap();
    assert_ne!(one, two);
    assert_ne!(
        extract_bytes_from_armor(&one, "GHOST KEY"),
        extract_bytes_from_armor(&two, "GHOST KEY")
    );
}

#[test]
fn the_message_for_the_user_goes_by_the_cause() {
    let error = ValidationError {
        stage: ValidationStage::Envelope,
        cause: CryptoError::ArmorError,
    };
    assert_eq!(
        error.message(),
        "Failed to decode the provided ghost key certificate. Please ensure it's properly formatted."
    );
    let error = ValidationError {
        stage: ValidationStage::Envelope,
        cause: CryptoError::DeserializationError,
    };
    assert_eq!(
        error.message(),
        "The ghost key certificate is not in the expected format. It may be corrupted or invalid."
    );
    let error = ValidationError {
        stage: ValidationStage::DelegateChain,
        cause: CryptoError::KeyCreationError,
    };
    assert_eq!(
        error.message(),
        "There was an issue with the master verifying key. Please ensure it's correct and try again."
    );
    let error = ValidationError {
        stage: ValidationStage::GhostSignature,
        cause: CryptoError::SignatureVerificationError,
    };
    assert_eq!(
        error.message(),
        "The ghost key certificate signature is invalid. This could indicate tampering or an incorrect master key."
    );
    for cause in [
        CryptoError::SignatureError,
        CryptoError::SerializationError,
        CryptoError::Base64DecodeError,
        CryptoError::InvalidInput,
    ] {
        let error = ValidationError { stage: ValidationStage::GhostSignature, cause };
        assert_eq!(
            error.message(),
            "An unexpected error occurred during ghost key validation. Please try again or contact support if the issue persists."
        );
    }
}
