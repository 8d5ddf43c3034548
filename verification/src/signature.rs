//! Signatures over messages, with the keys in the formats that the
//! certificates use.
//!
//! The signing key is an armored master or delegate signing key. The
//! verifying key is an armored master verifying key, or an armored
//! delegate certificate, which names the delegate's verifying key. The
//! signature is armored in DER.

use vstd::prelude::*;
use vstd::utf8::*;
use crate::armor::{
    armor, armor_text, armored_bytes, base64_text, extract_bytes_from_armor,
    lemma_labels_are_single_lines, DELEGATE_CERTIFICATE, DELEGATE_SIGNING_KEY,
    MASTER_SIGNING_KEY, MASTER_VERIFYING_KEY, SIGNATURE,
};
use crate::certificate::{parse_delegate_certificate, DelegateKeyCertificate};
use crate::errors::CryptoError;
use crate::keys::{
    der_encoding, ecdsa_signature, ecdsa_verifies, is_sec1_public_key, is_signing_key_encoding,
    left_padded, stored_signature, Signature, SigningKey, VerifyingKey,
};

verus! {

/// The signing key that an armored text holds: a master signing key, or
/// else a delegate signing key.
pub open spec fn signing_key_in(key_armor: Seq<u8>) -> Option<Seq<u8>> {
    match armored_bytes(key_armor, encode_utf8(MASTER_SIGNING_KEY@)) {
        Some(key) => Some(key),
        None => armored_bytes(key_armor, encode_utf8(DELEGATE_SIGNING_KEY@)),
    }
}

/// The verifying key that an armored text holds: a master verifying key,
/// or else the key that a delegate certificate names.
pub open spec fn verifying_key_in(key_armor: Seq<u8>) -> Result<Seq<u8>, CryptoError> {
    match armored_bytes(key_armor, encode_utf8(MASTER_VERIFYING_KEY@)) {
        Some(key) => Ok(key),
        None => match armored_bytes(key_armor, encode_utf8(DELEGATE_CERTIFICATE@)) {
            None => Err(CryptoError::ArmorError),
            Some(certificate) => match parse_delegate_certificate(certificate) {
                None => Err(CryptoError::DeserializationError),
                Some(record) => Ok(record.verifying_key),
            },
        },
    }
}

/// The armored signature of a message under an armored signing key.
pub open spec fn message_signature(key_armor: Seq<u8>, message: Seq<u8>) -> Result<
    Seq<u8>,
    CryptoError,
> {
    match signing_key_in(key_armor) {
        None => Err(CryptoError::ArmorError),
        Some(key) => if !is_signing_key_encoding(key) {
            Err(CryptoError::KeyCreationError)
        } else {
            match ecdsa_signature(left_padded(key, 32), message) {
                None => Err(CryptoError::SignatureError),
                Some(signature) => Ok(
                    armor_text(base64_text(der_encoding(signature)), encode_utf8(SIGNATURE@)),
                ),
            }
        },
    }
}

/// Whether an armored signature is one of a message under an armored
/// verifying key.
pub open spec fn message_verdict(key_armor: Seq<u8>, message: Seq<u8>, signature_armor: Seq<u8>) -> Result<
    bool,
    CryptoError,
> {
    match verifying_key_in(key_armor) {
        Err(e) => Err(e),
        Ok(key) => if !is_sec1_public_key(key) {
            Err(CryptoError::KeyCreationError)
        } else {
            match armored_bytes(signature_armor, encode_utf8(SIGNATURE@)) {
                None => Err(CryptoError::ArmorError),
                Some(stored) => match stored_signature(stored) {
                    None => Err(CryptoError::SignatureError),
                    Some(signature) => Ok(ecdsa_verifies(key, message, signature)),
                },
            }
        },
    }
}

/// Signs a message with an armored signing key and armors the signature.
/// The signature is read back from its text.
pub fn sign_message(signing_key_pem: &str, message: &str) -> (signature: Result<
    String,
    CryptoError,
>)
    ensures
        match signature {
            Ok(text) => message_signature(
                encode_utf8(signing_key_pem@),
                encode_utf8(message@),
            ) == Ok::<Seq<u8>, CryptoError>(encode_utf8(text@)) && armored_bytes(
                encode_utf8(text@),
                encode_utf8(SIGNATURE@),
            ) is Some,
            Err(e) => message_signature(encode_utf8(signing_key_pem@), encode_utf8(message@))
                == Err::<Seq<u8>, CryptoError>(e),
        },
{
    let key_bytes = match extract_bytes_from_armor(signing_key_pem, MASTER_SIGNING_KEY) {
        Ok(bytes) => bytes,
        Err(_) => match extract_bytes_from_armor(signing_key_pem, DELEGATE_SIGNING_KEY) {
            Ok(bytes) => bytes,
            Err(e) => {
                return Err(e);
            },
        },
    };
    let signing_key = match SigningKey::from_slice(key_bytes.as_slice()) {
        Ok(key) => key,
        Err(e) => {
            return Err(e);
        },
    };
    let signature = match signing_key.sign(message.as_bytes()) {
        Ok(signature) => signature,
        Err(e) => {
            return Err(e);
        },
    };
    proof {
        lemma_labels_are_single_lines();
    }
    let der = signature.to_der();
    Ok(armor(der.as_slice(), SIGNATURE))
}

/// Checks an armored signature of a message against an armored verifying
/// key.
pub fn verify_signature(verifying_key_pem: &str, message: &str, signature: &str) -> (valid: Result<
    bool,
    CryptoError,
>)
    ensures
        valid == message_verdict(
            encode_utf8(verifying_key_pem@),
            encode_utf8(message@),
            encode_utf8(signature@),
        ),
{
    let key_bytes = match extract_bytes_from_armor(verifying_key_pem, MASTER_VERIFYING_KEY) {
        Ok(bytes) => bytes,
        Err(_) => {
            let certificate = match extract_bytes_from_armor(verifying_key_pem, DELEGATE_CERTIFICATE) {
                Ok(bytes) => bytes,
                Err(e) => {
                    return Err(e);
                },
            };
            match DelegateKeyCertificate::from_bytes(certificate.as_slice()) {
                Ok(record) => record.verifying_key,
                Err(e) => {
                    return Err(e);
                },
            }
        },
    };
    let verifying_key = match VerifyingKey::from_sec1_bytes(key_bytes.as_slice()) {
        Ok(key) => key,
        Err(e) => {
            return Err(e);
        },
    };
    let stored = match extract_bytes_from_armor(signature, SIGNATURE) {
        Ok(bytes) => bytes,
        Err(e) => {
            return Err(e);
        },
    };
    let signature = match Signature::from_stored(stored.as_slice()) {
        Ok(signature) => signature,
        Err(e) => {
            return Err(e);
        },
    };
    Ok(verifying_key.verify(message.as_bytes(), &signature))
}

} // verus!
