//! The delegate certificate authority: the master key vouches for a
//! delegate's verifying key and an attestation.
//!
//! A certificate is issued by signing its canonical encoding with an empty
//! signature, and verified by encoding it so again and checking the stored
//! signature against those bytes. The attestation is what a verifier learns,
//! and it learns it only where the signature holds.

use vstd::prelude::*;
use vstd::utf8::*;
use crate::armor::{
    armor, armor_text, armored_bytes, base64_text, extract_bytes_from_armor,
    lemma_labels_are_single_lines, DELEGATE_CERTIFICATE, DELEGATE_SIGNING_KEY,
    MASTER_SIGNING_KEY, MASTER_VERIFYING_KEY,
};
use crate::canonical::max_len;
use crate::certificate::{
    delegate_certificate_encodable, delegate_certificate_encoding, delegate_signing_payload,
    lemma_delegate_certificate_canonical, lemma_delegate_certificate_encoding_injective,
    lemma_delegate_certificate_round_trip, parse_delegate_certificate, DelegateKeyCertificate,
    DelegateKeyCertificateView,
};
use crate::errors::CryptoError;
use crate::keys::{
    der_encoding, der_signature, ecdsa_signature, ecdsa_verifies, is_raw_signature, is_scalar,
    is_sec1_public_key, is_signing_key_encoding, left_padded, public_key_of, stored_signature,
    Signature, SigningKey, VerifyingKey,
};

verus! {

/// A result that carries a text, by the text's characters.
pub open spec fn text_outcome(outcome: Result<String, CryptoError>) -> Result<
    Seq<char>,
    CryptoError,
> {
    match outcome {
        Ok(text) => Ok(text@),
        Err(e) => Err(e),
    }
}

/// What checking an encoded delegate certificate against master key bytes
/// yields: the attestation where the stored signature is one of the master
/// key over the certificate without its signature, and else the first thing
/// found wrong.
pub open spec fn delegate_certificate_verdict(master_key: Seq<u8>, certificate: Seq<u8>) -> Result<
    Seq<char>,
    CryptoError,
> {
    if !is_sec1_public_key(master_key) {
        Err(CryptoError::KeyCreationError)
    } else {
        match parse_delegate_certificate(certificate) {
            None => Err(CryptoError::DeserializationError),
            Some(record) => match stored_signature(record.signature) {
                None => Err(CryptoError::SignatureError),
                Some(signature) => if ecdsa_verifies(
                    master_key,
                    delegate_signing_payload(record.verifying_key, record.info),
                    signature,
                ) {
                    Ok(record.info)
                } else {
                    Err(CryptoError::SignatureVerificationError)
                },
            },
        }
    }
}

/// What validating an encoded delegate certificate against an armored master
/// verifying key yields.
pub open spec fn delegate_certificate_validation(
    master_key_armor: Seq<u8>,
    certificate: Seq<u8>,
) -> Result<Seq<char>, CryptoError> {
    match armored_bytes(master_key_armor, encode_utf8(MASTER_VERIFYING_KEY@)) {
        None => Err(CryptoError::ArmorError),
        Some(master_key) => delegate_certificate_verdict(master_key, certificate),
    }
}

/// What validating an armored delegate certificate against an armored master
/// verifying key yields.
pub open spec fn delegate_key_validation(
    master_key_armor: Seq<u8>,
    certificate_armor: Seq<u8>,
) -> Result<Seq<char>, CryptoError> {
    match armored_bytes(certificate_armor, encode_utf8(DELEGATE_CERTIFICATE@)) {
        None => Err(CryptoError::ArmorError),
        Some(certificate) => delegate_certificate_validation(master_key_armor, certificate),
    }
}

/// Whether an encoded delegate certificate names the verifying key that
/// belongs to a signing key.
pub open spec fn certifies_key(delegate_certificate: Seq<u8>, delegate_key: Seq<u8>) -> bool {
    match parse_delegate_certificate(delegate_certificate) {
        None => false,
        Some(record) => record.verifying_key == public_key_of(delegate_key),
    }
}

/// The certificate that a master key issues for a delegate key and an
/// attestation: the signature is stored in DER.
pub open spec fn issued_delegate_certificate(
    master_key: Seq<u8>,
    delegate_key: Seq<u8>,
    info: Seq<char>,
) -> Result<DelegateKeyCertificateView, CryptoError> {
    if delegate_key.len() > max_len() || encode_utf8(info).len() > max_len() {
        Err(CryptoError::SerializationError)
    } else {
        match ecdsa_signature(master_key, delegate_signing_payload(delegate_key, info)) {
            None => Err(CryptoError::SignatureError),
            Some(signature) => Ok(
                DelegateKeyCertificateView {
                    verifying_key: delegate_key,
                    info,
                    signature: der_encoding(signature),
                },
            ),
        }
    }
}

/// The armored certificate and the armored signing key that stand for a
/// delegate.
pub open spec fn delegate_artifacts(
    master_key: Seq<u8>,
    delegate_key: Seq<u8>,
    info: Seq<char>,
) -> Result<(Seq<u8>, Seq<u8>), CryptoError> {
    match issued_delegate_certificate(master_key, public_key_of(delegate_key), info) {
        Err(e) => Err(e),
        Ok(certificate) => Ok(
            (
                armor_text(
                    base64_text(delegate_certificate_encoding(certificate)),
                    encode_utf8(DELEGATE_CERTIFICATE@),
                ),
                armor_text(base64_text(delegate_key), encode_utf8(DELEGATE_SIGNING_KEY@)),
            ),
        ),
    }
}

/// Whether two armored texts are a delegate of a master key with an
/// attestation: the second holds a signing key, and the first holds a
/// certificate that names the verifying key of that signing key and yields
/// the attestation when it is checked against the master's verifying key.
pub open spec fn is_delegate_of(
    certificate_armor: Seq<u8>,
    signing_key_armor: Seq<u8>,
    master_key: Seq<u8>,
    info: Seq<char>,
) -> bool {
    match (
        armored_bytes(certificate_armor, encode_utf8(DELEGATE_CERTIFICATE@)),
        armored_bytes(signing_key_armor, encode_utf8(DELEGATE_SIGNING_KEY@)),
    ) {
        (Some(certificate), Some(delegate_key)) => {
            &&& is_scalar(delegate_key)
            &&& certifies_key(certificate, delegate_key)
            &&& delegate_certificate_verdict(public_key_of(master_key), certificate) == Ok::<
                Seq<char>,
                CryptoError,
            >(info)
        },
        _ => false,
    }
}

/// The certificate of a delegate validates against the armored verifying
/// key of its master, with the attestation it was issued with.
pub proof fn lemma_delegate_validates(
    certificate_armor: Seq<u8>,
    signing_key_armor: Seq<u8>,
    master_key: Seq<u8>,
    master_verifying_key_armor: Seq<u8>,
    info: Seq<char>,
)
    requires
        is_delegate_of(certificate_armor, signing_key_armor, master_key, info),
        armored_bytes(master_verifying_key_armor, encode_utf8(MASTER_VERIFYING_KEY@)) == Some(
            public_key_of(master_key),
        ),
    ensures
        delegate_key_validation(master_verifying_key_armor, certificate_armor) == Ok::<
            Seq<char>,
            CryptoError,
        >(info),
{
}

/// Checks an encoded delegate certificate against the master verifying key
/// and returns its attestation.
pub fn verify_delegate_certificate(master_key: &VerifyingKey, certificate: &[u8]) -> (info: Result<
    String,
    CryptoError,
>)
    ensures
        text_outcome(info) == delegate_certificate_verdict(master_key@, certificate@),
{
    let _ = master_key.as_bytes();
    let record = match DelegateKeyCertificate::from_bytes(certificate) {
        Ok(record) => record,
        Err(e) => {
            return Err(e);
        },
    };
    proof {
        lemma_delegate_certificate_canonical(certificate@);
    }
    let payload = match record.signing_payload() {
        Ok(payload) => payload,
        Err(e) => {
            return Err(e);
        },
    };
    let signature = match Signature::from_stored(record.signature.as_slice()) {
        Ok(signature) => signature,
        Err(e) => {
            return Err(e);
        },
    };
    if master_key.verify(payload.as_slice(), &signature) {
        Ok(record.info)
    } else {
        Err(CryptoError::SignatureVerificationError)
    }
}

/// Validates an encoded delegate certificate against an armored master
/// verifying key and returns its attestation.
pub fn validate_delegate_certificate(master_verifying_key_pem: &str, delegate_certificate: &[u8]) -> (info:
    Result<String, CryptoError>)
    ensures
        text_outcome(info) == delegate_certificate_validation(
            encode_utf8(master_verifying_key_pem@),
            delegate_certificate@,
        ),
{
    let key_bytes = match extract_bytes_from_armor(master_verifying_key_pem, MASTER_VERIFYING_KEY) {
        Ok(bytes) => bytes,
        Err(e) => {
            return Err(e);
        },
    };
    let master_key = match VerifyingKey::from_sec1_bytes(key_bytes.as_slice()) {
        Ok(key) => key,
        Err(e) => {
            return Err(e);
        },
    };
    verify_delegate_certificate(&master_key, delegate_certificate)
}

/// The encoded delegate certificate in an armored text.
pub fn extract_delegate_certificate(armored_text: &str) -> (certificate: Result<
    Vec<u8>,
    CryptoError,
>)
    ensures
        certificate is Ok <==> armored_bytes(
            encode_utf8(armored_text@),
            encode_utf8(DELEGATE_CERTIFICATE@),
        ) is Some,
        certificate matches Ok(c) ==> armored_bytes(
            encode_utf8(armored_text@),
            encode_utf8(DELEGATE_CERTIFICATE@),
        ) == Some(c@),
        certificate matches Err(e) ==> e == CryptoError::ArmorError,
{
    extract_bytes_from_armor(armored_text, DELEGATE_CERTIFICATE)
}

/// Validates an armored delegate certificate against an armored master
/// verifying key and returns its attestation.
pub fn validate_delegate_key(master_verifying_key_pem: &str, delegate_certificate_armored: &str) -> (info:
    Result<String, CryptoError>)
    ensures
        text_outcome(info) == delegate_key_validation(
            encode_utf8(master_verifying_key_pem@),
            encode_utf8(delegate_certificate_armored@),
        ),
{
    let certificate = match extract_delegate_certificate(delegate_certificate_armored) {
        Ok(bytes) => bytes,
        Err(e) => {
            return Err(e);
        },
    };
    validate_delegate_certificate(master_verifying_key_pem, certificate.as_slice())
}

/// Issues the certificate that binds a delegate's verifying key to an
/// attestation. The certificate verifies under the public key of the master
/// key that issued it.
pub fn issue_delegate_certificate(
    master_key: &SigningKey,
    delegate_key: &VerifyingKey,
    info: &str,
) -> (certificate: Result<DelegateKeyCertificate, CryptoError>)
    ensures
        match certificate {
            Ok(c) => issued_delegate_certificate(master_key@, delegate_key@, info@) == Ok::<
                DelegateKeyCertificateView,
                CryptoError,
            >(c@),
            Err(e) => issued_delegate_certificate(master_key@, delegate_key@, info@) == Err::<
                DelegateKeyCertificateView,
                CryptoError,
            >(e),
        },
        certificate matches Ok(c) ==> delegate_certificate_encodable(c@)
            && delegate_certificate_verdict(
            public_key_of(master_key@),
            delegate_certificate_encoding(c@),
        ) == Ok::<Seq<char>, CryptoError>(info@),
{
    let _ = master_key.as_bytes();
    let mut record = DelegateKeyCertificate {
        verifying_key: delegate_key.to_sec1_bytes(),
        info: info.to_owned(),
        signature: Vec::new(),
    };
    let payload = match record.signing_payload() {
        Ok(payload) => payload,
        Err(e) => {
            return Err(e);
        },
    };
    let signature = match master_key.sign(payload.as_slice()) {
        Ok(signature) => signature,
        Err(e) => {
            return Err(e);
        },
    };
    record.signature = signature.to_der();
    proof {
        lemma_delegate_certificate_round_trip(record@);
    }
    Ok(record)
}

/// Makes the armored certificate and the armored signing key of a delegate
/// from the delegate's signing key. The signing key is read back from its
/// text, and the certificate names its verifying key and holds under the
/// master's.
pub fn certify_delegate_key(master_key: &SigningKey, delegate_key: &SigningKey, info: &str) -> (artifacts:
    Result<(String, String), CryptoError>)
    ensures
        match artifacts {
            Ok((certificate, signing_key)) => delegate_artifacts(
                master_key@,
                delegate_key@,
                info@,
            ) == Ok::<(Seq<u8>, Seq<u8>), CryptoError>(
                (encode_utf8(certificate@), encode_utf8(signing_key@)),
            ),
            Err(e) => delegate_artifacts(master_key@, delegate_key@, info@) == Err::<
                (Seq<u8>, Seq<u8>),
                CryptoError,
            >(e),
        },
        artifacts matches Ok((certificate, signing_key)) ==> {
            &&& armored_bytes(encode_utf8(signing_key@), encode_utf8(DELEGATE_SIGNING_KEY@))
                == Some(delegate_key@)
            &&& is_delegate_of(
                encode_utf8(certificate@),
                encode_utf8(signing_key@),
                master_key@,
                info@,
            )
        },
{
    let public = delegate_key.verifying_key();
    let record = match issue_delegate_certificate(master_key, &public, info) {
        Ok(record) => record,
        Err(e) => {
            return Err(e);
        },
    };
    let encoded = match record.to_bytes() {
        Ok(bytes) => bytes,
        Err(e) => {
            return Err(e);
        },
    };
    proof {
        lemma_labels_are_single_lines();
        lemma_delegate_certificate_round_trip(record@);
    }
    let certificate = armor(encoded.as_slice(), DELEGATE_CERTIFICATE);
    let signing_key = armor(delegate_key.as_bytes(), DELEGATE_SIGNING_KEY);
    Ok((certificate, signing_key))
}

/// Generates a delegate: draws a fresh key pair, has the armored master
/// signing key certify its verifying key with the attestation, and returns
/// the armored certificate and the armored delegate signing key. Which key
/// is drawn is left open; what is returned is what `certify_delegate_key`
/// makes of it: a signing key, and a certificate that names its verifying
/// key and holds under the master's verifying key with the attestation.
pub fn generate_delegate_key(master_signing_key_pem: &str, info: &str) -> (artifacts: Result<
    (String, String),
    CryptoError,
>)
    ensures
        armored_bytes(encode_utf8(master_signing_key_pem@), encode_utf8(MASTER_SIGNING_KEY@))
            is None ==> artifacts == Err::<(String, String), CryptoError>(CryptoError::ArmorError),
        armored_bytes(
            encode_utf8(master_signing_key_pem@),
            encode_utf8(MASTER_SIGNING_KEY@),
        ) matches Some(key) ==> {
            &&& !is_signing_key_encoding(key) ==> artifacts == Err::<(String, String), CryptoError>(
                CryptoError::KeyCreationError,
            )
            &&& is_signing_key_encoding(key) ==> exists|delegate_key: Seq<u8>|
                is_scalar(delegate_key) && match artifacts {
                    Ok((certificate, signing_key)) => #[trigger] delegate_artifacts(
                        left_padded(key, 32),
                        delegate_key,
                        info@,
                    ) == Ok::<(Seq<u8>, Seq<u8>), CryptoError>(
                        (encode_utf8(certificate@), encode_utf8(signing_key@)),
                    ),
                    Err(e) => delegate_artifacts(left_padded(key, 32), delegate_key, info@) == Err::<
                        (Seq<u8>, Seq<u8>),
                        CryptoError,
                    >(e),
                }
        },
        artifacts matches Ok((certificate, signing_key)) ==> is_delegate_of(
            encode_utf8(certificate@),
            encode_utf8(signing_key@),
            left_padded(
                armored_bytes(
                    encode_utf8(master_signing_key_pem@),
                    encode_utf8(MASTER_SIGNING_KEY@),
                )->0,
                32,
            ),
            info@,
        ),
{
    let key_bytes = match extract_bytes_from_armor(master_signing_key_pem, MASTER_SIGNING_KEY) {
        Ok(bytes) => bytes,
        Err(e) => {
            return Err(e);
        },
    };
    let master_key = match SigningKey::from_slice(key_bytes.as_slice()) {
        Ok(key) => key,
        Err(e) => {
            return Err(e);
        },
    };
    let delegate_key = SigningKey::random();
    let artifacts = certify_delegate_key(&master_key, &delegate_key, info);
    proof {
        let witness = delegate_key@;
        assert(is_scalar(witness));
        assert(match artifacts {
            Ok((certificate, signing_key)) => delegate_artifacts(master_key@, witness, info@)
                == Ok::<(Seq<u8>, Seq<u8>), CryptoError>(
                (encode_utf8(certificate@), encode_utf8(signing_key@)),
            ),
            Err(e) => delegate_artifacts(master_key@, witness, info@) == Err::<
                (Seq<u8>, Seq<u8>),
                CryptoError,
            >(e),
        });
    }
    artifacts
}

/// A signature binds the fields it was made over: two delegate certificates
/// are signed over the same bytes only where they name the same key and the
/// same attestation.
pub proof fn lemma_delegate_payload_binds_fields(
    one_key: Seq<u8>,
    one_info: Seq<char>,
    other_key: Seq<u8>,
    other_info: Seq<char>,
)
    requires
        one_key.len() <= max_len(),
        other_key.len() <= max_len(),
        encode_utf8(one_info).len() <= max_len(),
        encode_utf8(other_info).len() <= max_len(),
        delegate_signing_payload(one_key, one_info) == delegate_signing_payload(
            other_key,
            other_info,
        ),
    ensures
        one_key == other_key,
        one_info == other_info,
{
    lemma_delegate_certificate_encoding_injective(
        DelegateKeyCertificateView {
            verifying_key: one_key,
            info: one_info,
            signature: Seq::empty(),
        },
        DelegateKeyCertificateView {
            verifying_key: other_key,
            info: other_info,
            signature: Seq::empty(),
        },
    );
}

/// What a change to the signed fields of a certificate comes to. The bytes
/// that its signature would have to be over are no longer the bytes that
/// were signed, so the changed certificate holds only where the stored
/// signature is one over those other bytes as well; where it is not, the
/// certificate is refused for its signature, never taken in part. That no
/// signature is one over two messages is the signature scheme's to keep.
pub proof fn lemma_changed_certificate_needs_another_signature(
    master_key: Seq<u8>,
    issued: DelegateKeyCertificateView,
    changed: DelegateKeyCertificateView,
)
    requires
        is_sec1_public_key(master_key),
        delegate_certificate_encodable(issued),
        delegate_certificate_encodable(changed),
        changed.signature == issued.signature,
        changed.verifying_key != issued.verifying_key || changed.info != issued.info,
    ensures
        delegate_signing_payload(changed.verifying_key, changed.info) != delegate_signing_payload(
            issued.verifying_key,
            issued.info,
        ),
        delegate_certificate_verdict(master_key, delegate_certificate_encoding(changed)) is Ok
            <==> stored_signature(issued.signature) is Some && ecdsa_verifies(
            master_key,
            delegate_signing_payload(changed.verifying_key, changed.info),
            stored_signature(issued.signature)->0,
        ),
        delegate_certificate_verdict(master_key, delegate_certificate_encoding(changed))
            matches Err(e) ==> e == CryptoError::SignatureError || e
            == CryptoError::SignatureVerificationError,
{
    lemma_delegate_certificate_round_trip(changed);
    if delegate_signing_payload(changed.verifying_key, changed.info) == delegate_signing_payload(
        issued.verifying_key,
        issued.info,
    ) {
        lemma_delegate_payload_binds_fields(
            changed.verifying_key,
            changed.info,
            issued.verifying_key,
            issued.info,
        );
    }
}

/// What a change to the stored signature of a certificate comes to: the
/// changed certificate holds only where the new bytes are a signature over
/// the signed bytes too, and is refused for its signature where they are
/// not.
pub proof fn lemma_changed_signature_is_checked(
    master_key: Seq<u8>,
    issued: DelegateKeyCertificateView,
    signature: Seq<u8>,
)
    requires
        is_sec1_public_key(master_key),
        delegate_certificate_encodable(issued),
        signature.len() <= max_len(),
    ensures
        ({
            let changed = DelegateKeyCertificateView {
                verifying_key: issued.verifying_key,
                info: issued.info,
                signature,
            };
            let verdict = delegate_certificate_verdict(
                master_key,
                delegate_certificate_encoding(changed),
            );
            &&& verdict is Ok <==> stored_signature(signature) is Some && ecdsa_verifies(
                master_key,
                delegate_signing_payload(issued.verifying_key, issued.info),
                stored_signature(signature)->0,
            )
            &&& stored_signature(signature) is None ==> verdict == Err::<Seq<char>, CryptoError>(
                CryptoError::SignatureError,
            )
            &&& verdict matches Err(e) ==> e == CryptoError::SignatureError || e
                == CryptoError::SignatureVerificationError
        }),
{
    lemma_delegate_certificate_round_trip(
        DelegateKeyCertificateView {
            verifying_key: issued.verifying_key,
            info: issued.info,
            signature,
        },
    );
}

/// A signature in fixed-width form and its DER encoding verify alike: the
/// verdict on a certificate does not depend on which of the two it stores.
/// This holds where the fixed-width bytes have no reading as DER of their
/// own; where they have one, that reading wins.
pub proof fn lemma_signature_forms_verify_alike(
    master_key: Seq<u8>,
    verifying_key: Seq<u8>,
    info: Seq<char>,
    raw: Seq<u8>,
    der: Seq<u8>,
)
    requires
        is_raw_signature(raw),
        der_signature(der) == Some(raw),
        der_signature(raw) is None,
        verifying_key.len() <= max_len(),
        encode_utf8(info).len() <= max_len(),
        der.len() <= max_len(),
    ensures
        delegate_certificate_verdict(
            master_key,
            delegate_certificate_encoding(
                DelegateKeyCertificateView { verifying_key, info, signature: raw },
            ),
        ) == delegate_certificate_verdict(
            master_key,
            delegate_certificate_encoding(
                DelegateKeyCertificateView { verifying_key, info, signature: der },
            ),
        ),
{
    lemma_delegate_certificate_round_trip(
        DelegateKeyCertificateView { verifying_key, info, signature: raw },
    );
    lemma_delegate_certificate_round_trip(
        DelegateKeyCertificateView { verifying_key, info, signature: der },
    );
}

} // verus!
