//! The ghost key authority: a delegate key vouches for a ghost key.
//!
//! A ghost-key certificate carries the delegate certificate it hangs on, so
//! that it can be checked with the master verifying key alone: first the
//! embedded delegate certificate against the master key, then the outer
//! signature against the delegate key that the embedded certificate names.
//! Both checks must pass, and a failure says at which of them it arose.

use vstd::prelude::*;
use vstd::utf8::*;
use crate::armor::{
    armor_text, armor_to_bytes, armored_base64, armored_bytes, base64_text,
    extract_bytes_from_armor, lemma_armor_found_first, lemma_armor_passed_over,
    lemma_ascii_is_utf8, lemma_empty_line_passed_over, lemma_ghost_labels_differ,
    lemma_labels_are_single_lines, lf, DELEGATE_CERTIFICATE, DELEGATE_SIGNING_KEY, GHOSTKEY_CERTIFICATE,
    GHOST_KEY,
};
use crate::canonical::{max_len, string_from_utf8};
use crate::certificate::{
    ghostkey_certificate_encodable, ghostkey_certificate_encoding, ghostkey_signing_payload,
    lemma_ghostkey_certificate_round_trip, parse_delegate_certificate,
    parse_ghostkey_certificate, DelegateKeyCertificate, GhostkeyCertificate,
    GhostkeyCertificateView,
};
use crate::delegate::{
    certifies_key, delegate_certificate_validation, validate_delegate_certificate,
};
use crate::errors::{CryptoError, ValidationError, ValidationStage};
use crate::keys::{
    der_encoding, ecdsa_signature, ecdsa_verifies, is_scalar, is_sec1_public_key,
    is_signing_key_encoding, left_padded, public_key_of, stored_signature, Signature, SigningKey,
    VerifyingKey,
};

verus! {

/// The version that issued certificates carry.
pub const GHOSTKEY_VERSION: u8 = 1;

/// A ghost key as its holder keeps it: the certificate, and the key pair
/// that the certificate speaks of.
#[derive(Debug)]
pub struct GhostKey {
    pub version: u8,
    pub certificate: GhostkeyCertificate,
    pub verifying_key: Vec<u8>,
    pub signing_key: Vec<u8>,
}

/// The certificate that a delegate key issues for a ghost verifying key: it
/// embeds the delegate certificate as it stands, and stores the signature in
/// DER.
pub open spec fn issued_ghostkey_certificate(
    delegate_certificate: Seq<u8>,
    delegate_key: Seq<u8>,
    ghost_key: Seq<u8>,
) -> Result<GhostkeyCertificateView, CryptoError> {
    if delegate_certificate.len() > max_len() || ghost_key.len() > max_len() {
        Err(CryptoError::SerializationError)
    } else {
        match ecdsa_signature(
            delegate_key,
            ghostkey_signing_payload(GHOSTKEY_VERSION, delegate_certificate, ghost_key),
        ) {
            None => Err(CryptoError::SignatureError),
            Some(signature) => Ok(
                GhostkeyCertificateView {
                    version: GHOSTKEY_VERSION,
                    delegate_certificate,
                    ghostkey_verifying_key: ghost_key,
                    signature: der_encoding(signature),
                },
            ),
        }
    }
}

/// The text that a ghost key is handed out as: the armored certificate, an
/// empty line, and the armored ghost signing key.
pub open spec fn ghost_key_text(certificate: GhostkeyCertificateView, ghost_key: Seq<u8>) -> Seq<
    u8,
> {
    armor_text(
        base64_text(ghostkey_certificate_encoding(certificate)),
        encode_utf8(GHOSTKEY_CERTIFICATE@),
    ) + seq![lf(), lf()] + armor_text(base64_text(ghost_key), encode_utf8(GHOST_KEY@))
}

/// What issuing a ghost key from a delegate certificate, the delegate
/// signing key and a ghost signing key yields.
pub open spec fn ghost_key_artifact(
    delegate_certificate: Seq<u8>,
    delegate_key: Seq<u8>,
    ghost_key: Seq<u8>,
) -> Result<Seq<u8>, CryptoError> {
    match issued_ghostkey_certificate(
        delegate_certificate,
        delegate_key,
        public_key_of(ghost_key),
    ) {
        Err(e) => Err(e),
        Ok(certificate) => Ok(ghost_key_text(certificate, ghost_key)),
    }
}

/// What checking the outer signature of a ghost-key certificate yields: the
/// signature must be one of the delegate key, which the embedded certificate
/// names, over the certificate without its signature.
pub open spec fn ghostkey_signature_verdict(certificate: GhostkeyCertificateView) -> Result<
    (),
    CryptoError,
> {
    match parse_delegate_certificate(certificate.delegate_certificate) {
        None => Err(CryptoError::DeserializationError),
        Some(delegate) => if !is_sec1_public_key(delegate.verifying_key) {
            Err(CryptoError::KeyCreationError)
        } else if certificate.delegate_certificate.len() > max_len()
            || certificate.ghostkey_verifying_key.len() > max_len() {
            Err(CryptoError::SerializationError)
        } else {
            match stored_signature(certificate.signature) {
                None => Err(CryptoError::SignatureError),
                Some(signature) => if ecdsa_verifies(
                    delegate.verifying_key,
                    ghostkey_signing_payload(
                        certificate.version,
                        certificate.delegate_certificate,
                        certificate.ghostkey_verifying_key,
                    ),
                    signature,
                ) {
                    Ok(())
                } else {
                    Err(CryptoError::SignatureVerificationError)
                },
            }
        },
    }
}

/// What checking a ghost-key certificate against an armored master
/// verifying key yields: the delegate's attestation where both the embedded
/// delegate certificate and the outer signature hold, and else the stage
/// that failed with what was found wrong there.
pub open spec fn ghost_key_verdict(
    master_key_armor: Seq<u8>,
    certificate: GhostkeyCertificateView,
) -> Result<Seq<char>, ValidationError> {
    match delegate_certificate_validation(master_key_armor, certificate.delegate_certificate) {
        Err(cause) => Err(ValidationError { stage: ValidationStage::DelegateChain, cause }),
        Ok(info) => match ghostkey_signature_verdict(certificate) {
            Err(cause) => Err(ValidationError { stage: ValidationStage::GhostSignature, cause }),
            Ok(_) => Ok(info),
        },
    }
}

/// What validating an armored ghost-key certificate against an armored
/// master verifying key yields.
pub open spec fn ghost_key_validation(master_key_armor: Seq<u8>, certificate_armor: Seq<u8>) -> Result<
    Seq<char>,
    ValidationError,
> {
    match armored_bytes(certificate_armor, encode_utf8(GHOSTKEY_CERTIFICATE@)) {
        None => Err(
            ValidationError { stage: ValidationStage::Envelope, cause: CryptoError::ArmorError },
        ),
        Some(encoded) => match parse_ghostkey_certificate(encoded) {
            None => Err(
                ValidationError {
                    stage: ValidationStage::Envelope,
                    cause: CryptoError::DeserializationError,
                },
            ),
            Some(certificate) => ghost_key_verdict(master_key_armor, certificate),
        },
    }
}

/// A ghost-key certificate validates only where both checks pass, and a
/// failure names the check that failed: the delegate chain where the
/// embedded certificate does not hold under the master key, the ghost
/// signature where it does and the outer signature does not hold.
pub proof fn lemma_ghost_key_needs_both_signatures(
    master_key_armor: Seq<u8>,
    certificate: GhostkeyCertificateView,
)
    ensures
        ghost_key_verdict(master_key_armor, certificate) is Ok <==> delegate_certificate_validation(
            master_key_armor,
            certificate.delegate_certificate,
        ) is Ok && ghostkey_signature_verdict(certificate) is Ok,
        ghost_key_verdict(master_key_armor, certificate) is Ok ==> ghost_key_verdict(
            master_key_armor,
            certificate,
        )->Ok_0 == delegate_certificate_validation(
            master_key_armor,
            certificate.delegate_certificate,
        )->Ok_0,
        delegate_certificate_validation(master_key_armor, certificate.delegate_certificate)
            is Err ==> ghost_key_verdict(master_key_armor, certificate) == Err::<
            Seq<char>,
            ValidationError,
        >(
            ValidationError {
                stage: ValidationStage::DelegateChain,
                cause: delegate_certificate_validation(
                    master_key_armor,
                    certificate.delegate_certificate,
                )->Err_0,
            },
        ),
        delegate_certificate_validation(master_key_armor, certificate.delegate_certificate) is Ok
            && ghostkey_signature_verdict(certificate) is Err ==> ghost_key_verdict(
            master_key_armor,
            certificate,
        ) == Err::<Seq<char>, ValidationError>(
            ValidationError {
                stage: ValidationStage::GhostSignature,
                cause: ghostkey_signature_verdict(certificate)->Err_0,
            },
        ),
{
}

/// What a change to the outer signature of a ghost-key certificate comes
/// to, where the certificate held before: the embedded delegate certificate
/// still holds, and the changed certificate holds only where the new bytes
/// are a signature of the delegate key over the signed bytes too; where
/// they are not, it is refused at the ghost signature.
pub proof fn lemma_changed_outer_signature_fails_at_the_ghost_signature(
    master_key_armor: Seq<u8>,
    issued: GhostkeyCertificateView,
    signature: Seq<u8>,
)
    requires
        ghost_key_verdict(master_key_armor, issued) is Ok,
    ensures
        ({
            let changed = GhostkeyCertificateView {
                version: issued.version,
                delegate_certificate: issued.delegate_certificate,
                ghostkey_verifying_key: issued.ghostkey_verifying_key,
                signature,
            };
            let verdict = ghost_key_verdict(master_key_armor, changed);
            let delegate = parse_delegate_certificate(issued.delegate_certificate)->0;
            &&& verdict is Ok <==> stored_signature(signature) is Some && ecdsa_verifies(
                delegate.verifying_key,
                ghostkey_signing_payload(
                    issued.version,
                    issued.delegate_certificate,
                    issued.ghostkey_verifying_key,
                ),
                stored_signature(signature)->0,
            )
            &&& verdict matches Err(e) ==> e.stage == ValidationStage::GhostSignature && (e.cause
                == CryptoError::SignatureError || e.cause
                == CryptoError::SignatureVerificationError)
        }),
{
}

/// What a change to the embedded delegate certificate of a ghost-key
/// certificate comes to: where the changed bytes no longer hold under the
/// master key, the certificate is refused at the delegate chain, whatever
/// its outer signature.
pub proof fn lemma_changed_delegate_certificate_fails_at_the_delegate_chain(
    master_key_armor: Seq<u8>,
    changed: GhostkeyCertificateView,
)
    requires
        delegate_certificate_validation(master_key_armor, changed.delegate_certificate) is Err,
    ensures
        ghost_key_verdict(master_key_armor, changed) matches Err(e) && e.stage
            == ValidationStage::DelegateChain,
{
}

/// A validation result that carries a text, by the text's characters.
pub open spec fn validation_outcome(outcome: Result<String, ValidationError>) -> Result<
    Seq<char>,
    ValidationError,
> {
    match outcome {
        Ok(text) => Ok(text@),
        Err(e) => Err(e),
    }
}

/// The verifying key that an encoded delegate certificate names.
pub fn extract_delegate_verifying_key(delegate_certificate: &[u8]) -> (key: Result<
    VerifyingKey,
    CryptoError,
>)
    ensures
        match key {
            Ok(k) => parse_delegate_certificate(delegate_certificate@) matches Some(record)
                && record.verifying_key == k@ && is_sec1_public_key(k@),
            Err(e) => match parse_delegate_certificate(delegate_certificate@) {
                None => e == CryptoError::DeserializationError,
                Some(record) => e == CryptoError::KeyCreationError && !is_sec1_public_key(
                    record.verifying_key,
                ),
            },
        },
{
    let record = match DelegateKeyCertificate::from_bytes(delegate_certificate) {
        Ok(record) => record,
        Err(e) => {
            return Err(e);
        },
    };
    VerifyingKey::from_sec1_bytes(record.verifying_key.as_slice())
}

/// Issues the certificate that binds a ghost verifying key to a delegate
/// certificate. Where the delegate certificate names the delegate key that
/// signs, the outer signature of the certificate holds.
pub fn issue_ghostkey_certificate(
    delegate_certificate: &[u8],
    delegate_key: &SigningKey,
    ghost_key: &VerifyingKey,
) -> (certificate: Result<GhostkeyCertificate, CryptoError>)
    ensures
        match certificate {
            Ok(c) => issued_ghostkey_certificate(
                delegate_certificate@,
                delegate_key@,
                ghost_key@,
            ) == Ok::<GhostkeyCertificateView, CryptoError>(c@),
            Err(e) => issued_ghostkey_certificate(
                delegate_certificate@,
                delegate_key@,
                ghost_key@,
            ) == Err::<GhostkeyCertificateView, CryptoError>(e),
        },
        certificate matches Ok(c) ==> ghostkey_certificate_encodable(c@) && (certifies_key(
            delegate_certificate@,
            delegate_key@,
        ) ==> ghostkey_signature_verdict(c@) == Ok::<(), CryptoError>(())),
{
    let _ = delegate_key.as_bytes();
    let mut certificate = GhostkeyCertificate {
        version: GHOSTKEY_VERSION,
        delegate_certificate: vstd::slice::slice_to_vec(delegate_certificate),
        ghostkey_verifying_key: ghost_key.to_sec1_bytes(),
        signature: Vec::new(),
    };
    let payload = match certificate.signing_payload() {
        Ok(payload) => payload,
        Err(e) => {
            return Err(e);
        },
    };
    let signature = match delegate_key.sign(payload.as_slice()) {
        Ok(signature) => signature,
        Err(e) => {
            return Err(e);
        },
    };
    certificate.signature = signature.to_der();
    Ok(certificate)
}

/// Checks the outer signature of a ghost-key certificate against the
/// delegate key that its embedded certificate names.
pub fn verify_ghostkey_signature(ghostkey_certificate: &GhostkeyCertificate) -> (verdict: Result<
    (),
    CryptoError,
>)
    ensures
        verdict == ghostkey_signature_verdict(ghostkey_certificate@),
{
    let delegate_key = match extract_delegate_verifying_key(
        ghostkey_certificate.delegate_certificate.as_slice(),
    ) {
        Ok(key) => key,
        Err(e) => {
            return Err(e);
        },
    };
    let payload = match ghostkey_certificate.signing_payload() {
        Ok(payload) => payload,
        Err(e) => {
            return Err(e);
        },
    };
    let signature = match Signature::from_stored(ghostkey_certificate.signature.as_slice()) {
        Ok(signature) => signature,
        Err(e) => {
            return Err(e);
        },
    };
    if delegate_key.verify(payload.as_slice(), &signature) {
        Ok(())
    } else {
        Err(CryptoError::SignatureVerificationError)
    }
}

/// Checks a ghost-key certificate against an armored master verifying key:
/// first the embedded delegate certificate, then the outer signature.
/// Returns the delegate's attestation.
pub fn verify_ghost_key(master_verifying_key_pem: &str, certificate: &GhostkeyCertificate) -> (info:
    Result<String, ValidationError>)
    ensures
        validation_outcome(info) == ghost_key_verdict(
            encode_utf8(master_verifying_key_pem@),
            certificate@,
        ),
{
    let info = match validate_delegate_certificate(
        master_verifying_key_pem,
        certificate.delegate_certificate.as_slice(),
    ) {
        Ok(info) => info,
        Err(cause) => {
            return Err(ValidationError { stage: ValidationStage::DelegateChain, cause });
        },
    };
    match verify_ghostkey_signature(certificate) {
        Ok(_) => Ok(info),
        Err(cause) => Err(ValidationError { stage: ValidationStage::GhostSignature, cause }),
    }
}

/// Validates an armored ghost-key certificate against an armored master
/// verifying key and returns the delegate's attestation. The text may hold
/// more than the certificate, such as the ghost signing key behind it.
pub fn validate_ghost_key(master_verifying_key_pem: &str, ghostkey_certificate_armored: &str) -> (info:
    Result<String, ValidationError>)
    ensures
        validation_outcome(info) == ghost_key_validation(
            encode_utf8(master_verifying_key_pem@),
            encode_utf8(ghostkey_certificate_armored@),
        ),
{
    let encoded = match extract_bytes_from_armor(ghostkey_certificate_armored, GHOSTKEY_CERTIFICATE) {
        Ok(bytes) => bytes,
        Err(cause) => {
            return Err(ValidationError { stage: ValidationStage::Envelope, cause });
        },
    };
    let certificate = match GhostkeyCertificate::from_bytes(encoded.as_slice()) {
        Ok(certificate) => certificate,
        Err(cause) => {
            return Err(ValidationError { stage: ValidationStage::Envelope, cause });
        },
    };
    verify_ghost_key(master_verifying_key_pem, &certificate)
}

/// Issues a ghost key from its signing key: certifies the verifying key
/// that belongs to it, and keeps both with the certificate.
pub fn issue_ghost_key(
    delegate_certificate: &[u8],
    delegate_key: &SigningKey,
    ghost_key: &SigningKey,
) -> (issued: Result<GhostKey, CryptoError>)
    ensures
        match issued {
            Ok(g) => issued_ghostkey_certificate(
                delegate_certificate@,
                delegate_key@,
                public_key_of(ghost_key@),
            ) == Ok::<GhostkeyCertificateView, CryptoError>(g.certificate@) && g.version
                == GHOSTKEY_VERSION && g.verifying_key@ == public_key_of(ghost_key@)
                && g.signing_key@ == ghost_key@,
            Err(e) => issued_ghostkey_certificate(
                delegate_certificate@,
                delegate_key@,
                public_key_of(ghost_key@),
            ) == Err::<GhostkeyCertificateView, CryptoError>(e),
        },
        issued matches Ok(g) ==> ghostkey_certificate_encodable(g.certificate@) && (certifies_key(
            delegate_certificate@,
            delegate_key@,
        ) ==> ghostkey_signature_verdict(g.certificate@) == Ok::<(), CryptoError>(())),
{
    let public = ghost_key.verifying_key();
    let certificate = match issue_ghostkey_certificate(delegate_certificate, delegate_key, &public) {
        Ok(certificate) => certificate,
        Err(e) => {
            return Err(e);
        },
    };
    Ok(
        GhostKey {
            version: GHOSTKEY_VERSION,
            certificate,
            verifying_key: public.to_sec1_bytes(),
            signing_key: ghost_key.to_bytes(),
        },
    )
}

/// Whether a text is a ghost key that hangs on a delegate certificate and
/// was issued with a delegate signing key: it holds a ghost signing key
/// and a certificate of the issued version that embeds the delegate
/// certificate as it stands and names the verifying key of the ghost
/// signing key; where the delegate certificate names the delegate key, the
/// certificate's outer signature holds.
pub open spec fn is_ghost_key_of(
    text: Seq<u8>,
    delegate_certificate: Seq<u8>,
    delegate_key: Seq<u8>,
) -> bool {
    match (
        armored_bytes(text, encode_utf8(GHOSTKEY_CERTIFICATE@)),
        armored_bytes(text, encode_utf8(GHOST_KEY@)),
    ) {
        (Some(encoded), Some(ghost_key)) => match parse_ghostkey_certificate(encoded) {
            None => false,
            Some(certificate) => {
                &&& is_scalar(ghost_key)
                &&& certificate.version == GHOSTKEY_VERSION
                &&& certificate.delegate_certificate == delegate_certificate
                &&& certificate.ghostkey_verifying_key == public_key_of(ghost_key)
                &&& certifies_key(delegate_certificate, delegate_key)
                    ==> ghostkey_signature_verdict(certificate) == Ok::<(), CryptoError>(())
            },
        },
        _ => false,
    }
}

/// A ghost key validates under every master key under which its delegate
/// certificate validates, with the delegate's attestation, where the
/// delegate certificate names the delegate key that issued the ghost key.
pub open spec fn validates_with_its_delegate(
    text: Seq<u8>,
    delegate_certificate: Seq<u8>,
    delegate_key: Seq<u8>,
) -> bool {
    forall|master_key_armor: Seq<u8>|
        delegate_certificate_validation(master_key_armor, delegate_certificate) is Ok
            && certifies_key(delegate_certificate, delegate_key) ==> #[trigger] ghost_key_validation(
            master_key_armor,
            text,
        ) == Ok::<Seq<char>, ValidationError>(
            delegate_certificate_validation(master_key_armor, delegate_certificate)->Ok_0,
        )
}

/// What is found in the text of a ghost key: the certificate under its
/// label, and the signing key under its own.
proof fn lemma_ghost_key_text(encoded: Seq<u8>, ghost_key: Seq<u8>)
    requires
        crate::armor::is_base64_text(base64_text(encoded)),
        crate::armor::is_base64_text(base64_text(ghost_key)),
    ensures
        armored_base64(
            armor_text(base64_text(encoded), encode_utf8(GHOSTKEY_CERTIFICATE@)) + seq![
                lf(),
                lf(),
            ] + armor_text(base64_text(ghost_key), encode_utf8(GHOST_KEY@)),
            encode_utf8(GHOSTKEY_CERTIFICATE@),
        ) == Some(base64_text(encoded)),
        armored_base64(
            armor_text(base64_text(encoded), encode_utf8(GHOSTKEY_CERTIFICATE@)) + seq![
                lf(),
                lf(),
            ] + armor_text(base64_text(ghost_key), encode_utf8(GHOST_KEY@)),
            encode_utf8(GHOST_KEY@),
        ) == Some(base64_text(ghost_key)),
{
    let first_label = encode_utf8(GHOSTKEY_CERTIFICATE@);
    let second_label = encode_utf8(GHOST_KEY@);
    let first = armor_text(base64_text(encoded), first_label);
    let second = armor_text(base64_text(ghost_key), second_label);
    let text = first + seq![lf(), lf()] + second;
    lemma_labels_are_single_lines();
    lemma_ghost_labels_differ();
    let behind = seq![lf(), lf()] + second;
    assert(text =~= first + behind);
    lemma_armor_found_first(base64_text(encoded), first_label, behind);
    lemma_armor_passed_over(base64_text(encoded), first_label, second_label, behind);
    assert(behind =~= seq![lf()] + (seq![lf()] + second));
    lemma_empty_line_passed_over(seq![lf()] + second, second_label);
    lemma_empty_line_passed_over(second, second_label);
    lemma_armor_found_first(base64_text(ghost_key), second_label, Seq::empty());
    assert(second + Seq::<u8>::empty() =~= second);
}

/// Makes the text of a ghost key from the ghost signing key: the armored
/// certificate, an empty line, and the armored signing key. The signing key
/// is read back from the text, and where the delegate certificate holds
/// under a master key and names the delegate key that signed, the text
/// validates under that master key with the delegate's attestation.
pub fn assemble_ghostkey(
    delegate_certificate: &[u8],
    delegate_key: &SigningKey,
    ghost_key: &SigningKey,
) -> (text: Result<String, CryptoError>)
    ensures
        match text {
            Ok(t) => ghost_key_artifact(delegate_certificate@, delegate_key@, ghost_key@) == Ok::<
                Seq<u8>,
                CryptoError,
            >(encode_utf8(t@)),
            Err(e) => ghost_key_artifact(delegate_certificate@, delegate_key@, ghost_key@) == Err::<
                Seq<u8>,
                CryptoError,
            >(e),
        },
        text matches Ok(t) ==> armored_bytes(encode_utf8(t@), encode_utf8(GHOST_KEY@)) == Some(
            ghost_key@,
        ),
        text matches Ok(t) ==> is_ghost_key_of(
            encode_utf8(t@),
            delegate_certificate@,
            delegate_key@,
        ),
        text matches Ok(t) ==> validates_with_its_delegate(
            encode_utf8(t@),
            delegate_certificate@,
            delegate_key@,
        ),
{
    let issued = match issue_ghost_key(delegate_certificate, delegate_key, ghost_key) {
        Ok(issued) => issued,
        Err(e) => {
            return Err(e);
        },
    };
    let encoded = match issued.certificate.to_bytes() {
        Ok(bytes) => bytes,
        Err(e) => {
            return Err(e);
        },
    };
    let mut text = armor_to_bytes(encoded.as_slice(), GHOSTKEY_CERTIFICATE);
    let mut key_text = armor_to_bytes(issued.signing_key.as_slice(), GHOST_KEY);
    let ghost first = text@;
    let ghost second = key_text@;
    let _ = ghost_key.as_bytes();
    text.push(0x0a);
    text.push(0x0a);
    text.append(&mut key_text);
    proof {
        let gap = seq![lf(), lf()];
        assert(text@ =~= first + gap + second);
        lemma_ascii_is_utf8(gap);
        valid_utf8_concat(first, gap);
        valid_utf8_concat(first + gap, second);
        decode_utf8_encode_utf8(text@);
        lemma_ghost_key_text(encoded@, ghost_key@);
        lemma_ghostkey_certificate_round_trip(issued.certificate@);
    }
    match string_from_utf8(text) {
        Some(text) => Ok(text),
        None => Err(CryptoError::SerializationError),
    }
}

/// Generates a ghost key: draws a fresh key pair, has the armored delegate
/// signing key certify its verifying key over the armored delegate
/// certificate, and returns the armored ghost-key certificate with the
/// armored ghost signing key behind it. Which key is drawn is left open;
/// what is returned is what `assemble_ghostkey` makes of it: a ghost
/// signing key, and a certificate over its verifying key that embeds the
/// delegate certificate and validates wherever the delegate certificate
/// does. The issuer keeps no copy of the ghost signing key.
pub fn generate_ghostkey(delegate_certificate: &str, delegate_signing_key: &str) -> (text: Result<
    String,
    CryptoError,
>)
    ensures
        armored_bytes(encode_utf8(delegate_certificate@), encode_utf8(DELEGATE_CERTIFICATE@))
            is None ==> text == Err::<String, CryptoError>(CryptoError::ArmorError),
        armored_bytes(
            encode_utf8(delegate_certificate@),
            encode_utf8(DELEGATE_CERTIFICATE@),
        ) matches Some(certificate) ==> match armored_bytes(
            encode_utf8(delegate_signing_key@),
            encode_utf8(DELEGATE_SIGNING_KEY@),
        ) {
            None => text == Err::<String, CryptoError>(CryptoError::ArmorError),
            Some(key) => if !is_signing_key_encoding(key) {
                text == Err::<String, CryptoError>(CryptoError::KeyCreationError)
            } else {
                exists|ghost_key: Seq<u8>|
                    is_scalar(ghost_key) && match text {
                        Ok(t) => #[trigger] ghost_key_artifact(
                            certificate,
                            left_padded(key, 32),
                            ghost_key,
                        ) == Ok::<Seq<u8>, CryptoError>(encode_utf8(t@)),
                        Err(e) => ghost_key_artifact(certificate, left_padded(key, 32), ghost_key)
                            == Err::<Seq<u8>, CryptoError>(e),
                    }
            },
        },
        text matches Ok(t) ==> is_ghost_key_of(
            encode_utf8(t@),
            armored_bytes(
                encode_utf8(delegate_certificate@),
                encode_utf8(DELEGATE_CERTIFICATE@),
            )->0,
            left_padded(
                armored_bytes(
                    encode_utf8(delegate_signing_key@),
                    encode_utf8(DELEGATE_SIGNING_KEY@),
                )->0,
                32,
            ),
        ),
        text matches Ok(t) ==> validates_with_its_delegate(
            encode_utf8(t@),
            armored_bytes(
                encode_utf8(delegate_certificate@),
                encode_utf8(DELEGATE_CERTIFICATE@),
            )->0,
            left_padded(
                armored_bytes(
                    encode_utf8(delegate_signing_key@),
                    encode_utf8(DELEGATE_SIGNING_KEY@),
                )->0,
                32,
            ),
        ),
{
    let certificate = match extract_bytes_from_armor(delegate_certificate, DELEGATE_CERTIFICATE) {
        Ok(bytes) => bytes,
        Err(e) => {
            return Err(e);
        },
    };
    let key_bytes = match extract_bytes_from_armor(delegate_signing_key, DELEGATE_SIGNING_KEY) {
        Ok(bytes) => bytes,
        Err(e) => {
            return Err(e);
        },
    };
    let delegate_key = match SigningKey::from_slice(key_bytes.as_slice()) {
        Ok(key) => key,
        Err(e) => {
            return Err(e);
        },
    };
    let ghost_key = SigningKey::random();
    let text = assemble_ghostkey(certificate.as_slice(), &delegate_key, &ghost_key);
    proof {
        let witness = ghost_key@;
        let embedded = armored_bytes(
            encode_utf8(delegate_certificate@),
            encode_utf8(DELEGATE_CERTIFICATE@),
        )->0;
        let key = armored_bytes(
            encode_utf8(delegate_signing_key@),
            encode_utf8(DELEGATE_SIGNING_KEY@),
        )->0;
        assert(embedded == certificate@);
        assert(left_padded(key, 32) == delegate_key@);
        assert(is_scalar(witness) && match text {
            Ok(t) => ghost_key_artifact(embedded, left_padded(key, 32), witness) == Ok::<
                Seq<u8>,
                CryptoError,
            >(encode_utf8(t@)),
            Err(e) => ghost_key_artifact(embedded, left_padded(key, 32), witness) == Err::<
                Seq<u8>,
                CryptoError,
            >(e),
        });
    }
    text
}

} // verus!
