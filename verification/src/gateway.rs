//! The payment-gated issuance gateway.
//!
//! Once a payment is confirmed, the gateway signs for the client with the
//! delegate key of the tier that the paid amount falls into. What it signs
//! is the SHA-256 digest of the client's key material followed by a fresh
//! nonce, so that no two calls sign the same message; what it returns is
//! the signature followed by the nonce, in base64, with the tier's delegate
//! certificate. The client's key is not hidden from the signer.
//!
//! Reading the key files, asking the payment provider and drawing the
//! payment's state are the caller's part: this module names the files,
//! decides on what the provider said, and does the signing.

use vstd::prelude::*;
use vstd::utf8::*;
use crate::armor::{
    armored_bytes, base64_bytes, base64_decode, base64_encode, base64_text,
    extract_bytes_from_armor, lemma_ascii_is_utf8, DELEGATE_SIGNING_KEY, MASTER_SIGNING_KEY,
};
use crate::canonical::string_from_utf8;
use crate::decimal::{decimal_text, lemma_decimal_text_ascii, push_decimal};
use crate::errors::CryptoError;
use crate::keys::{
    ecdsa_signature, ecdsa_verifies, is_raw_signature, is_scalar, is_signing_key_encoding,
    left_padded, public_key_of, SigningKey,
};

verus! {

/// What is wrong with key material.
#[derive(Clone, Copy, Debug, PartialEq, Eq, Structural)]
pub enum KeyFault {
    /// The client's key is an object without a text `x`.
    MissingX,
    /// The client's key is an object without a text `y`.
    MissingY,
    /// The client's key is neither a text nor an object.
    InvalidFormat,
    /// The tier has no delegate certificate in store.
    MissingCertificate,
    /// The tier has no delegate signing key in store.
    MissingSigningKey,
    /// The stored delegate signing key is not armored as one.
    SigningKeyArmor,
    /// The stored delegate signing key is not a key.
    SigningKeyMalformed,
    /// The signer gave up.
    SigningFailed,
}

/// Why the gateway did not sign.
#[derive(Clone, Copy, Debug, PartialEq, Eq, Structural)]
pub enum CertificateError {
    /// The payment provider could not be asked or did not answer.
    PaymentProviderError,
    /// The payment has not succeeded.
    PaymentNotSuccessful,
    /// The payment still lacks a payment method.
    PaymentMethodMissing,
    /// A signature has been issued for this payment before.
    CertificateAlreadySigned,
    /// The client's key is not base64.
    Base64Error,
    /// Key material is missing or malformed.
    KeyError(KeyFault),
}

/// The shapes in which a client may send its key, as they arrive.
#[derive(Debug)]
pub enum KeyShape {
    /// A text.
    Text(String),
    /// An object, with its members `x` and `y` where they are texts.
    Object { x: Option<String>, y: Option<String> },
    /// Anything else.
    Other,
}

/// The key material of a client, in one of its two accepted shapes.
#[derive(Debug)]
pub enum BlindedKey {
    /// The key as one base64 text.
    Encoded(String),
    /// The key as two coordinates, each a base64 text.
    Coordinates { x: String, y: String },
}

/// The tier's delegate certificate as it is handed back, and the tier.
#[derive(Debug)]
pub struct DelegateInfo {
    pub certificate: String,
    pub amount: i64,
}

impl Default for DelegateInfo {
    fn default() -> (info: DelegateInfo)
        ensures
            info.certificate@ == Seq::<char>::empty(),
            info.amount == 0,
    {
        DelegateInfo { certificate: String::new(), amount: 0 }
    }
}

/// A request for a signature: the payment it rests on and the client's key.
#[derive(Debug)]
pub struct SignCertificateRequest {
    pub payment_intent_id: String,
    pub blinded_public_key: KeyShape,
}

/// What the gateway answers: the signature with its nonce, and the
/// delegate certificate to check it with.
#[derive(Debug)]
pub struct SignCertificateResponse {
    pub blind_signature: String,
    pub delegate_info: DelegateInfo,
}

/// The SHA-256 digest of a byte string.
pub uninterp spec fn sha256_digest(data: Seq<u8>) -> Seq<u8>;

/// `Sha256::digest` of the `sha2` crate: 32 bytes.
#[verifier::external_body]
fn sha256(data: &[u8]) -> (digest: Vec<u8>)
    ensures
        digest@ == sha256_digest(data@),
        digest@.len() == 32,
{
    <sha2::Sha256 as sha2::Digest>::digest(data).to_vec()
}

/// `p256::SecretKey::random` on the operating system's generator, then
/// `to_bytes`: 32 bytes, of which no more is known. It does not return where
/// the operating system has no random source.
#[verifier::external_body]
fn random_nonce() -> (nonce: Vec<u8>)
    ensures
        nonce@.len() == 32,
{
    p256::SecretKey::random(&mut rand_core::OsRng).to_bytes().to_vec()
}

/// The tier that an amount in the smallest currency unit falls into: the
/// amount divided by 100, rounded down.
pub fn tier_for_amount(amount: i64) -> (tier: i64)
    ensures
        tier == amount / 100,
{
    if amount >= 0 {
        amount / 100
    } else {
        let below: i64 = -(amount + 1);
        -(below / 100) - 1
    }
}

/// The name of a tier's file: a stem, the tier in decimal, and `.pem`.
pub open spec fn tier_file_name(stem: Seq<char>, tier: int) -> Seq<u8> {
    encode_utf8(stem) + decimal_text(tier) + encode_utf8(".pem"@)
}

/// Makes the name of a tier's file.
fn file_name_for(stem: &str, tier: i64) -> (name: String)
    ensures
        encode_utf8(name@) == tier_file_name(stem@, tier as int),
{
    let mut bytes: Vec<u8> = vstd::slice::slice_to_vec(stem.as_bytes());
    let ghost front = bytes@;
    push_decimal(&mut bytes, tier);
    let mut suffix: Vec<u8> = vstd::slice::slice_to_vec(".pem".as_bytes());
    let ghost back = suffix@;
    bytes.append(&mut suffix);
    proof {
        let number = decimal_text(tier as int);
        assert(bytes@ =~= tier_file_name(stem@, tier as int));
        encode_utf8_valid_utf8(stem@);
        encode_utf8_valid_utf8(".pem"@);
        lemma_decimal_text_ascii(tier as int);
        lemma_ascii_is_utf8(number);
        valid_utf8_concat(front, number);
        valid_utf8_concat(front + number, back);
        decode_utf8_encode_utf8(bytes@);
    }
    match string_from_utf8(bytes) {
        Some(name) => name,
        None => String::new(),
    }
}

/// The name of the file that holds a tier's delegate certificate.
pub fn delegate_certificate_file_name(tier: i64) -> (name: String)
    ensures
        encode_utf8(name@) == tier_file_name("delegate_certificate_"@, tier as int),
{
    file_name_for("delegate_certificate_", tier)
}

/// The name of the file that holds a tier's delegate signing key.
pub fn delegate_signing_key_file_name(tier: i64) -> (name: String)
    ensures
        encode_utf8(name@) == tier_file_name("delegate_signing_key_"@, tier as int),
{
    file_name_for("delegate_signing_key_", tier)
}

impl BlindedKey {
    /// Takes the key material in the shape it arrived in; shapes other than
    /// a text or an object with texts `x` and `y` are refused.
    pub fn from_shape(shape: &KeyShape) -> (key: Result<BlindedKey, KeyFault>)
        ensures
            key == accepted_key(*shape),
    {
        match shape {
            KeyShape::Text(text) => Ok(BlindedKey::Encoded(text.clone())),
            KeyShape::Object { x, y } => match x {
                None => Err(KeyFault::MissingX),
                Some(x) => match y {
                    None => Err(KeyFault::MissingY),
                    Some(y) => Ok(BlindedKey::Coordinates { x: x.clone(), y: y.clone() }),
                },
            },
            KeyShape::Other => Err(KeyFault::InvalidFormat),
        }
    }

    /// The bytes that the key material denotes: what the text decodes to,
    /// or what `x` decodes to followed by what `y` decodes to.
    pub open spec fn bytes(self) -> Option<Seq<u8>> {
        match self {
            BlindedKey::Encoded(text) => base64_bytes(encode_utf8(text@)),
            BlindedKey::Coordinates { x, y } => match base64_bytes(encode_utf8(x@)) {
                None => None,
                Some(first) => match base64_bytes(encode_utf8(y@)) {
                    None => None,
                    Some(second) => Some(first + second),
                },
            },
        }
    }

    /// Decodes the key material.
    pub fn to_bytes(&self) -> (bytes: Option<Vec<u8>>)
        ensures
            bytes is Some <==> self.bytes() is Some,
            bytes matches Some(b) ==> self.bytes() == Some(b@),
    {
        match self {
            BlindedKey::Encoded(text) => base64_decode(text.as_str().as_bytes()),
            BlindedKey::Coordinates { x, y } => {
                let mut first = match base64_decode(x.as_str().as_bytes()) {
                    Some(bytes) => bytes,
                    None => {
                        return None;
                    },
                };
                let mut second = match base64_decode(y.as_str().as_bytes()) {
                    Some(bytes) => bytes,
                    None => {
                        return None;
                    },
                };
                first.append(&mut second);
                Some(first)
            },
        }
    }
}

/// The message that the gateway signs for a client key and a nonce.
pub open spec fn gateway_message(client_key: Seq<u8>, nonce: Seq<u8>) -> Seq<u8> {
    sha256_digest(client_key + nonce)
}

/// What the gateway hands out for a client key and a nonce: the signature
/// of the message followed by the nonce, as base64 text; `None` where the
/// signer gives up.
pub open spec fn gateway_signature(signing_key: Seq<u8>, client_key: Seq<u8>, nonce: Seq<u8>) -> Option<
    Seq<u8>,
> {
    match ecdsa_signature(signing_key, gateway_message(client_key, nonce)) {
        None => None,
        Some(signature) => Some(base64_text(signature + nonce)),
    }
}

/// Whether a text is a signed output for a client key and a nonce under a
/// verifying key: it decodes to a fixed-width signature of 64 bytes with
/// the nonce behind it, and the signature is one of the digest of client
/// key and nonce under the verifying key.
pub open spec fn is_signed_output(
    output: Seq<u8>,
    verifying_key: Seq<u8>,
    client_key: Seq<u8>,
    nonce: Seq<u8>,
) -> bool {
    match base64_bytes(output) {
        None => false,
        Some(combined) => {
            &&& combined.len() == 64 + nonce.len()
            &&& combined.skip(64) == nonce
            &&& is_raw_signature(combined.take(64))
            &&& ecdsa_verifies(verifying_key, gateway_message(client_key, nonce), combined.take(64))
        },
    }
}

/// Whether a text is what the gateway hands out for a client key under a
/// verifying key: it decodes to 96 bytes, a signature of 64 bytes and a
/// nonce of 32, and the signature is one of the digest of client key and
/// that nonce under the verifying key.
pub open spec fn is_gateway_output(output: Seq<u8>, verifying_key: Seq<u8>, client_key: Seq<u8>) -> bool {
    match base64_bytes(output) {
        None => false,
        Some(combined) => combined.len() == 96 && is_signed_output(
            output,
            verifying_key,
            client_key,
            combined.skip(64),
        ),
    }
}

/// Signs for a client key with a given nonce. The text that is handed out
/// decodes to the signature followed by the nonce, and the signature
/// verifies under the signer's verifying key.
pub fn sign_with_nonce(signing_key: &SigningKey, client_key: &[u8], nonce: &[u8]) -> (signed: Option<
    String,
>)
    ensures
        signed is Some <==> gateway_signature(signing_key@, client_key@, nonce@) is Some,
        signed matches Some(text) ==> gateway_signature(signing_key@, client_key@, nonce@) == Some(
            encode_utf8(text@),
        ),
        signed matches Some(text) ==> {
            let signature = ecdsa_signature(
                signing_key@,
                gateway_message(client_key@, nonce@),
            )->0;
            signature.len() == 64 && base64_bytes(encode_utf8(text@)) == Some(
                signature + nonce@,
            )
        },
        signed matches Some(text) ==> is_signed_output(
            encode_utf8(text@),
            public_key_of(signing_key@),
            client_key@,
            nonce@,
        ),
        signed matches Some(text) ==> nonce@.len() == 32 ==> is_gateway_output(
            encode_utf8(text@),
            public_key_of(signing_key@),
            client_key@,
        ),
{
    let mut message_input = vstd::slice::slice_to_vec(client_key);
    let mut nonce_copy = vstd::slice::slice_to_vec(nonce);
    message_input.append(&mut nonce_copy);
    let message = sha256(message_input.as_slice());
    let signature = match signing_key.sign(message.as_slice()) {
        Ok(signature) => signature,
        Err(_) => {
            return None;
        },
    };
    let mut combined = signature.to_vec();
    let ghost raw = combined@;
    let mut tail = vstd::slice::slice_to_vec(nonce);
    combined.append(&mut tail);
    let text = base64_encode(combined.as_slice());
    proof {
        assert(combined@.take(64) =~= raw);
        assert(combined@.skip(64) =~= nonce@);
        assert forall|i: int| 0 <= i < text@.len() implies #[trigger] text@[i] < 0x80 by {
            assert(crate::armor::is_base64_char(text@[i]));
        }
        lemma_ascii_is_utf8(text@);
        decode_utf8_encode_utf8(text@);
    }
    string_from_utf8(text)
}

/// Two nonces give two different inputs to the digest: what is hashed for a
/// client key holds the nonce. That the digests of different inputs differ
/// is the hash function's to keep.
pub proof fn lemma_nonce_shows_in_what_is_hashed(
    client_key: Seq<u8>,
    one_nonce: Seq<u8>,
    other_nonce: Seq<u8>,
)
    requires
        one_nonce != other_nonce,
    ensures
        client_key + one_nonce != client_key + other_nonce,
{
    let a = client_key + one_nonce;
    let b = client_key + other_nonce;
    if a == b {
        assert(one_nonce =~= a.skip(client_key.len() as int));
        assert(other_nonce =~= b.skip(client_key.len() as int));
    }
}

/// Two nonces of the same length give two different signed outputs: an
/// output decodes to a signature and the nonce behind it, so that outputs
/// which are the same carry the same nonce.
pub proof fn lemma_nonce_shows_in_output(
    one_output: Seq<u8>,
    other_output: Seq<u8>,
    one_signature: Seq<u8>,
    other_signature: Seq<u8>,
    one_nonce: Seq<u8>,
    other_nonce: Seq<u8>,
)
    requires
        base64_bytes(one_output) == Some(one_signature + one_nonce),
        base64_bytes(other_output) == Some(other_signature + other_nonce),
        one_signature.len() == other_signature.len(),
        one_nonce.len() == other_nonce.len(),
        one_nonce != other_nonce,
    ensures
        one_output != other_output,
{
    let a = one_signature + one_nonce;
    let b = other_signature + other_nonce;
    if a == b {
        assert(one_nonce =~= a.skip(one_signature.len() as int));
        assert(other_nonce =~= b.skip(other_signature.len() as int));
    }
}

/// The key material that a shape is accepted as, or what is wrong with
/// the shape.
pub open spec fn accepted_key(shape: KeyShape) -> Result<BlindedKey, KeyFault> {
    match shape {
        KeyShape::Text(text) => Ok(BlindedKey::Encoded(text)),
        KeyShape::Object { x: Some(x), y: Some(y) } => Ok(BlindedKey::Coordinates { x, y }),
        KeyShape::Object { x: None, y: _ } => Err(KeyFault::MissingX),
        KeyShape::Object { x: Some(_), y: None } => Err(KeyFault::MissingY),
        KeyShape::Other => Err(KeyFault::InvalidFormat),
    }
}

/// What a stored file holds, where it was found.
pub open spec fn stored_bytes(file: Option<&[u8]>) -> Option<Seq<u8>> {
    match file {
        Some(bytes) => Some(bytes@),
        None => None,
    }
}

/// What a stored text file holds, where it was found.
pub open spec fn stored_text(file: Option<&str>) -> Option<Seq<u8>> {
    match file {
        Some(text) => Some(encode_utf8(text@)),
        None => None,
    }
}

/// The signing key that a tier's key file holds, where the file was found
/// and is armored as a delegate signing key.
pub open spec fn stored_signing_key(delegate_key_armor: Option<Seq<u8>>) -> Option<Seq<u8>> {
    match delegate_key_armor {
        None => None,
        Some(key_armor) => armored_bytes(key_armor, encode_utf8(DELEGATE_SIGNING_KEY@)),
    }
}

/// The bytes of a client's key, where its shape is accepted and its texts
/// are base64.
pub open spec fn client_key_bytes(shape: KeyShape) -> Option<Seq<u8>> {
    match accepted_key(shape) {
        Err(_) => None,
        Ok(key) => key.bytes(),
    }
}

/// What the gateway answers for what the tier's store holds, a client key,
/// an amount and a nonce: the signed output, the delegate certificate in
/// base64, and the tier. A tier without a delegate certificate or without a
/// delegate signing key in store is a key error, as is key material of no
/// accepted shape. The stored signing key is read at its fixed width: a key
/// that is not a scalar in 32 bytes is a key error, a shorter one too.
pub open spec fn gateway_answer(
    shape: KeyShape,
    amount: int,
    delegate_certificate: Option<Seq<u8>>,
    delegate_key_armor: Option<Seq<u8>>,
    nonce: Seq<u8>,
) -> Result<(Seq<u8>, Seq<u8>, int), CertificateError> {
    match (delegate_certificate, delegate_key_armor) {
        (None, _) => Err(CertificateError::KeyError(KeyFault::MissingCertificate)),
        (Some(_), None) => Err(CertificateError::KeyError(KeyFault::MissingSigningKey)),
        (Some(certificate), Some(key_armor)) => match armored_bytes(
            key_armor,
            encode_utf8(DELEGATE_SIGNING_KEY@),
        ) {
            None => Err(CertificateError::KeyError(KeyFault::SigningKeyArmor)),
            Some(key_bytes) => if !is_scalar(key_bytes) {
                Err(CertificateError::KeyError(KeyFault::SigningKeyMalformed))
            } else {
                match accepted_key(shape) {
                    Err(fault) => Err(CertificateError::KeyError(fault)),
                    Ok(key) => match key.bytes() {
                        None => Err(CertificateError::Base64Error),
                        Some(client_key) => match gateway_signature(key_bytes, client_key, nonce) {
                            None => Err(CertificateError::KeyError(KeyFault::SigningFailed)),
                            Some(signed) => Ok((signed, base64_text(certificate), amount / 100)),
                        },
                    },
                }
            },
        },
    }
}

/// What an answer holds, by its texts' bytes.
pub open spec fn answer_outcome(answer: Result<(String, DelegateInfo), CertificateError>) -> Result<
    (Seq<u8>, Seq<u8>, int),
    CertificateError,
> {
    match answer {
        Ok((signature, info)) => Ok(
            (encode_utf8(signature@), encode_utf8(info.certificate@), info.amount as int),
        ),
        Err(e) => Err(e),
    }
}

/// Signs for a client with the delegate key of the amount's tier, with a
/// given nonce. The certificate and the armored signing key are what the
/// tier's files hold, where the files were found.
pub fn sign_with_delegate_key_and_nonce(
    blinded_verifying_key: &KeyShape,
    amount: i64,
    delegate_certificate: Option<&[u8]>,
    delegate_signing_key_pem: Option<&str>,
    nonce: &[u8],
) -> (answer: Result<(String, DelegateInfo), CertificateError>)
    ensures
        answer_outcome(answer) == gateway_answer(
            *blinded_verifying_key,
            amount as int,
            stored_bytes(delegate_certificate),
            stored_text(delegate_signing_key_pem),
            nonce@,
        ),
        answer matches Ok((signature, _)) ==> {
            &&& stored_signing_key(stored_text(delegate_signing_key_pem)) is Some
            &&& client_key_bytes(*blinded_verifying_key) is Some
            &&& is_signed_output(
                encode_utf8(signature@),
                public_key_of(stored_signing_key(stored_text(delegate_signing_key_pem))->0),
                client_key_bytes(*blinded_verifying_key)->0,
                nonce@,
            )
            &&& nonce@.len() == 32 ==> is_gateway_output(
                encode_utf8(signature@),
                public_key_of(stored_signing_key(stored_text(delegate_signing_key_pem))->0),
                client_key_bytes(*blinded_verifying_key)->0,
            )
        },
{
    let delegate_certificate = match delegate_certificate {
        Some(bytes) => bytes,
        None => {
            return Err(CertificateError::KeyError(KeyFault::MissingCertificate));
        },
    };
    let delegate_signing_key_pem = match delegate_signing_key_pem {
        Some(text) => text,
        None => {
            return Err(CertificateError::KeyError(KeyFault::MissingSigningKey));
        },
    };
    let key_bytes = match extract_bytes_from_armor(delegate_signing_key_pem, DELEGATE_SIGNING_KEY) {
        Ok(bytes) => bytes,
        Err(_) => {
            return Err(CertificateError::KeyError(KeyFault::SigningKeyArmor));
        },
    };
    if key_bytes.len() != 32 {
        return Err(CertificateError::KeyError(KeyFault::SigningKeyMalformed));
    }
    let signing_key = match SigningKey::from_slice(key_bytes.as_slice()) {
        Ok(key) => key,
        Err(_) => {
            return Err(CertificateError::KeyError(KeyFault::SigningKeyMalformed));
        },
    };
    assert(left_padded(key_bytes@, 32) =~= key_bytes@);
    let key = match BlindedKey::from_shape(blinded_verifying_key) {
        Ok(key) => key,
        Err(fault) => {
            return Err(CertificateError::KeyError(fault));
        },
    };
    let client_key = match key.to_bytes() {
        Some(bytes) => bytes,
        None => {
            return Err(CertificateError::Base64Error);
        },
    };
    let signature = match sign_with_nonce(&signing_key, client_key.as_slice(), nonce) {
        Some(text) => text,
        None => {
            return Err(CertificateError::KeyError(KeyFault::SigningFailed));
        },
    };
    let encoded = base64_encode(delegate_certificate);
    proof {
        assert forall|i: int| 0 <= i < encoded@.len() implies #[trigger] encoded@[i] < 0x80 by {
            assert(crate::armor::is_base64_char(encoded@[i]));
        }
        lemma_ascii_is_utf8(encoded@);
        decode_utf8_encode_utf8(encoded@);
    }
    let certificate = match string_from_utf8(encoded) {
        Some(text) => text,
        None => String::new(),
    };
    Ok((signature, DelegateInfo { certificate, amount: tier_for_amount(amount) }))
}

/// Signs for a client with the delegate key of the amount's tier: draws a
/// fresh nonce of 32 bytes and signs with it. Which nonce is drawn is left
/// open; what is returned is what `sign_with_delegate_key_and_nonce` makes
/// of it.
pub fn sign_with_delegate_key(
    blinded_verifying_key: &KeyShape,
    amount: i64,
    delegate_certificate: Option<&[u8]>,
    delegate_signing_key_pem: Option<&str>,
) -> (answer: Result<(String, DelegateInfo), CertificateError>)
    ensures
        exists|nonce: Seq<u8>|
            nonce.len() == 32 && answer_outcome(answer) == #[trigger] gateway_answer(
                *blinded_verifying_key,
                amount as int,
                stored_bytes(delegate_certificate),
                stored_text(delegate_signing_key_pem),
                nonce,
            ),
        answer matches Ok((signature, _)) ==> {
            &&& stored_signing_key(stored_text(delegate_signing_key_pem)) is Some
            &&& client_key_bytes(*blinded_verifying_key) is Some
            &&& is_gateway_output(
                encode_utf8(signature@),
                public_key_of(stored_signing_key(stored_text(delegate_signing_key_pem))->0),
                client_key_bytes(*blinded_verifying_key)->0,
            )
        },
{
    let nonce = random_nonce();
    let answer = sign_with_delegate_key_and_nonce(
        blinded_verifying_key,
        amount,
        delegate_certificate,
        delegate_signing_key_pem,
        nonce.as_slice(),
    );
    proof {
        assert(answer_outcome(answer) == gateway_answer(
            *blinded_verifying_key,
            amount as int,
            stored_bytes(delegate_certificate),
            stored_text(delegate_signing_key_pem),
            nonce@,
        ));
    }
    answer
}

/// The master signing key that an armored text holds, as the scalar in 32
/// bytes that it is read as; a key of 24 to 31 bytes is padded in front.
pub open spec fn master_signing_key(master_key_armor: Seq<u8>) -> Option<Seq<u8>> {
    match armored_bytes(master_key_armor, encode_utf8(MASTER_SIGNING_KEY@)) {
        None => None,
        Some(key_bytes) => if is_signing_key_encoding(key_bytes) {
            Some(left_padded(key_bytes, 32))
        } else {
            None
        },
    }
}

/// What signing for a client with the armored master key and a nonce
/// yields.
pub open spec fn master_answer(shape: KeyShape, master_key_armor: Seq<u8>, nonce: Seq<u8>) -> Result<
    Seq<u8>,
    CryptoError,
> {
    match armored_bytes(master_key_armor, encode_utf8(MASTER_SIGNING_KEY@)) {
        None => Err(CryptoError::ArmorError),
        Some(key_bytes) => if !is_signing_key_encoding(key_bytes) {
            Err(CryptoError::KeyCreationError)
        } else {
            match accepted_key(shape) {
                Err(_) => Err(CryptoError::InvalidInput),
                Ok(key) => match key.bytes() {
                    None => Err(CryptoError::Base64DecodeError),
                    Some(client_key) => match gateway_signature(
                        left_padded(key_bytes, 32),
                        client_key,
                        nonce,
                    ) {
                        None => Err(CryptoError::SignatureError),
                        Some(signed) => Ok(signed),
                    },
                },
            }
        },
    }
}

/// A result that carries a text, by the text's bytes.
pub open spec fn bytes_outcome(outcome: Result<String, CryptoError>) -> Result<
    Seq<u8>,
    CryptoError,
> {
    match outcome {
        Ok(text) => Ok(encode_utf8(text@)),
        Err(e) => Err(e),
    }
}

/// Signs for a client with the armored master signing key, with a given
/// nonce.
pub fn sign_with_key_and_nonce(
    blinded_verifying_key: &KeyShape,
    server_master_signing_key: &str,
    nonce: &[u8],
) -> (signed: Result<String, CryptoError>)
    ensures
        bytes_outcome(signed) == master_answer(
            *blinded_verifying_key,
            encode_utf8(server_master_signing_key@),
            nonce@,
        ),
        signed matches Ok(text) ==> {
            &&& master_signing_key(encode_utf8(server_master_signing_key@)) is Some
            &&& client_key_bytes(*blinded_verifying_key) is Some
            &&& is_signed_output(
                encode_utf8(text@),
                public_key_of(master_signing_key(encode_utf8(server_master_signing_key@))->0),
                client_key_bytes(*blinded_verifying_key)->0,
                nonce@,
            )
            &&& nonce@.len() == 32 ==> is_gateway_output(
                encode_utf8(text@),
                public_key_of(master_signing_key(encode_utf8(server_master_signing_key@))->0),
                client_key_bytes(*blinded_verifying_key)->0,
            )
        },
{
    let key_bytes = match extract_bytes_from_armor(server_master_signing_key, MASTER_SIGNING_KEY) {
        Ok(bytes) => bytes,
        Err(e) => {
            return Err(e);
        },
    };
    let signing_key = match SigningKey::from_slice(key_bytes.as_slice()) {
        Ok(key) => key,
        Err(e) => {
            return Err(e);
        },
    };
    let key = match BlindedKey::from_shape(blinded_verifying_key) {
        Ok(key) => key,
        Err(_) => {
            return Err(CryptoError::InvalidInput);
        },
    };
    let client_key = match key.to_bytes() {
        Some(bytes) => bytes,
        None => {
            return Err(CryptoError::Base64DecodeError);
        },
    };
    match sign_with_nonce(&signing_key, client_key.as_slice(), nonce) {
        Some(text) => Ok(text),
        None => Err(CryptoError::SignatureError),
    }
}

/// Signs for a client with the armored master signing key: draws a fresh
/// nonce of 32 bytes and signs with it.
pub fn sign_with_key(blinded_verifying_key: &KeyShape, server_master_signing_key: &str) -> (signed:
    Result<String, CryptoError>)
    ensures
        exists|nonce: Seq<u8>|
            nonce.len() == 32 && bytes_outcome(signed) == #[trigger] master_answer(
                *blinded_verifying_key,
                encode_utf8(server_master_signing_key@),
                nonce,
            ),
        signed matches Ok(text) ==> {
            &&& master_signing_key(encode_utf8(server_master_signing_key@)) is Some
            &&& client_key_bytes(*blinded_verifying_key) is Some
            &&& is_gateway_output(
                encode_utf8(text@),
                public_key_of(master_signing_key(encode_utf8(server_master_signing_key@))->0),
                client_key_bytes(*blinded_verifying_key)->0,
            )
        },
{
    let nonce = random_nonce();
    let signed = sign_with_key_and_nonce(
        blinded_verifying_key,
        server_master_signing_key,
        nonce.as_slice(),
    );
    proof {
        assert(bytes_outcome(signed) == master_answer(
            *blinded_verifying_key,
            encode_utf8(server_master_signing_key@),
            nonce@,
        ));
    }
    signed
}

} // verus!
