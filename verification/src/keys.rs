//! ECDSA keys and signatures over NIST P-256, held as byte strings.
//!
//! The curve arithmetic is the `p256` crate's. This module says what its
//! functions are taken to return, keeps keys and signatures behind types
//! whose bytes are known to be well formed, and offers signing and
//! verification on them.

use vstd::prelude::*;
use crate::errors::CryptoError;

verus! {

/// The number that a byte string denotes when read as a big-endian integer.
pub open spec fn be_value(bytes: Seq<u8>) -> nat
    decreases bytes.len(),
{
    if bytes.len() == 0 {
        0
    } else {
        be_value(bytes.drop_last()) * 256 + bytes.last() as nat
    }
}

/// The order of the P-256 group.
pub open spec fn p256_order() -> nat {
    0xffffffff00000000ffffffffffffffffbce6faada7179e84f3b9cac2fc632551nat
}

/// A scalar in its fixed-width form: 32 bytes, big-endian, in `1..n`.
pub open spec fn is_scalar(bytes: Seq<u8>) -> bool {
    bytes.len() == 32 && 0 < be_value(bytes) < p256_order()
}

/// The byte strings that are read as a signing key: a scalar in `1..n`,
/// written in 24 to 32 bytes.
pub open spec fn is_signing_key_encoding(bytes: Seq<u8>) -> bool {
    24 <= bytes.len() <= 32 && 0 < be_value(bytes) < p256_order()
}

/// `bytes` with zero bytes in front, `width` bytes in all.
pub open spec fn left_padded(bytes: Seq<u8>, width: nat) -> Seq<u8> {
    Seq::new((width - bytes.len()) as nat, |i: int| 0u8) + bytes
}

/// A signature in its fixed-width form: `r` and `s`, each a scalar in `1..n`.
pub open spec fn is_raw_signature(bytes: Seq<u8>) -> bool {
    bytes.len() == 64 && is_scalar(bytes.subrange(0, 32)) && is_scalar(bytes.subrange(32, 64))
}

/// Whether `p256::ecdsa::VerifyingKey::from_sec1_bytes` takes the bytes for a public key.
pub uninterp spec fn is_sec1_public_key(bytes: Seq<u8>) -> bool;

/// The uncompressed SEC1 encoding of the public key that belongs to a signing key.
pub uninterp spec fn public_key_of(signing_key: Seq<u8>) -> Seq<u8>;

/// The deterministic ECDSA signature of a message under a signing key, in
/// fixed-width form, or `None` where the signer gives up.
pub uninterp spec fn ecdsa_signature(signing_key: Seq<u8>, message: Seq<u8>) -> Option<Seq<u8>>;

/// Whether a fixed-width signature verifies for a message under a public key.
pub uninterp spec fn ecdsa_verifies(
    verifying_key: Seq<u8>,
    message: Seq<u8>,
    signature: Seq<u8>,
) -> bool;

/// The fixed-width signature that an ASN.1 DER encoding denotes, if it denotes one.
pub uninterp spec fn der_signature(der: Seq<u8>) -> Option<Seq<u8>>;

/// The ASN.1 DER encoding of a fixed-width signature.
pub uninterp spec fn der_encoding(signature: Seq<u8>) -> Seq<u8>;

/// What a stored signature denotes: its DER reading where it has one, else
/// its fixed-width reading.
pub open spec fn stored_signature(bytes: Seq<u8>) -> Option<Seq<u8>> {
    match der_signature(bytes) {
        Some(signature) => Some(signature),
        None => if is_raw_signature(bytes) {
            Some(bytes)
        } else {
            None
        },
    }
}

/// `p256::ecdsa::SigningKey::from_slice`, then `to_bytes`: the key is accepted
/// when it is 24 to 32 bytes long and denotes a scalar in `1..n`; what comes
/// back is that scalar in 32 bytes.
#[verifier::external_body]
fn p256_signing_key_from_slice(bytes: &[u8]) -> (key: Option<Vec<u8>>)
    ensures
        key is Some <==> is_signing_key_encoding(bytes@),
        key matches Some(k) ==> k@ == left_padded(bytes@, 32),
{
    match p256::ecdsa::SigningKey::from_slice(bytes) {
        Ok(key) => Some(key.to_bytes().to_vec()),
        Err(_) => None,
    }
}

/// `p256::ecdsa::SigningKey::random` on the operating system's generator,
/// then `to_bytes`. Which key comes back is left open; it is a scalar in
/// `1..n`. It does not return where the operating system has no random
/// source.
#[verifier::external_body]
fn p256_random_signing_key() -> (key: Vec<u8>)
    ensures
        is_scalar(key@),
{
    p256::ecdsa::SigningKey::random(&mut rand_core::OsRng).to_bytes().to_vec()
}

/// `p256::ecdsa::VerifyingKey::from` a signing key, written with
/// `to_encoded_point(false)`: 65 bytes that `from_sec1_bytes` reads back.
#[verifier::external_body]
fn p256_public_key(signing_key: &[u8]) -> (key: Vec<u8>)
    requires
        is_scalar(signing_key@),
    ensures
        key@ == public_key_of(signing_key@),
        key@.len() == 65,
        is_sec1_public_key(key@),
{
    let signing_key = p256::ecdsa::SigningKey::from_slice(signing_key).expect("a scalar");
    p256::ecdsa::VerifyingKey::from(&signing_key).to_encoded_point(false).as_bytes().to_vec()
}

/// Whether `p256::ecdsa::VerifyingKey::from_sec1_bytes` returns a key.
#[verifier::external_body]
fn p256_is_public_key(bytes: &[u8]) -> (valid: bool)
    ensures
        valid == is_sec1_public_key(bytes@),
{
    p256::ecdsa::VerifyingKey::from_sec1_bytes(bytes).is_ok()
}

/// `try_sign` of `p256::ecdsa::SigningKey`, which signs the SHA-256 digest of
/// the message with the nonce of RFC 6979, then `to_vec`. A signature that
/// comes back is in fixed-width form and verifies under the signer's public
/// key.
#[verifier::external_body]
fn p256_sign(signing_key: &[u8], message: &[u8]) -> (signature: Option<Vec<u8>>)
    requires
        is_scalar(signing_key@),
    ensures
        signature is Some <==> ecdsa_signature(signing_key@, message@) is Some,
        signature matches Some(s) ==> ecdsa_signature(signing_key@, message@) == Some(s@),
        signature matches Some(s) ==> is_raw_signature(s@),
        signature matches Some(s) ==> ecdsa_verifies(public_key_of(signing_key@), message@, s@),
{
    let signing_key = p256::ecdsa::SigningKey::from_slice(signing_key).expect("a scalar");
    let signed: Result<p256::ecdsa::Signature, _> =
        p256::ecdsa::signature::Signer::try_sign(&signing_key, message);
    match signed {
        Ok(signature) => Some(signature.to_vec()),
        Err(_) => None,
    }
}

/// `verify` of `p256::ecdsa::VerifyingKey` on a fixed-width signature.
#[verifier::external_body]
fn p256_verify(verifying_key: &[u8], message: &[u8], signature: &[u8]) -> (verifies: bool)
    requires
        is_sec1_public_key(verifying_key@),
        is_raw_signature(signature@),
    ensures
        verifies == ecdsa_verifies(verifying_key@, message@, signature@),
{
    let verifying_key = p256::ecdsa::VerifyingKey::from_sec1_bytes(verifying_key).expect("a key");
    let signature = p256::ecdsa::Signature::from_slice(signature).expect("a signature");
    p256::ecdsa::signature::Verifier::verify(&verifying_key, message, &signature).is_ok()
}

/// `p256::ecdsa::Signature::from_slice`, then `to_vec`: 64 bytes are accepted
/// when `r` and `s` are both in `1..n`, and come back unchanged.
#[verifier::external_body]
fn p256_signature_from_slice(bytes: &[u8]) -> (signature: Option<Vec<u8>>)
    ensures
        signature is Some <==> is_raw_signature(bytes@),
        signature matches Some(s) ==> s@ == bytes@,
{
    match p256::ecdsa::Signature::from_slice(bytes) {
        Ok(signature) => Some(signature.to_vec()),
        Err(_) => None,
    }
}

/// `p256::ecdsa::Signature::from_der`, then `to_vec`. What is accepted has
/// passed the range check of the fixed-width form.
#[verifier::external_body]
fn p256_signature_from_der(bytes: &[u8]) -> (signature: Option<Vec<u8>>)
    ensures
        signature is Some <==> der_signature(bytes@) is Some,
        signature matches Some(s) ==> der_signature(bytes@) == Some(s@),
        signature matches Some(s) ==> is_raw_signature(s@),
{
    match p256::ecdsa::Signature::from_der(bytes) {
        Ok(signature) => Some(signature.to_vec()),
        Err(_) => None,
    }
}

/// `to_der` of `p256::ecdsa::Signature`: an encoding of at most 73 bytes
/// that `from_der` reads back as the same signature.
#[verifier::external_body]
fn p256_signature_to_der(signature: &[u8]) -> (der: Vec<u8>)
    requires
        is_raw_signature(signature@),
    ensures
        der@ == der_encoding(signature@),
        der@.len() <= 73,
        der_signature(der@) == Some(signature@),
{
    let signature = p256::ecdsa::Signature::from_slice(signature).expect("a signature");
    signature.to_der().as_bytes().to_vec()
}

/// Zero bytes in front of a byte string leave the number it denotes unchanged.
pub proof fn lemma_left_padded_value(bytes: Seq<u8>, width: nat)
    requires
        bytes.len() <= width,
    ensures
        be_value(left_padded(bytes, width)) == be_value(bytes),
        left_padded(bytes, width).len() == width,
    decreases bytes.len(), width,
{
    let padded = left_padded(bytes, width);
    if bytes.len() == 0 {
        if width > 0 {
            let shorter = left_padded(bytes, (width - 1) as nat);
            lemma_left_padded_value(bytes, (width - 1) as nat);
            assert(padded.drop_last() =~= shorter);
        }
    } else {
        lemma_left_padded_value(bytes.drop_last(), (width - 1) as nat);
        assert(padded.drop_last() =~= left_padded(bytes.drop_last(), (width - 1) as nat));
    }
}

/// A private scalar that signs, with the public key that belongs to it.
pub struct SigningKey {
    bytes: Vec<u8>,
    public: Vec<u8>,
}

/// A public point that verifies, in SEC1 encoding.
#[derive(Debug, PartialEq, Eq)]
pub struct VerifyingKey {
    bytes: Vec<u8>,
}

/// An ECDSA signature, in fixed-width form.
#[derive(Debug, PartialEq, Eq)]
pub struct Signature {
    bytes: Vec<u8>,
}

impl View for SigningKey {
    type V = Seq<u8>;

    closed spec fn view(&self) -> Seq<u8> {
        self.bytes@
    }
}

impl View for VerifyingKey {
    type V = Seq<u8>;

    closed spec fn view(&self) -> Seq<u8> {
        self.bytes@
    }
}

impl View for Signature {
    type V = Seq<u8>;

    closed spec fn view(&self) -> Seq<u8> {
        self.bytes@
    }
}

impl SigningKey {
    #[verifier::type_invariant]
    spec fn well_formed(self) -> bool {
        &&& is_scalar(self.bytes@)
        &&& self.public@ == public_key_of(self.bytes@)
        &&& self.public@.len() == 65
        &&& is_sec1_public_key(self.public@)
    }

    /// Reads a signing key from its bytes; short keys are padded in front.
    pub fn from_slice(bytes: &[u8]) -> (key: Result<SigningKey, CryptoError>)
        ensures
            key is Ok <==> is_signing_key_encoding(bytes@),
            key matches Ok(k) ==> k@ == left_padded(bytes@, 32) && is_scalar(k@),
            key matches Err(e) ==> e == CryptoError::KeyCreationError,
    {
        match p256_signing_key_from_slice(bytes) {
            Some(scalar) => {
                proof {
                    lemma_left_padded_value(bytes@, 32);
                }
                let public = p256_public_key(scalar.as_slice());
                Ok(SigningKey { bytes: scalar, public })
            },
            None => Err(CryptoError::KeyCreationError),
        }
    }

    /// Draws a fresh signing key from the operating system's random source.
    pub fn random() -> (key: SigningKey)
        ensures
            is_scalar(key@),
    {
        let scalar = p256_random_signing_key();
        let public = p256_public_key(scalar.as_slice());
        SigningKey { bytes: scalar, public }
    }

    /// The scalar, in 32 bytes, in place.
    pub fn as_bytes(&self) -> (bytes: &[u8])
        ensures
            bytes@ == self@,
            is_scalar(self@),
            is_sec1_public_key(public_key_of(self@)),
    {
        proof {
            use_type_invariant(self);
        }
        self.bytes.as_slice()
    }

    /// The scalar, in 32 bytes.
    pub fn to_bytes(&self) -> (bytes: Vec<u8>)
        ensures
            bytes@ == self@,
            is_scalar(self@),
            is_sec1_public_key(public_key_of(self@)),
    {
        proof {
            use_type_invariant(self);
        }
        vstd::slice::slice_to_vec(self.bytes.as_slice())
    }

    /// The public key that verifies what this key signs.
    pub fn verifying_key(&self) -> (key: VerifyingKey)
        ensures
            key@ == public_key_of(self@),
            key@.len() == 65,
            is_sec1_public_key(key@),
    {
        proof {
            use_type_invariant(self);
        }
        VerifyingKey { bytes: vstd::slice::slice_to_vec(self.public.as_slice()) }
    }

    /// Signs a message. Signing is deterministic: the same key and message
    /// give the same signature.
    pub fn sign(&self, message: &[u8]) -> (signature: Result<Signature, CryptoError>)
        ensures
            signature is Ok <==> ecdsa_signature(self@, message@) is Some,
            signature matches Ok(s) ==> ecdsa_signature(self@, message@) == Some(s@)
                && is_raw_signature(s@)
                && ecdsa_verifies(public_key_of(self@), message@, s@),
            signature matches Err(e) ==> e == CryptoError::SignatureError,
    {
        proof {
            use_type_invariant(self);
        }
        match p256_sign(self.bytes.as_slice(), message) {
            Some(raw) => Ok(Signature { bytes: raw }),
            None => Err(CryptoError::SignatureError),
        }
    }
}

impl VerifyingKey {
    #[verifier::type_invariant]
    spec fn well_formed(self) -> bool {
        is_sec1_public_key(self.bytes@)
    }

    /// Reads a public key from its SEC1 encoding.
    pub fn from_sec1_bytes(bytes: &[u8]) -> (key: Result<VerifyingKey, CryptoError>)
        ensures
            key is Ok <==> is_sec1_public_key(bytes@),
            key matches Ok(k) ==> k@ == bytes@,
            key matches Err(e) ==> e == CryptoError::KeyCreationError,
    {
        if p256_is_public_key(bytes) {
            Ok(VerifyingKey { bytes: vstd::slice::slice_to_vec(bytes) })
        } else {
            Err(CryptoError::KeyCreationError)
        }
    }

    /// The encoding that the key was read from or made in, in place.
    pub fn as_bytes(&self) -> (bytes: &[u8])
        ensures
            bytes@ == self@,
            is_sec1_public_key(self@),
    {
        proof {
            use_type_invariant(self);
        }
        self.bytes.as_slice()
    }

    /// The encoding that the key was read from or made in.
    pub fn to_sec1_bytes(&self) -> (bytes: Vec<u8>)
        ensures
            bytes@ == self@,
            is_sec1_public_key(self@),
    {
        proof {
            use_type_invariant(self);
        }
        vstd::slice::slice_to_vec(self.bytes.as_slice())
    }

    /// Whether the signature is one of the message under this key.
    pub fn verify(&self, message: &[u8], signature: &Signature) -> (verifies: bool)
        ensures
            verifies == ecdsa_verifies(self@, message@, signature@),
    {
        proof {
            use_type_invariant(self);
            use_type_invariant(signature);
        }
        p256_verify(self.bytes.as_slice(), message, signature.bytes.as_slice())
    }
}

impl Signature {
    #[verifier::type_invariant]
    spec fn well_formed(self) -> bool {
        is_raw_signature(self.bytes@)
    }

    /// Reads a signature from its fixed-width form.
    pub fn from_slice(bytes: &[u8]) -> (signature: Result<Signature, CryptoError>)
        ensures
            signature is Ok <==> is_raw_signature(bytes@),
            signature matches Ok(s) ==> s@ == bytes@,
            signature matches Err(e) ==> e == CryptoError::SignatureError,
    {
        match p256_signature_from_slice(bytes) {
            Some(raw) => Ok(Signature { bytes: raw }),
            None => Err(CryptoError::SignatureError),
        }
    }

    /// Reads a signature from its ASN.1 DER encoding.
    pub fn from_der(bytes: &[u8]) -> (signature: Result<Signature, CryptoError>)
        ensures
            signature is Ok <==> der_signature(bytes@) is Some,
            signature matches Ok(s) ==> der_signature(bytes@) == Some(s@),
            signature matches Err(e) ==> e == CryptoError::SignatureError,
    {
        match p256_signature_from_der(bytes) {
            Some(raw) => Ok(Signature { bytes: raw }),
            None => Err(CryptoError::SignatureError),
        }
    }

    /// Reads a stored signature: as DER first, and only where that fails in
    /// fixed-width form.
    pub fn from_stored(bytes: &[u8]) -> (signature: Result<Signature, CryptoError>)
        ensures
            signature is Ok <==> stored_signature(bytes@) is Some,
            signature matches Ok(s) ==> stored_signature(bytes@) == Some(s@),
            signature matches Err(e) ==> e == CryptoError::SignatureError,
    {
        match Signature::from_der(bytes) {
            Ok(signature) => Ok(signature),
            Err(_) => Signature::from_slice(bytes),
        }
    }

    /// The fixed-width form: `r`, then `s`, 32 bytes each.
    pub fn to_vec(&self) -> (bytes: Vec<u8>)
        ensures
            bytes@ == self@,
            is_raw_signature(self@),
    {
        proof {
            use_type_invariant(self);
        }
        vstd::slice::slice_to_vec(self.bytes.as_slice())
    }

    /// The ASN.1 DER encoding, which `from_der` reads back.
    pub fn to_der(&self) -> (der: Vec<u8>)
        ensures
            der@ == der_encoding(self@),
            der@.len() <= 73,
            is_raw_signature(self@),
            der_signature(der@) == Some(self@),
            stored_signature(der@) == Some(self@),
    {
        proof {
            use_type_invariant(self);
        }
        p256_signature_to_der(self.bytes.as_slice())
    }
}

impl<'a> From<&'a SigningKey> for VerifyingKey {
    /// The public key that verifies what the signing key signs.
    fn from(signing_key: &'a SigningKey) -> (key: VerifyingKey)
        ensures
            key@ == public_key_of(signing_key@),
    {
        signing_key.verifying_key()
    }
}

impl<'a> vstd::std_specs::convert::FromSpecImpl<&'a SigningKey> for VerifyingKey {
    /// The conversion is described by the view of its result, not by a
    /// value: two keys with the same bytes are the same key.
    open spec fn obeys_from_spec() -> bool {
        false
    }

    open spec fn from_spec(signing_key: &'a SigningKey) -> VerifyingKey {
        arbitrary()
    }
}

} // verus!
