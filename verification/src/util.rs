//! Key pairs, and signatures over the BLAKE3 digest of serialised data.

use vstd::prelude::*;
use crate::errors::CryptoError;
use crate::keys::{
    ecdsa_signature, ecdsa_verifies, is_raw_signature, public_key_of, Signature, SigningKey,
    VerifyingKey,
};

verus! {

/// The BLAKE3 digest of a byte string.
pub uninterp spec fn blake3_digest(data: Seq<u8>) -> Seq<u8>;

/// `blake3::hash`: 32 bytes.
#[verifier::external_body]
fn blake3_hash(data: &[u8]) -> (digest: Vec<u8>)
    ensures
        digest@ == blake3_digest(data@),
        digest@.len() == 32,
{
    blake3::hash(data).as_bytes().to_vec()
}

/// Creates a key pair: a fresh signing key and the verifying key that
/// belongs to it.
pub fn create_keypair() -> (pair: Result<(SigningKey, VerifyingKey), CryptoError>)
    ensures
        pair is Ok,
        pair matches Ok((signing_key, verifying_key)) ==> verifying_key@ == public_key_of(
            signing_key@,
        ),
{
    let signing_key = SigningKey::random();
    let verifying_key = signing_key.verifying_key();
    Ok((signing_key, verifying_key))
}

/// Signs serialised data: the signature is made over the BLAKE3 digest of
/// the bytes, and verifies over them under the signer's verifying key.
pub fn sign(signing_key: &SigningKey, data: &[u8]) -> (signature: Result<Signature, CryptoError>)
    ensures
        signature is Ok <==> ecdsa_signature(signing_key@, blake3_digest(data@)) is Some,
        signature matches Ok(s) ==> ecdsa_signature(signing_key@, blake3_digest(data@)) == Some(s@)
            && is_raw_signature(s@) && ecdsa_verifies(
            public_key_of(signing_key@),
            blake3_digest(data@),
            s@,
        ),
        signature matches Err(e) ==> e == CryptoError::SignatureError,
{
    let digest = blake3_hash(data);
    signing_key.sign(digest.as_slice())
}

/// Whether a signature is one over the BLAKE3 digest of serialised data
/// under a verifying key.
pub fn verify(verifying_key: &VerifyingKey, data: &[u8], signature: &Signature) -> (valid: Result<
    bool,
    CryptoError,
>)
    ensures
        valid == Ok::<bool, CryptoError>(
            ecdsa_verifies(verifying_key@, blake3_digest(data@), signature@),
        ),
{
    let digest = blake3_hash(data);
    Ok(verifying_key.verify(digest.as_slice(), signature))
}

} // verus!
