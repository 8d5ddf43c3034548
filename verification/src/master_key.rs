//! The master key pair: made once, offline. The signing key stays with the
//! operator; the verifying key goes to every verifier.

use vstd::prelude::*;
use vstd::utf8::*;
use crate::armor::{
    armor, armor_text, armored_bytes, base64_text, extract_bytes_from_armor,
    lemma_labels_are_single_lines, MASTER_SIGNING_KEY, MASTER_VERIFYING_KEY,
};
use crate::errors::CryptoError;
use crate::keys::{is_scalar, is_signing_key_encoding, left_padded, public_key_of, SigningKey};

verus! {

/// Armors a master signing key and the verifying key that belongs to it.
/// Both are read back from their texts.
pub fn armor_master_key(signing_key: &SigningKey) -> (pair: (String, String))
    ensures
        encode_utf8(pair.0@) == armor_text(
            base64_text(signing_key@),
            encode_utf8(MASTER_SIGNING_KEY@),
        ),
        encode_utf8(pair.1@) == armor_text(
            base64_text(public_key_of(signing_key@)),
            encode_utf8(MASTER_VERIFYING_KEY@),
        ),
        armored_bytes(encode_utf8(pair.0@), encode_utf8(MASTER_SIGNING_KEY@)) == Some(
            signing_key@,
        ),
        armored_bytes(encode_utf8(pair.1@), encode_utf8(MASTER_VERIFYING_KEY@)) == Some(
            public_key_of(signing_key@),
        ),
{
    proof {
        lemma_labels_are_single_lines();
    }
    let verifying_key = signing_key.verifying_key();
    let private = armor(signing_key.as_bytes(), MASTER_SIGNING_KEY);
    let public = armor(verifying_key.as_bytes(), MASTER_VERIFYING_KEY);
    (private, public)
}

/// Whether two armored texts are a master key pair: a signing key, and the
/// verifying key that belongs to it.
pub open spec fn is_master_key_pair(private: Seq<u8>, public: Seq<u8>) -> bool {
    match armored_bytes(private, encode_utf8(MASTER_SIGNING_KEY@)) {
        None => false,
        Some(signing_key) => is_scalar(signing_key) && armored_bytes(
            public,
            encode_utf8(MASTER_VERIFYING_KEY@),
        ) == Some(public_key_of(signing_key)),
    }
}

/// Generates a master key pair and returns the armored signing key and the
/// armored verifying key. Which key is drawn is left open; the verifying
/// key that is returned is the one that belongs to the signing key.
pub fn generate_master_key() -> (pair: Result<(String, String), CryptoError>)
    ensures
        pair is Ok,
        pair matches Ok((private, public)) ==> is_master_key_pair(
            encode_utf8(private@),
            encode_utf8(public@),
        ),
{
    let signing_key = SigningKey::random();
    let pair = armor_master_key(&signing_key);
    Ok(pair)
}

/// What deriving the armored verifying key from an armored master signing
/// key yields.
pub open spec fn master_verifying_key_armor(signing_key_armor: Seq<u8>) -> Result<
    Seq<u8>,
    CryptoError,
> {
    match armored_bytes(signing_key_armor, encode_utf8(MASTER_SIGNING_KEY@)) {
        None => Err(CryptoError::ArmorError),
        Some(key) => if !is_signing_key_encoding(key) {
            Err(CryptoError::KeyCreationError)
        } else {
            Ok(
                armor_text(
                    base64_text(public_key_of(left_padded(key, 32))),
                    encode_utf8(MASTER_VERIFYING_KEY@),
                ),
            )
        },
    }
}

/// Derives the armored master verifying key from the armored master
/// signing key.
pub fn generate_master_verifying_key(master_signing_key_pem: &str) -> (public: Result<
    String,
    CryptoError,
>)
    ensures
        match public {
            Ok(text) => master_verifying_key_armor(encode_utf8(master_signing_key_pem@)) == Ok::<
                Seq<u8>,
                CryptoError,
            >(encode_utf8(text@)),
            Err(e) => master_verifying_key_armor(encode_utf8(master_signing_key_pem@)) == Err::<
                Seq<u8>,
                CryptoError,
            >(e),
        },
{
    let key_bytes = match extract_bytes_from_armor(master_signing_key_pem, MASTER_SIGNING_KEY) {
        Ok(bytes) => bytes,
        Err(e) => {
            return Err(e);
        },
    };
    let signing_key = match SigningKey::from_slice(key_bytes.as_slice()) {
        Ok(key) => key,
        Err(e) => {
            return Err(e);
        },
    };
    let verifying_key = signing_key.verifying_key();
    Ok(armor(verifying_key.as_bytes(), MASTER_VERIFYING_KEY))
}

} // verus!
