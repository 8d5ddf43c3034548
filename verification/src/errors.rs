//! The closed set of failures that certificate operations report.

use vstd::prelude::*;

verus! {

/// Why an artifact was rejected or an operation could not be carried out.
#[derive(Clone, Copy, Debug, PartialEq, Eq, Structural)]
pub enum CryptoError {
    /// The armor envelope is malformed, or carries another label than the expected one.
    ArmorError,
    /// Text that should be base64 is not.
    Base64DecodeError,
    /// A record has a field too long for the canonical encoding.
    SerializationError,
    /// The bytes are not the canonical encoding of a record of the expected kind.
    DeserializationError,
    /// Key bytes do not denote a key.
    KeyCreationError,
    /// Signature bytes decode under neither accepted encoding, or no signature could be made.
    SignatureError,
    /// The signature is well formed, but does not verify.
    SignatureVerificationError,
    /// The input has none of the accepted shapes.
    InvalidInput,
}

/// The stage of ghost-key validation at which a certificate was rejected.
#[derive(Clone, Copy, Debug, PartialEq, Eq, Structural)]
pub enum ValidationStage {
    /// The ghost-key certificate itself could not be read.
    Envelope,
    /// The embedded delegate certificate does not verify under the master key.
    DelegateChain,
    /// The outer signature does not verify under the delegate key.
    GhostSignature,
}

/// A rejected ghost-key certificate: where validation stopped, and why.
#[derive(Clone, Copy, Debug, PartialEq, Eq, Structural)]
pub struct ValidationError {
    pub stage: ValidationStage,
    pub cause: CryptoError,
}

/// What a user is told about a rejected ghost-key certificate.
pub open spec fn validation_message(cause: CryptoError) -> Seq<char> {
    match cause {
        CryptoError::ArmorError =>
            "Failed to decode the provided ghost key certificate. Please ensure it's properly formatted."@,
        CryptoError::DeserializationError =>
            "The ghost key certificate is not in the expected format. It may be corrupted or invalid."@,
        CryptoError::KeyCreationError =>
            "There was an issue with the master verifying key. Please ensure it's correct and try again."@,
        CryptoError::SignatureVerificationError =>
            "The ghost key certificate signature is invalid. This could indicate tampering or an incorrect master key."@,
        _ =>
            "An unexpected error occurred during ghost key validation. Please try again or contact support if the issue persists."@,
    }
}

impl ValidationError {
    /// The message for the user: it goes by what was found wrong.
    pub fn message(&self) -> (text: String)
        ensures
            text@ == validation_message(self.cause),
    {
        match self.cause {
            CryptoError::ArmorError =>
                "Failed to decode the provided ghost key certificate. Please ensure it's properly formatted.".to_owned(),
            CryptoError::DeserializationError =>
                "The ghost key certificate is not in the expected format. It may be corrupted or invalid.".to_owned(),
            CryptoError::KeyCreationError =>
                "There was an issue with the master verifying key. Please ensure it's correct and try again.".to_owned(),
            CryptoError::SignatureVerificationError =>
                "The ghost key certificate signature is invalid. This could indicate tampering or an incorrect master key.".to_owned(),
            _ =>
                "An unexpected error occurred during ghost key validation. Please try again or contact support if the issue persists.".to_owned(),
        }
    }
}

} // verus!
