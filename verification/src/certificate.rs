//! The records that are signed and stored, and their canonical encodings.
//!
//! A record is an array of its fields in a fixed order. A signature is made
//! over the encoding of the record without its signature: the delegate
//! certificate with an empty signature in its place, the ghost-key
//! certificate with the field left out.

use vstd::prelude::*;
use vstd::utf8::*;
use crate::canonical::{
    byte_string_encoding, fits, lemma_parse_byte_string_canonical,
    lemma_parse_byte_string_encoding, lemma_parse_text_canonical, lemma_parse_text_encoding,
    lemma_parse_uint8_canonical, lemma_parse_uint8_encoding, max_len, parse_byte_string,
    parse_text, parse_uint8, read_byte_string, read_text, read_uint8, text_encoding,
    uint8_encoding, write_byte_string, write_text, write_uint8,
};
use crate::errors::CryptoError;

verus! {

/// A delegate's verifying key and an attestation, signed by the master key.
#[derive(Debug, PartialEq, Eq)]
pub struct DelegateKeyCertificate {
    pub verifying_key: Vec<u8>,
    pub info: String,
    pub signature: Vec<u8>,
}

/// What a delegate certificate holds.
pub ghost struct DelegateKeyCertificateView {
    pub verifying_key: Seq<u8>,
    pub info: Seq<char>,
    pub signature: Seq<u8>,
}

impl View for DelegateKeyCertificate {
    type V = DelegateKeyCertificateView;

    open spec fn view(&self) -> DelegateKeyCertificateView {
        DelegateKeyCertificateView {
            verifying_key: self.verifying_key@,
            info: self.info@,
            signature: self.signature@,
        }
    }
}

/// A ghost key's verifying key and the delegate certificate it hangs on,
/// signed by the delegate key.
#[derive(Debug, PartialEq, Eq)]
pub struct GhostkeyCertificate {
    pub version: u8,
    pub delegate_certificate: Vec<u8>,
    pub ghostkey_verifying_key: Vec<u8>,
    pub signature: Vec<u8>,
}

/// What a ghost-key certificate holds.
pub ghost struct GhostkeyCertificateView {
    pub version: u8,
    pub delegate_certificate: Seq<u8>,
    pub ghostkey_verifying_key: Seq<u8>,
    pub signature: Seq<u8>,
}

impl View for GhostkeyCertificate {
    type V = GhostkeyCertificateView;

    open spec fn view(&self) -> GhostkeyCertificateView {
        GhostkeyCertificateView {
            version: self.version,
            delegate_certificate: self.delegate_certificate@,
            ghostkey_verifying_key: self.ghostkey_verifying_key@,
            signature: self.signature@,
        }
    }
}

/// The part of a ghost-key certificate that its signature is made over.
#[derive(Debug, PartialEq, Eq)]
pub struct GhostkeySigningData {
    pub version: u8,
    pub delegate_certificate: Vec<u8>,
    pub ghostkey_verifying_key: Vec<u8>,
}

/// What the signed part of a ghost-key certificate holds.
pub ghost struct GhostkeySigningDataView {
    pub version: u8,
    pub delegate_certificate: Seq<u8>,
    pub ghostkey_verifying_key: Seq<u8>,
}

impl View for GhostkeySigningData {
    type V = GhostkeySigningDataView;

    open spec fn view(&self) -> GhostkeySigningDataView {
        GhostkeySigningDataView {
            version: self.version,
            delegate_certificate: self.delegate_certificate@,
            ghostkey_verifying_key: self.ghostkey_verifying_key@,
        }
    }
}

/// A delegate certificate whose fields are short enough to be encoded.
pub open spec fn delegate_certificate_encodable(certificate: DelegateKeyCertificateView) -> bool {
    &&& certificate.verifying_key.len() <= max_len()
    &&& encode_utf8(certificate.info).len() <= max_len()
    &&& certificate.signature.len() <= max_len()
}

/// The canonical encoding of a delegate certificate.
pub open spec fn delegate_certificate_encoding(certificate: DelegateKeyCertificateView) -> Seq<u8> {
    seq![0x93u8] + byte_string_encoding(certificate.verifying_key) + text_encoding(
        certificate.info,
    ) + byte_string_encoding(certificate.signature)
}

/// The bytes that the signature of a delegate certificate is made over: the
/// encoding of the certificate with an empty signature.
pub open spec fn delegate_signing_payload(verifying_key: Seq<u8>, info: Seq<char>) -> Seq<u8> {
    delegate_certificate_encoding(
        DelegateKeyCertificateView { verifying_key, info, signature: Seq::empty() },
    )
}

/// The delegate certificate that the input is the canonical encoding of.
pub open spec fn parse_delegate_certificate(input: Seq<u8>) -> Option<DelegateKeyCertificateView> {
    if input.len() >= 1 && input[0] == 0x93 {
        match parse_byte_string(input.skip(1)) {
            None => None,
            Some((verifying_key, a)) => match parse_text(input.skip((1 + a) as int)) {
                None => None,
                Some((info, b)) => match parse_byte_string(input.skip((1 + a + b) as int)) {
                    None => None,
                    Some((signature, c)) => if 1 + a + b + c == input.len() {
                        Some(DelegateKeyCertificateView { verifying_key, info, signature })
                    } else {
                        None
                    },
                },
            },
        }
    } else {
        None
    }
}

/// A ghost-key certificate whose fields are short enough to be encoded.
pub open spec fn ghostkey_certificate_encodable(certificate: GhostkeyCertificateView) -> bool {
    &&& certificate.delegate_certificate.len() <= max_len()
    &&& certificate.ghostkey_verifying_key.len() <= max_len()
    &&& certificate.signature.len() <= max_len()
}

/// The canonical encoding of a ghost-key certificate.
pub open spec fn ghostkey_certificate_encoding(certificate: GhostkeyCertificateView) -> Seq<u8> {
    seq![0x94u8] + uint8_encoding(certificate.version) + byte_string_encoding(
        certificate.delegate_certificate,
    ) + byte_string_encoding(certificate.ghostkey_verifying_key) + byte_string_encoding(
        certificate.signature,
    )
}

/// The canonical encoding of the signed part of a ghost-key certificate.
pub open spec fn ghostkey_signing_data_encoding(data: GhostkeySigningDataView) -> Seq<u8> {
    seq![0x93u8] + uint8_encoding(data.version) + byte_string_encoding(data.delegate_certificate)
        + byte_string_encoding(data.ghostkey_verifying_key)
}

/// The bytes that the signature of a ghost-key certificate is made over.
pub open spec fn ghostkey_signing_payload(
    version: u8,
    delegate_certificate: Seq<u8>,
    ghostkey_verifying_key: Seq<u8>,
) -> Seq<u8> {
    ghostkey_signing_data_encoding(
        GhostkeySigningDataView { version, delegate_certificate, ghostkey_verifying_key },
    )
}

/// The ghost-key certificate that the input is the canonical encoding of.
pub open spec fn parse_ghostkey_certificate(input: Seq<u8>) -> Option<GhostkeyCertificateView> {
    if input.len() >= 1 && input[0] == 0x94 {
        match parse_uint8(input.skip(1)) {
            None => None,
            Some((version, v)) => match parse_byte_string(input.skip((1 + v) as int)) {
                None => None,
                Some((delegate_certificate, a)) => match parse_byte_string(input.skip((1 + v + a) as int)) {
                    None => None,
                    Some((ghostkey_verifying_key, b)) => match parse_byte_string(
                        input.skip((1 + v + a + b) as int),
                    ) {
                        None => None,
                        Some((signature, c)) => if 1 + v + a + b + c == input.len() {
                            Some(
                                GhostkeyCertificateView {
                                    version,
                                    delegate_certificate,
                                    ghostkey_verifying_key,
                                    signature,
                                },
                            )
                        } else {
                            None
                        },
                    },
                },
            },
        }
    } else {
        None
    }
}

/// Decoding undoes encoding: a delegate certificate is read back from its
/// canonical encoding.
pub proof fn lemma_delegate_certificate_round_trip(certificate: DelegateKeyCertificateView)
    requires
        delegate_certificate_encodable(certificate),
    ensures
        parse_delegate_certificate(delegate_certificate_encoding(certificate)) == Some(certificate),
{
    let key = byte_string_encoding(certificate.verifying_key);
    let info = text_encoding(certificate.info);
    let signature = byte_string_encoding(certificate.signature);
    let input = delegate_certificate_encoding(certificate);
    assert(input.skip(1) =~= key + (info + signature));
    lemma_parse_byte_string_encoding(certificate.verifying_key, info + signature);
    assert(input.skip((1 + key.len()) as int) =~= info + signature);
    lemma_parse_text_encoding(certificate.info, signature);
    assert(input.skip((1 + key.len() + info.len()) as int) =~= signature + Seq::<u8>::empty());
    lemma_parse_byte_string_encoding(certificate.signature, Seq::<u8>::empty());
}

/// Encoding undoes decoding: the only input that a delegate certificate is
/// read from is its canonical encoding.
pub proof fn lemma_delegate_certificate_canonical(input: Seq<u8>)
    requires
        parse_delegate_certificate(input) is Some,
    ensures
        delegate_certificate_encodable(parse_delegate_certificate(input)->0),
        delegate_certificate_encoding(parse_delegate_certificate(input)->0) == input,
{
    let (verifying_key, a) = parse_byte_string(input.skip(1))->0;
    let (info, b) = parse_text(input.skip((1 + a) as int))->0;
    let (signature, c) = parse_byte_string(input.skip((1 + a + b) as int))->0;
    lemma_parse_byte_string_canonical(input.skip(1));
    lemma_parse_text_canonical(input.skip((1 + a) as int));
    lemma_parse_byte_string_canonical(input.skip((1 + a + b) as int));
    let certificate = parse_delegate_certificate(input)->0;
    assert(input =~= seq![0x93u8] + input.skip(1).take(a as int) + input.skip((1 + a) as int).take(
        b as int,
    ) + input.skip((1 + a + b) as int).take(c as int));
}

/// Two delegate certificates with the same encoding are the same.
pub proof fn lemma_delegate_certificate_encoding_injective(
    one: DelegateKeyCertificateView,
    other: DelegateKeyCertificateView,
)
    requires
        delegate_certificate_encodable(one),
        delegate_certificate_encodable(other),
        delegate_certificate_encoding(one) == delegate_certificate_encoding(other),
    ensures
        one == other,
{
    lemma_delegate_certificate_round_trip(one);
    lemma_delegate_certificate_round_trip(other);
}

/// Decoding undoes encoding: a ghost-key certificate is read back from its
/// canonical encoding.
pub proof fn lemma_ghostkey_certificate_round_trip(certificate: GhostkeyCertificateView)
    requires
        ghostkey_certificate_encodable(certificate),
    ensures
        parse_ghostkey_certificate(ghostkey_certificate_encoding(certificate)) == Some(certificate),
{
    let version = uint8_encoding(certificate.version);
    let delegate = byte_string_encoding(certificate.delegate_certificate);
    let key = byte_string_encoding(certificate.ghostkey_verifying_key);
    let signature = byte_string_encoding(certificate.signature);
    let input = ghostkey_certificate_encoding(certificate);
    assert(input.skip(1) =~= version + (delegate + key + signature));
    lemma_parse_uint8_encoding(certificate.version, delegate + key + signature);
    assert(input.skip((1 + version.len()) as int) =~= delegate + (key + signature));
    lemma_parse_byte_string_encoding(certificate.delegate_certificate, key + signature);
    assert(input.skip((1 + version.len() + delegate.len()) as int) =~= key + signature);
    lemma_parse_byte_string_encoding(certificate.ghostkey_verifying_key, signature);
    assert(input.skip((1 + version.len() + delegate.len() + key.len()) as int) =~= signature
        + Seq::<u8>::empty());
    lemma_parse_byte_string_encoding(certificate.signature, Seq::<u8>::empty());
}

/// Encoding undoes decoding: the only input that a ghost-key certificate is
/// read from is its canonical encoding.
pub proof fn lemma_ghostkey_certificate_canonical(input: Seq<u8>)
    requires
        parse_ghostkey_certificate(input) is Some,
    ensures
        ghostkey_certificate_encodable(parse_ghostkey_certificate(input)->0),
        ghostkey_certificate_encoding(parse_ghostkey_certificate(input)->0) == input,
{
    let (version, v) = parse_uint8(input.skip(1))->0;
    let (delegate, a) = parse_byte_string(input.skip((1 + v) as int))->0;
    let (key, b) = parse_byte_string(input.skip((1 + v + a) as int))->0;
    let (signature, c) = parse_byte_string(input.skip((1 + v + a + b) as int))->0;
    lemma_parse_uint8_canonical(input.skip(1));
    lemma_parse_byte_string_canonical(input.skip((1 + v) as int));
    lemma_parse_byte_string_canonical(input.skip((1 + v + a) as int));
    lemma_parse_byte_string_canonical(input.skip((1 + v + a + b) as int));
    assert(input =~= seq![0x94u8] + input.skip(1).take(v as int) + input.skip((1 + v) as int).take(
        a as int,
    ) + input.skip((1 + v + a) as int).take(b as int) + input.skip((1 + v + a + b) as int).take(c as int));
}

/// Two ghost-key certificates with the same encoding are the same.
pub proof fn lemma_ghostkey_certificate_encoding_injective(
    one: GhostkeyCertificateView,
    other: GhostkeyCertificateView,
)
    requires
        ghostkey_certificate_encodable(one),
        ghostkey_certificate_encodable(other),
        ghostkey_certificate_encoding(one) == ghostkey_certificate_encoding(other),
    ensures
        one == other,
{
    lemma_ghostkey_certificate_round_trip(one);
    lemma_ghostkey_certificate_round_trip(other);
}

/// The encoding of a delegate certificate from its fields.
fn encode_delegate_fields(verifying_key: &[u8], info: &str, signature: &[u8]) -> (bytes: Result<
    Vec<u8>,
    CryptoError,
>)
    ensures
        bytes is Ok <==> delegate_certificate_encodable(
            DelegateKeyCertificateView {
                verifying_key: verifying_key@,
                info: info@,
                signature: signature@,
            },
        ),
        bytes matches Ok(b) ==> b@ == delegate_certificate_encoding(
            DelegateKeyCertificateView {
                verifying_key: verifying_key@,
                info: info@,
                signature: signature@,
            },
        ),
        bytes matches Err(e) ==> e == CryptoError::SerializationError,
{
    if !fits(verifying_key.len()) || !fits(info.as_bytes().len()) || !fits(signature.len()) {
        return Err(CryptoError::SerializationError);
    }
    let mut out: Vec<u8> = Vec::new();
    out.push(0x93);
    assert(out@ =~= seq![0x93u8]);
    write_byte_string(&mut out, verifying_key);
    write_text(&mut out, info);
    write_byte_string(&mut out, signature);
    Ok(out)
}

impl DelegateKeyCertificate {
    /// The canonical encoding; it fails where a field is too long to be
    /// encoded.
    pub fn to_bytes(&self) -> (bytes: Result<Vec<u8>, CryptoError>)
        ensures
            bytes is Ok <==> delegate_certificate_encodable(self@),
            bytes matches Ok(b) ==> b@ == delegate_certificate_encoding(self@),
            bytes matches Err(e) ==> e == CryptoError::SerializationError,
    {
        encode_delegate_fields(
            self.verifying_key.as_slice(),
            self.info.as_str(),
            self.signature.as_slice(),
        )
    }

    /// The bytes that the signature is made over: the canonical encoding with
    /// an empty signature.
    pub fn signing_payload(&self) -> (bytes: Result<Vec<u8>, CryptoError>)
        ensures
            bytes is Ok <==> self@.verifying_key.len() <= max_len() && encode_utf8(
                self@.info,
            ).len() <= max_len(),
            bytes matches Ok(b) ==> b@ == delegate_signing_payload(self@.verifying_key, self@.info),
            bytes matches Err(e) ==> e == CryptoError::SerializationError,
    {
        let empty: Vec<u8> = Vec::new();
        encode_delegate_fields(self.verifying_key.as_slice(), self.info.as_str(), empty.as_slice())
    }

    /// Reads a certificate from its canonical encoding, and from nothing
    /// else.
    pub fn from_bytes(bytes: &[u8]) -> (certificate: Result<DelegateKeyCertificate, CryptoError>)
        ensures
            certificate is Ok <==> parse_delegate_certificate(bytes@) is Some,
            certificate matches Ok(c) ==> parse_delegate_certificate(bytes@) == Some(c@)
                && delegate_certificate_encoding(c@) == bytes@,
            certificate matches Err(e) ==> e == CryptoError::DeserializationError,
    {
        if bytes.len() < 1 || bytes[0] != 0x93 {
            return Err(CryptoError::DeserializationError);
        }
        let (verifying_key, at_info) = match read_byte_string(bytes, 1) {
            Some(item) => item,
            None => {
                return Err(CryptoError::DeserializationError);
            },
        };
        let (info, at_signature) = match read_text(bytes, at_info) {
            Some(item) => item,
            None => {
                return Err(CryptoError::DeserializationError);
            },
        };
        let (signature, end) = match read_byte_string(bytes, at_signature) {
            Some(item) => item,
            None => {
                return Err(CryptoError::DeserializationError);
            },
        };
        if end != bytes.len() {
            return Err(CryptoError::DeserializationError);
        }
        proof {
            lemma_delegate_certificate_canonical(bytes@);
        }
        Ok(DelegateKeyCertificate { verifying_key, info, signature })
    }
}

/// The encoding of the signed part of a ghost-key certificate, or of the
/// whole where a signature is given.
fn encode_ghostkey_fields(
    version: u8,
    delegate_certificate: &[u8],
    ghostkey_verifying_key: &[u8],
    signature: Option<&[u8]>,
) -> (bytes: Result<Vec<u8>, CryptoError>)
    ensures
        bytes is Ok <==> delegate_certificate@.len() <= max_len() && ghostkey_verifying_key@.len()
            <= max_len() && (signature matches Some(s) ==> s@.len() <= max_len()),
        bytes matches Ok(b) ==> b@ == match signature {
            Some(s) => ghostkey_certificate_encoding(
                GhostkeyCertificateView {
                    version,
                    delegate_certificate: delegate_certificate@,
                    ghostkey_verifying_key: ghostkey_verifying_key@,
                    signature: s@,
                },
            ),
            None => ghostkey_signing_payload(
                version,
                delegate_certificate@,
                ghostkey_verifying_key@,
            ),
        },
        bytes matches Err(e) ==> e == CryptoError::SerializationError,
{
    if !fits(delegate_certificate.len()) || !fits(ghostkey_verifying_key.len()) {
        return Err(CryptoError::SerializationError);
    }
    let mut out: Vec<u8> = Vec::new();
    match signature {
        Some(s) => {
            if !fits(s.len()) {
                return Err(CryptoError::SerializationError);
            }
            out.push(0x94);
            assert(out@ =~= seq![0x94u8]);
            write_uint8(&mut out, version);
            write_byte_string(&mut out, delegate_certificate);
            write_byte_string(&mut out, ghostkey_verifying_key);
            write_byte_string(&mut out, s);
        },
        None => {
            out.push(0x93);
            assert(out@ =~= seq![0x93u8]);
            write_uint8(&mut out, version);
            write_byte_string(&mut out, delegate_certificate);
            write_byte_string(&mut out, ghostkey_verifying_key);
        },
    }
    Ok(out)
}

impl GhostkeySigningData {
    /// The canonical encoding, which is what gets signed.
    pub fn to_bytes(&self) -> (bytes: Result<Vec<u8>, CryptoError>)
        ensures
            bytes is Ok <==> self@.delegate_certificate.len() <= max_len()
                && self@.ghostkey_verifying_key.len() <= max_len(),
            bytes matches Ok(b) ==> b@ == ghostkey_signing_data_encoding(self@),
            bytes matches Err(e) ==> e == CryptoError::SerializationError,
    {
        encode_ghostkey_fields(
            self.version,
            self.delegate_certificate.as_slice(),
            self.ghostkey_verifying_key.as_slice(),
            None,
        )
    }
}

impl GhostkeyCertificate {
    /// The canonical encoding; it fails where a field is too long to be
    /// encoded.
    pub fn to_bytes(&self) -> (bytes: Result<Vec<u8>, CryptoError>)
        ensures
            bytes is Ok <==> ghostkey_certificate_encodable(self@),
            bytes matches Ok(b) ==> b@ == ghostkey_certificate_encoding(self@),
            bytes matches Err(e) ==> e == CryptoError::SerializationError,
    {
        encode_ghostkey_fields(
            self.version,
            self.delegate_certificate.as_slice(),
            self.ghostkey_verifying_key.as_slice(),
            Some(self.signature.as_slice()),
        )
    }

    /// The bytes that the signature is made over: the canonical encoding of
    /// the certificate without its signature.
    pub fn signing_payload(&self) -> (bytes: Result<Vec<u8>, CryptoError>)
        ensures
            bytes is Ok <==> self@.delegate_certificate.len() <= max_len()
                && self@.ghostkey_verifying_key.len() <= max_len(),
            bytes matches Ok(b) ==> b@ == ghostkey_signing_payload(
                self@.version,
                self@.delegate_certificate,
                self@.ghostkey_verifying_key,
            ),
            bytes matches Err(e) ==> e == CryptoError::SerializationError,
    {
        encode_ghostkey_fields(
            self.version,
            self.delegate_certificate.as_slice(),
            self.ghostkey_verifying_key.as_slice(),
            None,
        )
    }

    /// Reads a certificate from its canonical encoding, and from nothing
    /// else.
    pub fn from_bytes(bytes: &[u8]) -> (certificate: Result<GhostkeyCertificate, CryptoError>)
        ensures
            certificate is Ok <==> parse_ghostkey_certificate(bytes@) is Some,
            certificate matches Ok(c) ==> parse_ghostkey_certificate(bytes@) == Some(c@)
                && ghostkey_certificate_encoding(c@) == bytes@,
            certificate matches Err(e) ==> e == CryptoError::DeserializationError,
    {
        if bytes.len() < 1 || bytes[0] != 0x94 {
            return Err(CryptoError::DeserializationError);
        }
        let (version, at_delegate) = match read_uint8(bytes, 1) {
            Some(item) => item,
            None => {
                return Err(CryptoError::DeserializationError);
            },
        };
        let (delegate_certificate, at_key) = match read_byte_string(bytes, at_delegate) {
            Some(item) => item,
            None => {
                return Err(CryptoError::DeserializationError);
            },
        };
        let (ghostkey_verifying_key, at_signature) = match read_byte_string(bytes, at_key) {
            Some(item) => item,
            None => {
                return Err(CryptoError::DeserializationError);
            },
        };
        let (signature, end) = match read_byte_string(bytes, at_signature) {
            Some(item) => item,
            None => {
                return Err(CryptoError::DeserializationError);
            },
        };
        if end != bytes.len() {
            return Err(CryptoError::DeserializationError);
        }
        proof {
            lemma_ghostkey_certificate_canonical(bytes@);
        }
        Ok(GhostkeyCertificate { version, delegate_certificate, ghostkey_verifying_key, signature })
    }
}

} // verus!
