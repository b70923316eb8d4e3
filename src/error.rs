use vstd::prelude::*;

verus! {

/// Why a quote could not be decoded and verified.
#[derive(Debug, Clone, Copy, PartialEq, Eq, Structural)]
pub enum QuoteParseError {
    /// The byte layout is truncated or malformed.
    Parse,
    /// The quote signature, or the attestation key that should carry it, is invalid.
    Verification,
    /// The certification-data tag is outside 1 to 7.
    UnknownCertificationDataType,
    /// The quote version, or the body type of a version 5 quote, is not recognized.
    UnknownQuoteVersion,
    /// A length field does not fit an unsigned size.
    IntConversionError,
    /// The header declares an attestation key type other than ECDSA P-256.
    UnsupportedAttestationKeyType,
    /// The hash in the QE report does not commit to the attestation key.
    AttestationKeyDoesNotMatch,
}

impl QuoteParseError {
    /// A human readable description of the error.
    pub fn to_string(&self) -> (r: String)
        ensures
            match self {
                QuoteParseError::Parse => r@ == "Cannot parse quote"@,
                QuoteParseError::Verification => r@ == "Signature is invalid"@,
                QuoteParseError::UnknownCertificationDataType => r@ == "Unknown certification data type"@,
                QuoteParseError::UnknownQuoteVersion => r@ == "Unknown quote version"@,
                QuoteParseError::IntConversionError => r@ == "Integer conversion error"@,
                QuoteParseError::UnsupportedAttestationKeyType => r@ == "Unsupported attestion key type"@,
                QuoteParseError::AttestationKeyDoesNotMatch => r@ == "Attestation key does not match hash in QE report"@,
            },
    {
        match self {
            QuoteParseError::Parse => "Cannot parse quote".to_owned(),
            QuoteParseError::Verification => "Signature is invalid".to_owned(),
            QuoteParseError::UnknownCertificationDataType => "Unknown certification data type".to_owned(),
            QuoteParseError::UnknownQuoteVersion => "Unknown quote version".to_owned(),
            QuoteParseError::IntConversionError => "Integer conversion error".to_owned(),
            QuoteParseError::UnsupportedAttestationKeyType => "Unsupported attestion key type".to_owned(),
            QuoteParseError::AttestationKeyDoesNotMatch => "Attestation key does not match hash in QE report".to_owned(),
        }
    }
}

/// Why a quote could not be verified against a platform certification key.
#[derive(Debug, Clone, Copy, PartialEq, Eq, Structural)]
pub enum QuoteVerificationError {
    /// The quote carries no QE report certification data.
    NoQeReportCertificationData,
    /// The QE report signature does not verify under the given key.
    BadSignature,
}

/// Why a verifying key could not be encoded or decoded.
#[derive(Debug, Clone, Copy, PartialEq, Eq, Structural)]
pub enum VerifyingKeyError {
    /// The bytes are not a SEC1 encoded point.
    DecodeEncodedPoint,
    /// The encoded point is not a valid P-256 public key.
    EncodedPointToVerifyingKey,
    /// The compressed point does not have the expected size.
    BadSize,
}

impl VerifyingKeyError {
    /// A human readable description of the error.
    pub fn to_string(&self) -> (r: String)
        ensures
            match self {
                VerifyingKeyError::DecodeEncodedPoint => r@ == "Could not decode to encoded point"@,
                VerifyingKeyError::EncodedPointToVerifyingKey => r@ == "Could not convert encoded point to verifying key"@,
                VerifyingKeyError::BadSize => r@ == "Compressed point has unexpected size"@,
            },
    {
        match self {
            VerifyingKeyError::DecodeEncodedPoint => "Could not decode to encoded point".to_owned(),
            VerifyingKeyError::EncodedPointToVerifyingKey => "Could not convert encoded point to verifying key".to_owned(),
            VerifyingKeyError::BadSize => "Compressed point has unexpected size".to_owned(),
        }
    }
}

} // verus!
