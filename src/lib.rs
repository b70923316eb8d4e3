//! Decoding and verification of TDX attestation quotes.
//!
//! A quote is decoded from its wire format into typed records, its ECDSA P-256
//! signature over the header and body is checked against the attestation key it
//! carries, and, for QE report certification data, the hash that binds that key to
//! the QE report is checked. `Quote::verify_with_pck` then checks the QE report
//! against a platform certification key that the caller trusts.
pub mod body;
pub mod certification;
pub mod crypto;
pub mod error;
pub mod header;
pub mod mock;
pub mod quote;
pub mod take;

pub use body::{quote_body_v4_serializer, QuoteBody, TDXVersion};
pub use certification::{CertificationData, QeReportCertificationData};
pub use crypto::{decode_verifying_key, encode_verifying_key, VerifyingKey};
pub use error::{QuoteParseError, QuoteVerificationError, VerifyingKeyError};
pub use header::{quote_header_serializer, AttestionKeyType, QuoteHeader, TEEType};
pub use mock::certification_data_serializer;
pub use quote::Quote;
pub use take::{take16, take2, take20, take384, take4, take48, take64, take8};
