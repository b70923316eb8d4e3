use crate::body::{
    body_error, body_len, body_matches, body_parser, lemma_fields_encoding_injective, QuoteBody,
    TDXVersion, V4_QUOTE_BODY_LENGTH, V5_QUOTE_BODY_LENGTH,
};
use crate::certification::{
    cert_error, lemma_cert_injective, CertificationData, QeReportCertificationData,
};
use crate::crypto::{p256_verifies, signature_decodes, signature_scalars_in_range, VerifyingKey};
use crate::error::{QuoteParseError, QuoteVerificationError};
use crate::header::{
    header_encoding, header_error, lemma_header_encoding_injective, lemma_header_fields,
    quote_header_parser, AttestionKeyType, QuoteHeader, QUOTE_HEADER_LENGTH,
};
use crate::take::{le_i16, le_i16_at, le_i32, le_i32_at, le_u16_at, rest_of, take64, take_slice};
use vstd::prelude::*;
use vstd::slice::{slice_subrange, slice_to_vec};

verus! {

/// A TDX quote whose signature has been checked.
#[derive(Debug, Clone, PartialEq, Eq)]
pub struct Quote {
    pub header: QuoteHeader,
    pub body: QuoteBody,
    /// The quote signature: `r` then `s`, big-endian
    pub signature: [u8; 64],
    pub attestation_key: VerifyingKey,
    pub certification_data: CertificationData,
}

/// The quote version that `b` declares.
pub open spec fn version_of(b: Seq<u8>) -> u16 {
    le_u16_at(b, 0) as u16
}

/// Where the body of the quote `b` ends.
pub open spec fn body_end(b: Seq<u8>) -> int {
    48 + body_len(rest_of(b, 48), version_of(b))
}

/// The number of bytes at the start of the quote `b` that its signature covers.
pub open spec fn signed_len(b: Seq<u8>) -> int {
    if version_of(b) == 4 {
        632
    } else {
        696
    }
}

/// The bytes that the signature of the quote `b` covers: the header and the body
/// as the version counts them.
pub open spec fn signed_window(b: Seq<u8>) -> Seq<u8> {
    b.subrange(0, signed_len(b))
}

/// The signature of the quote `b`.
pub open spec fn signature_bytes(b: Seq<u8>) -> Seq<u8> {
    b.subrange(body_end(b) + 4, body_end(b) + 68)
}

/// The uncompressed SEC1 encoding of the attestation key of the quote `b`.
pub open spec fn attestation_key_bytes(b: Seq<u8>) -> Seq<u8> {
    seq![4u8] + b.subrange(body_end(b) + 68, body_end(b) + 132)
}

/// The certification-data tag of the quote `b`.
pub open spec fn cert_tag(b: Seq<u8>) -> int {
    le_i16_at(b, body_end(b) + 132)
}

/// The declared length of the certification data of the quote `b`.
pub open spec fn cert_len(b: Seq<u8>) -> int {
    le_i32_at(b, body_end(b) + 134)
}

/// The certification-data payload of the quote `b`.
pub open spec fn cert_payload(b: Seq<u8>) -> Seq<u8> {
    b.subrange(body_end(b) + 138, body_end(b) + 138 + cert_len(b))
}

/// The error, if any, that decoding and verifying the quote `b` meets.
pub open spec fn quote_error(b: Seq<u8>) -> Option<QuoteParseError> {
    if header_error(b) is Some {
        header_error(b)
    } else if le_u16_at(b, 2) != 2 {
        Some(QuoteParseError::UnsupportedAttestationKeyType)
    } else if version_of(b) != 4 && version_of(b) != 5 {
        Some(QuoteParseError::UnknownQuoteVersion)
    } else if body_error(rest_of(b, 48), version_of(b)) is Some {
        body_error(rest_of(b, 48), version_of(b))
    } else if b.len() < body_end(b) + 68 {
        Some(QuoteParseError::Parse)
    } else if !signature_scalars_in_range(signature_bytes(b)) {
        Some(QuoteParseError::Verification)
    } else if b.len() < body_end(b) + 132 {
        Some(QuoteParseError::Parse)
    } else if !p256_verifies(attestation_key_bytes(b), signed_window(b), signature_bytes(b)) {
        Some(QuoteParseError::Verification)
    } else if b.len() < body_end(b) + 138 {
        Some(QuoteParseError::Parse)
    } else if cert_len(b) < 0 {
        Some(QuoteParseError::IntConversionError)
    } else if b.len() < body_end(b) + 138 + cert_len(b) {
        Some(QuoteParseError::Parse)
    } else {
        cert_error(cert_tag(b) as i16, cert_payload(b), attestation_key_bytes(b))
    }
}

/// Whether `q` holds the fields that the quote `b` encodes.
pub open spec fn quote_matches(q: Quote, b: Seq<u8>) -> bool {
    &&& header_encoding(q.header) == b.subrange(0, 48)
    &&& body_matches(q.body, rest_of(b, 48), version_of(b))
    &&& q.signature@ == signature_bytes(b)
    &&& q.attestation_key@ == attestation_key_bytes(b)
    &&& q.certification_data.spec_tag() == cert_tag(b)
    &&& q.certification_data.spec_payload() == cert_payload(b)
    &&& q.certification_data.checked(q.attestation_key@)
}

/// Whether `r` is what decoding and verifying the quote `b` yields.
pub open spec fn decode_outcome(b: Seq<u8>, r: Result<Quote, QuoteParseError>) -> bool {
    match r {
        Ok(q) => quote_error(b) is None && quote_matches(q, b),
        Err(e) => quote_error(b) == Some(e),
    }
}

/// Decoding is a pure function of the input: on the same bytes, any two outcomes that
/// `Quote::from_bytes` may return are the same error, or quotes that hold the same
/// bytes in every field.
pub proof fn lemma_decode_deterministic(
    b: Seq<u8>,
    r1: Result<Quote, QuoteParseError>,
    r2: Result<Quote, QuoteParseError>,
)
    requires
        decode_outcome(b, r1),
        decode_outcome(b, r2),
    ensures
        match (r1, r2) {
            (Ok(q1), Ok(q2)) => q1.same_as(q2),
            (Err(e1), Err(e2)) => e1 == e2,
            _ => false,
        },
{
    if let (Ok(q1), Ok(q2)) = (r1, r2) {
        lemma_quotes_matching_same_bytes(q1, q2, b);
    }
}

/// Version dispatch: a decoded quote of version 4, or of version 5 with body type 2, has
/// a TDX 1.0 body without the optional fields; one of version 5 with body type 3 has a
/// TDX 1.5 body with both. Where the header decodes and declares an ECDSA P-256 key, any
/// other version, or any other body type of version 5, is refused as an unknown version.
pub proof fn lemma_version_dispatch(b: Seq<u8>, r: Result<Quote, QuoteParseError>)
    requires
        decode_outcome(b, r),
    ensures
        r matches Ok(q) ==> {
            &&& q.header.version == 4 || q.header.version == 5
            &&& (q.header.version == 4 || le_u16_at(b, 48) == 2) ==> q.body.tdx_version
                == TDXVersion::One && q.body.tee_tcb_svn_2 is None && q.body.mrservicetd is None
            &&& (q.header.version == 5 && le_u16_at(b, 48) == 3) ==> q.body.tdx_version
                == TDXVersion::OnePointFive && q.body.tee_tcb_svn_2 is Some
                && q.body.mrservicetd is Some
        },
        header_error(b) is None && le_u16_at(b, 2) == 2 && version_of(b) != 4 && version_of(b)
            != 5 ==> r == Err::<Quote, _>(QuoteParseError::UnknownQuoteVersion),
        header_error(b) is None && le_u16_at(b, 2) == 2 && version_of(b) == 5 && b.len() >= 54
            && le_u16_at(b, 48) != 2 && le_u16_at(b, 48) != 3 ==> r == Err::<Quote, _>(
            QuoteParseError::UnknownQuoteVersion,
        ),
{
    if b.len() >= 54 {
        assert(le_u16_at(rest_of(b, 48), 0) == le_u16_at(b, 48));
    }
    if let Ok(q) = r {
        lemma_header_fields(q.header, b);
    }
}

/// Tamper sensitivity: changing one byte of the signed window of a quote that decodes
/// leaves every check but the signature check as it was, so that the changed quote
/// decodes exactly when the signature verifies over the changed window, and fails with
/// `Verification` otherwise. This holds of every byte of the window from offset 8 up
/// to the end of the signature-section length, but the body type of version 5. The
/// version, key type and TEE type are dispatched on before the signature is checked.
/// In a version 5 TDX 1.0 quote the window also reaches into the signature itself,
/// whose change alters the signature that is checked rather than the bytes it covers.
pub proof fn lemma_tamper(b: Seq<u8>, i: int, x: u8)
    requires
        quote_error(b) is None,
        8 <= i < signed_len(b),
        i < body_end(b) + 4,
        !(version_of(b) == 5 && 48 <= i < 50),
    ensures
        p256_verifies(attestation_key_bytes(b), signed_window(b.update(i, x)), signature_bytes(b))
            ==> quote_error(b.update(i, x)) is None,
        !p256_verifies(attestation_key_bytes(b), signed_window(b.update(i, x)), signature_bytes(b))
            ==> quote_error(b.update(i, x)) == Some(QuoteParseError::Verification),
{
    let b2 = b.update(i, x);
    let v = version_of(b);
    assert(b2.len() == b.len());
    assert(b2.subrange(0, 8) =~= b.subrange(0, 8));
    assert(b2[0] == b[0] && b2[1] == b[1] && b2[2] == b[2] && b2[3] == b[3]);
    assert(b2[4] == b[4] && b2[5] == b[5] && b2[6] == b[6] && b2[7] == b[7]);
    assert(version_of(b2) == v);
    assert(header_error(b2) == header_error(b));
    let r = rest_of(b, 48);
    let r2 = rest_of(b2, 48);
    assert(r2.len() == r.len());
    if v == 5 {
        assert(r2[0] == r[0] && r2[1] == r[1]);
        assert(le_u16_at(r2, 0) == le_u16_at(r, 0));
    }
    assert(body_len(r2, v) == body_len(r, v));
    assert(body_error(r2, v) == body_error(r, v));
    assert(body_end(b2) == body_end(b));
    let e = body_end(b);
    assert(signature_bytes(b2) =~= signature_bytes(b));
    assert(attestation_key_bytes(b2) =~= attestation_key_bytes(b));
    assert(b2[e + 132] == b[e + 132] && b2[e + 133] == b[e + 133]);
    assert(cert_tag(b2) == cert_tag(b));
    assert(b2[e + 134] == b[e + 134] && b2[e + 135] == b[e + 135]);
    assert(b2[e + 136] == b[e + 136] && b2[e + 137] == b[e + 137]);
    assert(cert_len(b2) == cert_len(b));
    assert(cert_payload(b2) =~= cert_payload(b));
}

/// Two quotes that hold the fields of the same bytes hold the same bytes in every field.
pub proof fn lemma_quotes_matching_same_bytes(q1: Quote, q2: Quote, b: Seq<u8>)
    requires
        quote_matches(q1, b),
        quote_matches(q2, b),
    ensures
        q1.same_as(q2),
{
    lemma_header_encoding_injective(q1.header, q2.header);
    assert(q1.body.tdx_version == q2.body.tdx_version);
    lemma_fields_encoding_injective(q1.body, q2.body);
    assert(q1.signature =~= q2.signature);
    lemma_cert_injective(q1.certification_data, q2.certification_data);
}

/// The key `0x04 || xy`, `xy` being the raw coordinates of a point.
fn uncompressed_key(xy: &[u8; 64]) -> (r: VerifyingKey)
    ensures
        r@ == seq![4u8] + xy@,
{
    let mut point = [4u8; 65];
    let mut i: usize = 0;
    while i < 64
        invariant
            i <= 64,
            point@.len() == 65,
            point@[0] == 4,
            forall|j: int| 0 <= j < i ==> point@[j + 1] == xy@[j],
        decreases 64 - i,
    {
        point[i + 1] = xy[i];
        i = i + 1;
    }
    assert(point@ =~= seq![4u8] + xy@);
    VerifyingKey::from_uncompressed(point)
}

impl Quote {
    /// Whether `self` and `other` hold the same bytes in every field.
    pub open spec fn same_as(self, other: Quote) -> bool {
        &&& self.header == other.header
        &&& self.body == other.body
        &&& self.signature == other.signature
        &&& self.attestation_key@ == other.attestation_key@
        &&& self.certification_data.same_as(other.certification_data)
    }

    /// Decodes a TDX quote and checks its signature over the header and body.
    ///
    /// Lenient on two length fields, for compatibility with existing quote producers:
    /// the signature-section length and the size in a version 5 body header are read
    /// but not checked against the bytes that follow. Bytes after the declared
    /// certification data are ignored.
    #[verifier::rlimit(100)]
    pub fn from_bytes(original_input: &[u8]) -> (r: Result<Quote, QuoteParseError>)
        ensures
            decode_outcome(original_input@, r),
    {
        let ghost b = original_input@;
        let (input, header) = quote_header_parser(original_input)?;
        proof {
            lemma_header_fields(header, b);
        }
        match header.attestation_key_type {
            AttestionKeyType::ECDSA256WithP256 => {},
            _ => {
                return Err(QuoteParseError::UnsupportedAttestationKeyType);
            },
        }
        let body_length: usize = if header.version == 4 {
            V4_QUOTE_BODY_LENGTH
        } else if header.version == 5 {
            V5_QUOTE_BODY_LENGTH
        } else {
            return Err(QuoteParseError::UnknownQuoteVersion);
        };
        let (input, body) = body_parser(input, header.version)?;
        let ghost e = body_end(b);
        assert(input@ =~= rest_of(b, e));
        let (input, _signature_section_length) = le_i32(input)?;
        assert(input@ =~= rest_of(b, e + 4));
        let (input, signature) = take64(input)?;
        assert(signature@ =~= signature_bytes(b));
        assert(input@ =~= rest_of(b, e + 68));
        if !signature_decodes(&signature) {
            return Err(QuoteParseError::Verification);
        }
        let (input, attestation_key_xy) = take64(input)?;
        assert(input@ =~= rest_of(b, e + 132));
        let attestation_key = uncompressed_key(&attestation_key_xy);
        assert(attestation_key@ =~= attestation_key_bytes(b));
        let signed_data = slice_subrange(original_input, 0, QUOTE_HEADER_LENGTH + body_length);
        if !attestation_key.verify(signed_data, &signature) {
            return Err(QuoteParseError::Verification);
        }
        let (input, certification_data_type) = le_i16(input)?;
        assert(input@ =~= rest_of(b, e + 134));
        let (input, certification_data_len) = le_i32(input)?;
        assert(input@ =~= rest_of(b, e + 138));
        if certification_data_len < 0 {
            return Err(QuoteParseError::IntConversionError);
        }
        let (_input, certification_data) = take_slice(input, certification_data_len as usize)?;
        assert(certification_data@ =~= cert_payload(b));
        let key_bytes = attestation_key.to_sec1_bytes();
        let certification_data = CertificationData::new(
            certification_data_type,
            slice_to_vec(certification_data),
            slice_to_vec(&key_bytes),
        )?;
        Ok(Quote { header, body, signature, attestation_key, certification_data })
    }

    /// Returns the report data.
    pub fn report_input_data(&self) -> (r: [u8; 64])
        ensures
            r == self.body.reportdata,
    {
        self.body.reportdata
    }

    /// Returns the build-time measurement register.
    pub fn mrtd(&self) -> (r: [u8; 48])
        ensures
            r == self.body.mrtd,
    {
        self.body.mrtd
    }

    /// Returns the QE report certification data, if the quote carries it.
    pub fn qe_report_certification_data(&self) -> (r: Option<QeReportCertificationData>)
        ensures
            match self.certification_data {
                CertificationData::QeReportCertificationData(q) => r is Some && r->Some_0.same_as(q),
                _ => r is None,
            },
    {
        match &self.certification_data {
            CertificationData::QeReportCertificationData(q) => Some(q.duplicate()),
            _ => None,
        }
    }

    /// Verifies the QE report with a given platform certification key (PCK).
    pub fn verify_with_pck(&self, pck: VerifyingKey) -> (r: Result<(), QuoteVerificationError>)
        ensures
            match self.certification_data {
                CertificationData::QeReportCertificationData(q) => if p256_verifies(
                    pck@,
                    q.qe_report@,
                    q.signature@,
                ) {
                    r is Ok
                } else {
                    r == Err::<(), _>(QuoteVerificationError::BadSignature)
                },
                _ => r == Err::<(), _>(QuoteVerificationError::NoQeReportCertificationData),
            },
    {
        let qe_report_certification_data = match self.qe_report_certification_data() {
            Some(q) => q,
            None => {
                return Err(QuoteVerificationError::NoQeReportCertificationData);
            },
        };
        if !pck.verify(
            &qe_report_certification_data.qe_report,
            &qe_report_certification_data.signature,
        ) {
            return Err(QuoteVerificationError::BadSignature);
        }
        Ok(())
    }
}

} // verus!
