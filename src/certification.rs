use crate::crypto::{sha256, sha256_digest, signature_decodes, signature_scalars_in_range};
use crate::error::QuoteParseError;
use crate::take::{
    le_i16, le_i16_at, le_u16_at, lemma_le_u16_at_bytes, lemma_u16_le_bytes_at,
    lemma_u16_le_bytes_value, rest_of, take384, take64, take_slice, u16_le_bytes,
};
use vstd::prelude::*;
use vstd::slice::slice_to_vec;

verus! {

/// Where, inside the QE report, the hash that commits to the attestation key starts.
/// The 32 bytes that follow it are expected to be zero; they are not checked.
pub const QE_REPORT_HASH_OFFSET: usize = 320;

/// Certification data which contains a signature from the PCK.
#[derive(Debug, Clone, PartialEq, Eq)]
pub struct QeReportCertificationData {
    /// Holds SHA-256(attestation key || QE authentication data), then 32 zero bytes, at its end
    pub qe_report: [u8; 384],
    /// Signature of the qe_report field made using the PCK
    pub signature: [u8; 64],
    /// Authentication data used by the quoting enclave to provide additional context
    pub qe_authentication_data: Vec<u8>,
    /// Data required to verify the QE report signature
    pub certification_data: Vec<u8>,
}

/// The part of a QE report that holds the hash committing to the attestation key.
pub open spec fn report_hash_window(report: Seq<u8>) -> Seq<u8> {
    report.subrange(320, 352)
}

/// The bytes that encode `q`.
pub open spec fn qe_encoding(q: QeReportCertificationData) -> Seq<u8> {
    q.qe_report@ + q.signature@ + u16_le_bytes(q.qe_authentication_data@.len() as u16)
        + q.qe_authentication_data@ + q.certification_data@
}

/// Whether the hash inside the QE report of `q` commits to the attestation key `key`.
pub open spec fn hash_binds(q: QeReportCertificationData, key: Seq<u8>) -> bool {
    sha256(key + q.qe_authentication_data@) == report_hash_window(q.qe_report@)
}

/// The error, if any, that decoding QE report certification data from `p` meets,
/// `key` being the attestation key.
pub open spec fn qe_error(p: Seq<u8>, key: Seq<u8>) -> Option<QuoteParseError> {
    if p.len() < 448 {
        Some(QuoteParseError::Parse)
    } else if !signature_scalars_in_range(p.subrange(384, 448)) {
        Some(QuoteParseError::Verification)
    } else if p.len() < 450 {
        Some(QuoteParseError::Parse)
    } else if le_i16_at(p, 448) < 0 {
        Some(QuoteParseError::IntConversionError)
    } else if p.len() < 450 + le_i16_at(p, 448) {
        Some(QuoteParseError::Parse)
    } else if sha256(key + p.subrange(450, 450 + le_i16_at(p, 448))) != report_hash_window(p) {
        Some(QuoteParseError::AttestationKeyDoesNotMatch)
    } else {
        None
    }
}

/// The concatenation of `a` and `b`.
fn concat(a: &[u8], b: &[u8]) -> (r: Vec<u8>)
    ensures
        r@ == a@ + b@,
{
    let mut r = slice_to_vec(a);
    let mut i: usize = 0;
    while i < b.len()
        invariant
            i <= b@.len(),
            r@ == a@ + b@.subrange(0, i as int),
        decreases b@.len() - i,
    {
        r.push(b[i]);
        i = i + 1;
        assert(r@ =~= a@ + b@.subrange(0, i as int));
    }
    assert(b@.subrange(0, b@.len() as int) =~= b@);
    r
}

impl QeReportCertificationData {
    /// Whether `self` and `other` hold the same bytes in every field.
    pub open spec fn same_as(self, other: QeReportCertificationData) -> bool {
        &&& self.qe_report == other.qe_report
        &&& self.signature == other.signature
        &&& self.qe_authentication_data@ == other.qe_authentication_data@
        &&& self.certification_data@ == other.certification_data@
    }

    /// A copy of `self`.
    pub fn duplicate(&self) -> (r: QeReportCertificationData)
        ensures
            r.same_as(*self),
    {
        QeReportCertificationData {
            qe_report: self.qe_report,
            signature: self.signature,
            qe_authentication_data: slice_to_vec(self.qe_authentication_data.as_slice()),
            certification_data: slice_to_vec(self.certification_data.as_slice()),
        }
    }

    /// Decodes QE report certification data, checking that the hash in the QE report
    /// commits to the attestation key `attestation_key`.
    pub fn new(input: Vec<u8>, attestation_key: Vec<u8>) -> (r: Result<Self, QuoteParseError>)
        ensures
            match r {
                Ok(q) => qe_error(input@, attestation_key@) is None && qe_encoding(q) == input@
                    && q.qe_authentication_data@.len() < 0x8000 && signature_scalars_in_range(
                    q.signature@,
                ) && hash_binds(q, attestation_key@),
                Err(e) => qe_error(input@, attestation_key@) == Some(e),
            },
    {
        let ghost p = input@;
        let (rest, qe_report) = take384(input.as_slice())?;
        assert(report_hash_window(qe_report@) =~= report_hash_window(p));
        let (rest, signature) = match take64(rest) {
            Ok(x) => x,
            Err(e) => {
                return Err(e);
            },
        };
        assert(signature@ =~= p.subrange(384, 448));
        assert(rest@ =~= rest_of(p, 448));
        if !signature_decodes(&signature) {
            return Err(QuoteParseError::Verification);
        }
        let (rest, qe_authentication_data_size) = match le_i16(rest) {
            Ok(x) => x,
            Err(e) => {
                return Err(e);
            },
        };
        assert(qe_authentication_data_size == le_i16_at(p, 448));
        assert(rest@ =~= rest_of(p, 450));
        if qe_authentication_data_size < 0 {
            return Err(QuoteParseError::IntConversionError);
        }
        let (certification_data, qe_authentication_data) = take_slice(
            rest,
            qe_authentication_data_size as usize,
        )?;
        assert(qe_authentication_data@ =~= p.subrange(450, 450 + qe_authentication_data_size));
        let message = concat(attestation_key.as_slice(), qe_authentication_data);
        let hash = sha256_digest(message.as_slice());
        assert(hash@ == sha256(attestation_key@ + p.subrange(450, 450 + le_i16_at(p, 448))));
        assert(qe_error(p, attestation_key@) == if hash@ == report_hash_window(p) {
            None
        } else {
            Some(QuoteParseError::AttestationKeyDoesNotMatch)
        });
        let mut i: usize = 0;
        while i < 32
            invariant
                p == input@,
                qe_error(p, attestation_key@) == if hash@ == report_hash_window(p) {
                    None
                } else {
                    Some(QuoteParseError::AttestationKeyDoesNotMatch)
                },
                i <= 32,
                qe_report@.len() == 384,
                hash@.len() == 32,
                report_hash_window(qe_report@) == report_hash_window(p),
                forall|j: int| 0 <= j < i ==> hash@[j] == qe_report@[320 + j],
            decreases 32 - i,
        {
            if hash[i] != qe_report[QE_REPORT_HASH_OFFSET + i] {
                assert(hash@[i as int] != report_hash_window(p)[i as int]);
                assert(hash@ != report_hash_window(p));
                return Err(QuoteParseError::AttestationKeyDoesNotMatch);
            }
            i = i + 1;
        }
        assert(hash@ =~= report_hash_window(qe_report@));
        let q = QeReportCertificationData {
            qe_report,
            signature,
            qe_authentication_data: slice_to_vec(qe_authentication_data),
            certification_data: slice_to_vec(certification_data),
        };
        proof {
            lemma_u16_le_bytes_at(p, 448);
        }
        assert(qe_encoding(q) =~= input@);
        Ok(q)
    }
}

/// Data related to certifying the QE report.
#[non_exhaustive]
#[derive(Debug, Clone, PartialEq, Eq)]
pub enum CertificationData {
    PckIdPpidPlainCpusvnPcesvn(Vec<u8>),
    PckIdPpidRSA2048CpusvnPcesvn(Vec<u8>),
    PckIdPpidRSA3072CpusvnPcesvn(Vec<u8>),
    PckLeafCert(Vec<u8>),
    PckCertChain(Vec<u8>),
    QeReportCertificationData(QeReportCertificationData),
    PlatformManifest(Vec<u8>),
}

impl CertificationData {
    /// The tag that stands for this variant on the wire.
    pub open spec fn spec_tag(self) -> i16 {
        match self {
            CertificationData::PckIdPpidPlainCpusvnPcesvn(_) => 1,
            CertificationData::PckIdPpidRSA2048CpusvnPcesvn(_) => 2,
            CertificationData::PckIdPpidRSA3072CpusvnPcesvn(_) => 3,
            CertificationData::PckLeafCert(_) => 4,
            CertificationData::PckCertChain(_) => 5,
            CertificationData::QeReportCertificationData(_) => 6,
            CertificationData::PlatformManifest(_) => 7,
        }
    }

    /// The payload bytes that encode this value.
    pub open spec fn spec_payload(self) -> Seq<u8> {
        match self {
            CertificationData::PckIdPpidPlainCpusvnPcesvn(v) => v@,
            CertificationData::PckIdPpidRSA2048CpusvnPcesvn(v) => v@,
            CertificationData::PckIdPpidRSA3072CpusvnPcesvn(v) => v@,
            CertificationData::PckLeafCert(v) => v@,
            CertificationData::PckCertChain(v) => v@,
            CertificationData::QeReportCertificationData(q) => qe_encoding(q),
            CertificationData::PlatformManifest(v) => v@,
        }
    }

    /// The length of QE authentication data fits the two bytes that encode it.
    pub open spec fn wf(self) -> bool {
        self matches CertificationData::QeReportCertificationData(q)
            ==> q.qe_authentication_data@.len() < 0x8000
    }

    /// Whether `self` and `other` are the same variant holding the same bytes.
    pub open spec fn same_as(self, other: CertificationData) -> bool {
        match (self, other) {
            (
                CertificationData::PckIdPpidPlainCpusvnPcesvn(a),
                CertificationData::PckIdPpidPlainCpusvnPcesvn(b),
            ) => a@ == b@,
            (
                CertificationData::PckIdPpidRSA2048CpusvnPcesvn(a),
                CertificationData::PckIdPpidRSA2048CpusvnPcesvn(b),
            ) => a@ == b@,
            (
                CertificationData::PckIdPpidRSA3072CpusvnPcesvn(a),
                CertificationData::PckIdPpidRSA3072CpusvnPcesvn(b),
            ) => a@ == b@,
            (CertificationData::PckLeafCert(a), CertificationData::PckLeafCert(b)) => a@ == b@,
            (CertificationData::PckCertChain(a), CertificationData::PckCertChain(b)) => a@ == b@,
            (
                CertificationData::QeReportCertificationData(a),
                CertificationData::QeReportCertificationData(b),
            ) => a.same_as(b),
            (CertificationData::PlatformManifest(a), CertificationData::PlatformManifest(b)) => a@
                == b@,
            _ => false,
        }
    }

    /// What decoding guarantees of a value whose attestation key is `key`: for QE report
    /// certification data, a well-formed signature and a hash that commits to the key.
    pub open spec fn checked(self, key: Seq<u8>) -> bool {
        match self {
            CertificationData::QeReportCertificationData(q) => {
                &&& q.qe_authentication_data@.len() < 0x8000
                &&& signature_scalars_in_range(q.signature@)
                &&& hash_binds(q, key)
            },
            _ => true,
        }
    }

    /// The tag that stands for this variant on the wire.
    pub fn tag(&self) -> (r: i16)
        ensures
            r == self.spec_tag(),
    {
        match self {
            CertificationData::PckIdPpidPlainCpusvnPcesvn(_) => 1,
            CertificationData::PckIdPpidRSA2048CpusvnPcesvn(_) => 2,
            CertificationData::PckIdPpidRSA3072CpusvnPcesvn(_) => 3,
            CertificationData::PckLeafCert(_) => 4,
            CertificationData::PckCertChain(_) => 5,
            CertificationData::QeReportCertificationData(_) => 6,
            CertificationData::PlatformManifest(_) => 7,
        }
    }

    /// Decodes certification data of type `certification_data_type` from `data`,
    /// `attestation_key` being the key that the quote was signed with.
    pub fn new(certification_data_type: i16, data: Vec<u8>, attestation_key: Vec<u8>) -> (r: Result<
        Self,
        QuoteParseError,
    >)
        ensures
            cert_outcome(certification_data_type, data@, attestation_key@, r),
    {
        match certification_data_type {
            1 => Ok(Self::PckIdPpidPlainCpusvnPcesvn(data)),
            2 => Ok(Self::PckIdPpidRSA2048CpusvnPcesvn(data)),
            3 => Ok(Self::PckIdPpidRSA3072CpusvnPcesvn(data)),
            4 => Ok(Self::PckLeafCert(data)),
            5 => Ok(Self::PckCertChain(data)),
            6 => Ok(
                Self::QeReportCertificationData(QeReportCertificationData::new(data, attestation_key)?),
            ),
            7 => Ok(Self::PlatformManifest(data)),
            _ => Err(QuoteParseError::UnknownCertificationDataType),
        }
    }
}

/// Two QE report certification data values with the same encoding hold the same bytes.
pub proof fn lemma_qe_encoding_injective(q1: QeReportCertificationData, q2: QeReportCertificationData)
    requires
        q1.qe_authentication_data@.len() < 0x8000,
        q2.qe_authentication_data@.len() < 0x8000,
        qe_encoding(q1) == qe_encoding(q2),
    ensures
        q1.same_as(q2),
{
    let e = qe_encoding(q1);
    let n1 = q1.qe_authentication_data@.len() as int;
    let n2 = q2.qe_authentication_data@.len() as int;
    lemma_u16_le_bytes_value(n1 as u16);
    lemma_u16_le_bytes_value(n2 as u16);
    assert(u16_le_bytes(n1 as u16) =~= e.subrange(448, 450));
    assert(u16_le_bytes(n2 as u16) =~= e.subrange(448, 450));
    assert(n1 == le_u16_at(e.subrange(448, 450), 0));
    assert(n1 == n2);
    assert(q1.qe_report@ =~= e.subrange(0, 384) && q2.qe_report@ =~= e.subrange(0, 384));
    assert(q1.signature@ =~= e.subrange(384, 448) && q2.signature@ =~= e.subrange(384, 448));
    assert(q1.qe_report =~= q2.qe_report);
    assert(q1.signature =~= q2.signature);
    assert(q1.qe_authentication_data@ =~= e.subrange(450, 450 + n1));
    assert(q2.qe_authentication_data@ =~= e.subrange(450, 450 + n1));
    assert(q1.certification_data@ =~= e.subrange(450 + n1, e.len() as int));
    assert(q2.certification_data@ =~= e.subrange(450 + n1, e.len() as int));
}

/// The encoding of QE report certification data that passes the checks of decoding,
/// decodes without error.
pub proof fn lemma_qe_round_trip(q: QeReportCertificationData, key: Seq<u8>)
    requires
        q.qe_authentication_data@.len() < 0x8000,
        signature_scalars_in_range(q.signature@),
        hash_binds(q, key),
    ensures
        qe_error(qe_encoding(q), key) is None,
{
    let p = qe_encoding(q);
    let n = q.qe_authentication_data@.len() as int;
    assert(p.subrange(384, 448) =~= q.signature@);
    assert(p.subrange(448, 450) =~= u16_le_bytes(n as u16));
    lemma_le_u16_at_bytes(p, 448, n as u16);
    assert(p.subrange(450, 450 + n) =~= q.qe_authentication_data@);
    assert(report_hash_window(p) =~= report_hash_window(q.qe_report@));
}

/// Two well-formed certification data values with the same tag and payload hold the
/// same bytes.
pub proof fn lemma_cert_injective(c1: CertificationData, c2: CertificationData)
    requires
        c1.wf(),
        c2.wf(),
        c1.spec_tag() == c2.spec_tag(),
        c1.spec_payload() == c2.spec_payload(),
    ensures
        c1.same_as(c2),
{
    if let (
        CertificationData::QeReportCertificationData(q1),
        CertificationData::QeReportCertificationData(q2),
    ) = (c1, c2) {
        lemma_qe_encoding_injective(q1, q2);
    }
}

/// Whether `r` is what decoding certification data tagged `tag` from `data` yields,
/// `key` being the attestation key.
pub open spec fn cert_outcome(
    tag: i16,
    data: Seq<u8>,
    key: Seq<u8>,
    r: Result<CertificationData, QuoteParseError>,
) -> bool {
    match r {
        Ok(c) => cert_error(tag, data, key) is None && c.spec_tag() == tag && c.spec_payload()
            == data && c.checked(key),
        Err(e) => cert_error(tag, data, key) == Some(e),
    }
}

/// Tag dispatch: certification data tagged 1 to 7 decodes to the variant of that tag,
/// the tags other than 6 holding the payload as it is and never failing; any other tag
/// is refused as an unknown certification-data type.
pub proof fn lemma_tag_dispatch(
    tag: i16,
    data: Seq<u8>,
    key: Seq<u8>,
    r: Result<CertificationData, QuoteParseError>,
)
    requires
        cert_outcome(tag, data, key, r),
    ensures
        r matches Ok(c) ==> c.spec_tag() == tag,
        1 <= tag <= 7 && tag != 6 ==> (r matches Ok(c) && c.spec_tag() == tag && c.spec_payload()
            == data),
        tag == 6 ==> (r is Ok <==> qe_error(data, key) is None),
        tag < 1 || tag > 7 ==> r == Err::<CertificationData, _>(
            QuoteParseError::UnknownCertificationDataType,
        ),
{
}

/// `p` with the `n` bytes at offset `at` replaced by `new`.
pub open spec fn splice(p: Seq<u8>, at: int, n: int, new: Seq<u8>) -> Seq<u8> {
    p.subrange(0, at) + new + p.subrange(at + n, p.len() as int)
}

/// Hash binding: in QE report certification data that decodes, authentication data
/// changed to bytes that hash otherwise, with the hash in the report left as it was,
/// makes decoding fail with `AttestationKeyDoesNotMatch`; writing the hash of the new
/// data into the report makes it decode again.
pub proof fn lemma_hash_binding(p: Seq<u8>, key: Seq<u8>, auth: Seq<u8>, hash: Seq<u8>)
    requires
        qe_error(p, key) is None,
        auth.len() == le_i16_at(p, 448),
        sha256(key + auth) != sha256(key + p.subrange(450, 450 + le_i16_at(p, 448))),
        hash == sha256(key + auth),
        hash.len() == 32,
    ensures
        qe_error(splice(p, 450, auth.len() as int, auth), key) == Some(
            QuoteParseError::AttestationKeyDoesNotMatch,
        ),
        qe_error(splice(splice(p, 450, auth.len() as int, auth), 320, 32, hash), key) is None,
{
    let n = auth.len() as int;
    let p2 = splice(p, 450, n, auth);
    let p3 = splice(p2, 320, 32, hash);
    assert(p2.subrange(384, 448) =~= p.subrange(384, 448));
    assert(p2[448] == p[448] && p2[449] == p[449]);
    assert(p2.subrange(450, 450 + n) =~= auth);
    assert(report_hash_window(p2) =~= report_hash_window(p));
    assert(p3.subrange(384, 448) =~= p.subrange(384, 448));
    assert(p3[448] == p[448] && p3[449] == p[449]);
    assert(p3.subrange(450, 450 + n) =~= auth);
    assert(report_hash_window(p3) =~= hash);
}

/// The error, if any, that decoding certification data tagged `tag` from `data` meets,
/// `key` being the attestation key.
pub open spec fn cert_error(tag: i16, data: Seq<u8>, key: Seq<u8>) -> Option<QuoteParseError> {
    if tag < 1 || tag > 7 {
        Some(QuoteParseError::UnknownCertificationDataType)
    } else if tag == 6 {
        qe_error(data, key)
    } else {
        None
    }
}

} // verus!
