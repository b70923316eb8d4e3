use crate::body::{
    body_error, body_len, body_matches, fields_encoding, fixed_encoding, quote_body_v4_serializer,
    QuoteBody, TDXVersion,
};
use crate::certification::{
    lemma_qe_round_trip, qe_encoding, report_hash_window, CertificationData,
    QeReportCertificationData, QE_REPORT_HASH_OFFSET,
};
use crate::crypto::{p256_public_of, p256_signature, public_key_p256, 
    p256_verifies, sha256, sha256_digest, sign_p256, signature_scalars_in_range, VerifyingKey,
};
use crate::header::{
    header_encoding, header_error, lemma_header_fields, put_bytes, quote_header_serializer,
    u16_to_le, u32_to_le, AttestionKeyType, QuoteHeader, TEEType,
};
use crate::error::QuoteParseError;
use crate::quote::{
    attestation_key_bytes, body_end, cert_len, cert_payload, cert_tag, decode_outcome,
    lemma_quotes_matching_same_bytes, quote_error, quote_matches, signature_bytes, signed_window,
    version_of, Quote,
};
use crate::take::{
    le_u16_at, lemma_le_u16_at_bytes, lemma_le_u32_at_bytes, rest_of, u16_le_bytes, u32_le_bytes,
};
use vstd::prelude::*;

verus! {

/// `n` zero bytes.
pub open spec fn zeros(n: nat) -> Seq<u8> {
    Seq::new(n, |i: int| 0u8)
}

/// The bytes that a mock quote carrying `reportdata` signs: a version 4 TDX header
/// for an ECDSA P-256 key and a body, both zero but for `reportdata`.
pub open spec fn mock_message(reportdata: Seq<u8>) -> Seq<u8> {
    u16_le_bytes(4) + u16_le_bytes(2) + u32_le_bytes(0x81) + zeros(40) + zeros(520) + reportdata
}

/// The QE report of a mock quote whose attestation key is `key`: zero but for the
/// hash of the key.
pub open spec fn mock_report(key: Seq<u8>) -> Seq<u8> {
    zeros(320) + sha256(key) + zeros(32)
}

/// Whether every byte of `s` is zero.
pub open spec fn all_zero(s: Seq<u8>) -> bool {
    forall|i: int| 0 <= i < s.len() ==> s[i] == 0
}

/// The bytes that encode the body `b` in a quote of version `version`: the bare
/// record for version 4, a body type and size in front of all fields otherwise.
pub open spec fn body_encoding(b: QuoteBody, version: u16) -> Seq<u8> {
    if version == 4 {
        fixed_encoding(b)
    } else {
        u16_le_bytes(b.tdx_version.spec_raw()) + u32_le_bytes(fields_encoding(b).len() as u32)
            + fields_encoding(b)
    }
}

/// The bytes that encode the quote `q`.
pub open spec fn quote_encoding(q: Quote) -> Seq<u8> {
    header_encoding(q.header) + body_encoding(q.body, q.header.version) + tail_encoding(q)
}

/// The bytes that follow the body in the encoding of `q`: the signature-section
/// length, the signature, the raw attestation key, and the tagged certification data.
pub open spec fn tail_encoding(q: Quote) -> Seq<u8> {
    let payload = q.certification_data.spec_payload();
    u32_le_bytes((134 + payload.len()) as u32) + q.signature@ + q.attestation_key@.subrange(1, 65)
        + u16_le_bytes(q.certification_data.spec_tag() as u16) + u32_le_bytes(payload.len() as u32)
        + payload
}

/// Whether the lengths in `c` fit the fields that encode them.
pub open spec fn encodable(c: CertificationData) -> bool {
    &&& c.spec_payload().len() + 134 < 0x8000_0000
    &&& c matches CertificationData::QeReportCertificationData(q)
        ==> q.qe_authentication_data@.len() < 0x8000
}

/// What a compliant generator produces: a version 4 or 5 quote with an ECDSA P-256
/// attestation key, a body that fits its version, lengths that fit their fields, a
/// signature that verifies over the signed part of its encoding, and certification
/// data that passes the checks of decoding.
pub open spec fn compliant(q: Quote) -> bool {
    &&& q.header.attestation_key_type == AttestionKeyType::ECDSA256WithP256
    &&& q.header.version == 4 || q.header.version == 5
    &&& q.body.wf()
    &&& q.header.version == 4 ==> q.body.tdx_version == TDXVersion::One
    &&& encodable(q.certification_data)
    &&& q.attestation_key@[0] == 4
    &&& signature_scalars_in_range(q.signature@)
    &&& p256_verifies(q.attestation_key@, signed_window(quote_encoding(q)), q.signature@)
    &&& q.certification_data.checked(q.attestation_key@)
}

/// Round trip: decoding the encoding of a compliant quote succeeds, and every outcome
/// that `Quote::from_bytes` may return on it is a quote holding the same bytes in every
/// field as the one encoded.
pub proof fn lemma_round_trip(q: Quote)
    requires
        compliant(q),
    ensures
        quote_error(quote_encoding(q)) is None,
        forall|r: Result<Quote, QuoteParseError>|
            decode_outcome(quote_encoding(q), r) ==> (r matches Ok(q2) && q2.same_as(q)),
{
    lemma_encoding_matches(q);
    assert forall|r: Result<Quote, QuoteParseError>|
        decode_outcome(quote_encoding(q), r) implies (r matches Ok(q2) && q2.same_as(q)) by {
        if let Ok(q2) = r {
            lemma_quotes_matching_same_bytes(q2, q, quote_encoding(q));
        }
    }
}

/// The encoding of a quote starts with the encoding of its header, then of its body.
proof fn lemma_encoding_prefix(q: Quote)
    ensures
        quote_encoding(q).subrange(0, 48) == header_encoding(q.header),
        rest_of(quote_encoding(q), 48).subrange(0, body_encoding(q.body, q.header.version).len() as int)
            == body_encoding(q.body, q.header.version),
        quote_encoding(q).len() == 48 + body_encoding(q.body, q.header.version).len() + 138
            + q.certification_data.spec_payload().len(),
{
    let b = quote_encoding(q);
    let hd = header_encoding(q.header);
    let bd = body_encoding(q.body, q.header.version);
    q.attestation_key.lemma_len();
    assert(hd.len() == 48);
    assert(b.subrange(0, 48) =~= hd);
    assert(rest_of(b, 48).subrange(0, bd.len() as int) =~= bd);
}

/// Where the parts of the encoding of a compliant quote lie.
proof fn lemma_encoding_layout(q: Quote)
    requires
        compliant(q),
    ensures
        header_encoding(q.header) == quote_encoding(q).subrange(0, 48),
        header_error(quote_encoding(q)) is None,
        le_u16_at(quote_encoding(q), 2) == 2,
        version_of(quote_encoding(q)) == q.header.version,
        body_error(rest_of(quote_encoding(q), 48), q.header.version) is None,
        body_matches(q.body, rest_of(quote_encoding(q), 48), q.header.version),
        body_end(quote_encoding(q)) == 48 + body_encoding(q.body, q.header.version).len(),
        quote_encoding(q).len() == body_end(quote_encoding(q)) + 138
            + q.certification_data.spec_payload().len(),
{
    let b = quote_encoding(q);
    let v = q.header.version;
    let bd = body_encoding(q.body, v);
    lemma_encoding_prefix(q);
    lemma_header_fields(q.header, b);
    lemma_body_prefix(q.body, v, rest_of(b, 48));
}

/// A body encoding at the start of `r` decodes to that body.
proof fn lemma_body_prefix(body: QuoteBody, v: u16, r: Seq<u8>)
    requires
        v == 4 || v == 5,
        body.wf(),
        v == 4 ==> body.tdx_version == TDXVersion::One,
        r.len() >= body_encoding(body, v).len(),
        r.subrange(0, body_encoding(body, v).len() as int) == body_encoding(body, v),
    ensures
        body_error(r, v) is None,
        body_matches(body, r, v),
        body_len(r, v) == body_encoding(body, v).len(),
{
    let bd = body_encoding(body, v);
    if v == 5 {
        assert(r.subrange(0, 2) =~= u16_le_bytes(body.tdx_version.spec_raw()));
        lemma_le_u16_at_bytes(r, 0, body.tdx_version.spec_raw());
        assert(bd.subrange(6, bd.len() as int) =~= fields_encoding(body));
        assert(r.subrange(6, bd.len() as int) =~= bd.subrange(6, bd.len() as int));
    } else {
        assert(r.subrange(0, 584) =~= fields_encoding(body));
    }
}

/// Where the fields that follow the body lie in the encoding of a compliant quote.
proof fn lemma_encoding_tail(q: Quote)
    requires
        compliant(q),
        body_end(quote_encoding(q)) == 48 + body_encoding(q.body, q.header.version).len(),
    ensures
        signature_bytes(quote_encoding(q)) == q.signature@,
        attestation_key_bytes(quote_encoding(q)) == q.attestation_key@,
        cert_tag(quote_encoding(q)) == q.certification_data.spec_tag(),
        cert_len(quote_encoding(q)) == q.certification_data.spec_payload().len(),
        cert_payload(quote_encoding(q)) == q.certification_data.spec_payload(),
{
    let b = quote_encoding(q);
    let t = tail_encoding(q);
    let payload = q.certification_data.spec_payload();
    q.attestation_key.lemma_len();
    let e = body_end(b);
    assert(b.subrange(e, b.len() as int) =~= t);
    assert(t.subrange(4, 68) =~= q.signature@);
    assert(signature_bytes(b) =~= t.subrange(4, 68));
    assert(seq![4u8] + t.subrange(68, 132) =~= q.attestation_key@);
    assert(attestation_key_bytes(b) =~= seq![4u8] + t.subrange(68, 132));
    assert(t.subrange(132, 134) =~= u16_le_bytes(q.certification_data.spec_tag() as u16));
    lemma_le_u16_at_bytes(t, 132, q.certification_data.spec_tag() as u16);
    assert(t.subrange(134, 138) =~= u32_le_bytes(payload.len() as u32));
    lemma_le_u32_at_bytes(t, 134, payload.len() as u32);
    assert(b[e + 132] == t[132] && b[e + 133] == t[133]);
    assert(b[e + 134] == t[134] && b[e + 135] == t[135]);
    assert(b[e + 136] == t[136] && b[e + 137] == t[137]);
    assert(t.subrange(138, t.len() as int) =~= payload);
    assert(cert_payload(b) =~= t.subrange(138, t.len() as int));
}

/// The encoding of a compliant quote decodes without error to its own fields.
proof fn lemma_encoding_matches(q: Quote)
    requires
        compliant(q),
    ensures
        quote_error(quote_encoding(q)) is None,
        quote_matches(q, quote_encoding(q)),
{
    lemma_encoding_layout(q);
    lemma_encoding_tail(q);
    if let CertificationData::QeReportCertificationData(qe) = q.certification_data {
        lemma_qe_round_trip(qe, q.attestation_key@);
    }
}

/// Appends `bytes` to `out`.
fn append(out: &mut Vec<u8>, bytes: &[u8])
    ensures
        final(out)@ == old(out)@ + bytes@,
{
    let mut i: usize = 0;
    while i < bytes.len()
        invariant
            i <= bytes@.len(),
            out@ == old(out)@ + bytes@.subrange(0, i as int),
        decreases bytes@.len() - i,
    {
        out.push(bytes[i]);
        i = i + 1;
        assert(out@ =~= old(out)@ + bytes@.subrange(0, i as int));
    }
    assert(bytes@.subrange(0, bytes@.len() as int) =~= bytes@);
}

/// Serializes the payload of certification data.
pub fn certification_data_serializer(input: &CertificationData) -> (r: Vec<u8>)
    requires
        input matches CertificationData::QeReportCertificationData(q)
            ==> q.qe_authentication_data@.len() < 0x8000,
    ensures
        r@ == input.spec_payload(),
{
    let mut out: Vec<u8> = Vec::new();
    match input {
        CertificationData::PckIdPpidPlainCpusvnPcesvn(v) => append(&mut out, v.as_slice()),
        CertificationData::PckIdPpidRSA2048CpusvnPcesvn(v) => append(&mut out, v.as_slice()),
        CertificationData::PckIdPpidRSA3072CpusvnPcesvn(v) => append(&mut out, v.as_slice()),
        CertificationData::PckLeafCert(v) => append(&mut out, v.as_slice()),
        CertificationData::PckCertChain(v) => append(&mut out, v.as_slice()),
        CertificationData::QeReportCertificationData(q) => {
            append(&mut out, &q.qe_report);
            append(&mut out, &q.signature);
            let auth_len = q.qe_authentication_data.len() as u16;
            append(&mut out, &u16_to_le(auth_len));
            append(&mut out, q.qe_authentication_data.as_slice());
            append(&mut out, q.certification_data.as_slice());
            assert(out@ =~= qe_encoding(*q));
        },
        CertificationData::PlatformManifest(v) => append(&mut out, v.as_slice()),
    }
    assert(out@ =~= input.spec_payload());
    out
}

/// Serializes a quote body as a quote of version `version` holds it.
fn quote_body_serializer(input: &QuoteBody, version: u16) -> (r: Vec<u8>)
    ensures
        r@ == body_encoding(*input, version),
{
    let mut out: Vec<u8> = Vec::new();
    if version != 4 {
        append(&mut out, &u16_to_le(input.tdx_version.raw()));
        let size: u32 = match (input.tee_tcb_svn_2, input.mrservicetd) {
            (Some(_), Some(_)) => 648,
            _ => 584,
        };
        assert(size == fields_encoding(*input).len());
        append(&mut out, &u32_to_le(size));
    }
    append(&mut out, &quote_body_v4_serializer(input));
    if version != 4 {
        match (input.tee_tcb_svn_2, input.mrservicetd) {
            (Some(svn), Some(td)) => {
                append(&mut out, &svn);
                append(&mut out, &td);
            },
            _ => {},
        }
    }
    assert(out@ =~= body_encoding(*input, version));
    out
}

impl Quote {
    /// Serializes the quote in the wire format that `from_bytes` reads.
    pub fn as_bytes(&self) -> (r: Vec<u8>)
        requires
            encodable(self.certification_data),
        ensures
            r@ == quote_encoding(*self),
    {
        let payload = certification_data_serializer(&self.certification_data);
        let payload_len = payload.len() as u32;
        let mut out: Vec<u8> = Vec::new();
        append(&mut out, &quote_header_serializer(&self.header));
        append(&mut out, quote_body_serializer(&self.body, self.header.version).as_slice());
        append(&mut out, &u32_to_le(134 + payload_len));
        append(&mut out, &self.signature);
        let key = self.attestation_key.to_sec1_bytes();
        proof {
            self.attestation_key.lemma_len();
        }
        let (_, key_xy) = key.as_slice().split_at(1);
        append(&mut out, key_xy);
        append(&mut out, &u16_to_le(self.certification_data.tag() as u16));
        append(&mut out, &u32_to_le(payload_len));
        append(&mut out, payload.as_slice());
        assert(out@ =~= quote_encoding(*self));
        out
    }

    /// Creates a mock version 4 quote carrying `reportdata`, signed with the secret
    /// scalar `attestation_key`, whose QE report commits to the attestation key and is
    /// signed with the secret scalar `provisioning_certification_key`. `None` exactly
    /// where p256 refuses to make one of the two signatures.
    pub fn mock(
        attestation_key: [u8; 32],
        provisioning_certification_key: [u8; 32],
        reportdata: [u8; 64],
    ) -> (r: Option<Quote>)
        ensures
            r is Some <==> (p256_signature(attestation_key@, mock_message(reportdata@)) is Some
                && p256_signature(
                provisioning_certification_key@,
                mock_report(p256_public_of(attestation_key@)->Some_0),
            ) is Some),
            r matches Some(q) ==> {
                &&& q.header.version == 4
                &&& q.header.attestation_key_type == AttestionKeyType::ECDSA256WithP256
                &&& q.header.tee_type == TEEType::TDX
                &&& all_zero(q.header.reserved1@) && all_zero(q.header.reserved2@)
                &&& all_zero(q.header.qe_vendor_id@) && all_zero(q.header.user_data@)
                &&& q.body.tdx_version == TDXVersion::One
                &&& q.body.tee_tcb_svn_2 is None && q.body.mrservicetd is None
                &&& q.body.reportdata == reportdata
                &&& header_encoding(q.header) + fixed_encoding(q.body) == mock_message(reportdata@)
                &&& q.attestation_key@ == p256_public_of(attestation_key@)->Some_0
                &&& q.signature@ == p256_signature(attestation_key@, mock_message(reportdata@))->Some_0
                &&& q.certification_data matches CertificationData::QeReportCertificationData(qe)
                    && qe.qe_report@ == mock_report(q.attestation_key@)
                    && qe.signature@ == p256_signature(provisioning_certification_key@, qe.qe_report@)->Some_0
                    && p256_verifies(
                    p256_public_of(provisioning_certification_key@)->Some_0,
                    qe.qe_report@,
                    qe.signature@,
                ) && qe.qe_authentication_data@.len() == 0 && qe.certification_data@.len() == 0
                &&& compliant(q)
                &&& forall|res: Result<Quote, QuoteParseError>|
                    decode_outcome(quote_encoding(q), res) ==> (res matches Ok(q2) && q2.same_as(q))
            },
    {
        let header = QuoteHeader {
            version: 4,
            attestation_key_type: AttestionKeyType::ECDSA256WithP256,
            tee_type: TEEType::TDX,
            reserved1: [0u8; 2],
            reserved2: [0u8; 2],
            qe_vendor_id: [0u8; 16],
            user_data: [0u8; 20],
        };
        let body = QuoteBody {
            tdx_version: TDXVersion::One,
            tee_tcb_svn: [0u8; 16],
            mrseam: [0u8; 48],
            mrsignerseam: [0u8; 48],
            seamattributes: [0u8; 8],
            tdattributes: [0u8; 8],
            xfam: [0u8; 8],
            mrtd: [0u8; 48],
            mrconfigid: [0u8; 48],
            mrowner: [0u8; 48],
            mrownerconfig: [0u8; 48],
            rtmr0: [0u8; 48],
            rtmr1: [0u8; 48],
            rtmr2: [0u8; 48],
            rtmr3: [0u8; 48],
            reportdata,
            tee_tcb_svn_2: None,
            mrservicetd: None,
        };
        let mut message: Vec<u8> = Vec::new();
        append(&mut message, &quote_header_serializer(&header));
        append(&mut message, &quote_body_v4_serializer(&body));
        assert(message@ =~= mock_message(reportdata@));
        let signature = sign_p256(&attestation_key, message.as_slice())?;
        let public = match public_key_p256(&attestation_key) {
            Some(public) => public,
            None => {
                return None;
            },
        };
        let qe_authentication_data: Vec<u8> = Vec::new();
        let hash = sha256_digest(&public);
        let mut qe_report = [0u8; 384];
        put_bytes(&mut qe_report, QE_REPORT_HASH_OFFSET, &hash);
        assert(qe_report@ =~= mock_report(public@));
        let qe_signature = sign_p256(&provisioning_certification_key, &qe_report)?;
        let qe = QeReportCertificationData {
            qe_report,
            signature: qe_signature,
            qe_authentication_data,
            certification_data: Vec::new(),
        };
        let q = Quote {
            header,
            body,
            signature,
            attestation_key: VerifyingKey::from_uncompressed(public),
            certification_data: CertificationData::QeReportCertificationData(qe),
        };
        proof {
            assert(report_hash_window(qe.qe_report@) =~= hash@);
            assert(q.attestation_key@ + qe.qe_authentication_data@ =~= q.attestation_key@);
            lemma_encoding_prefix(q);
            let enc = quote_encoding(q);
            lemma_header_fields(q.header, enc);
            assert(signed_window(enc) =~= enc.subrange(0, 48) + rest_of(enc, 48).subrange(0, 584));
            lemma_round_trip(q);
        }
        Some(q)
    }
}

} // verus!
