use p256::ecdsa::signature::Signer;
use sha2::Digest;
use rand_core::OsRng;
use tdx_quote::{
    body::body_parser, quote_body_v4_serializer, quote_header_serializer, CertificationData,
    QeReportCertificationData, Quote, QuoteParseError, QuoteVerificationError, TDXVersion,
    VerifyingKey,
};

fn secret_bytes(key: &p256::ecdsa::SigningKey) -> [u8; 32] {
    let mut out = [0u8; 32];
    out.copy_from_slice(&key.to_bytes());
    out
}

fn public_of(key: &p256::ecdsa::SigningKey) -> VerifyingKey {
    let point = p256::ecdsa::VerifyingKey::from(key).to_encoded_point(false);
    VerifyingKey::from_sec1_bytes(point.as_bytes()).unwrap()
}

fn sign(key: &p256::ecdsa::SigningKey, msg: &[u8]) -> [u8; 64] {
    let sig: p256::ecdsa::Signature = key.sign(msg);
    let mut out = [0u8; 64];
    out.copy_from_slice(&sig.to_bytes());
    out
}

fn mock_quote() -> (Quote, p256::ecdsa::SigningKey, p256::ecdsa::SigningKey) {
    let attestation_key = p256::ecdsa::SigningKey::random(&mut OsRng);
    let provisioning_certification_key = p256::ecdsa::SigningKey::random(&mut OsRng);
    let quote = Quote::mock(
        secret_bytes(&attestation_key),
        secret_bytes(&provisioning_certification_key),
        [7; 64],
    )
    .unwrap();
    (quote, attestation_key, provisioning_certification_key)
}

/// Re-signs the first `window` bytes of a version 4 quote, whose signature sits at 636.
fn resign_v4(bytes: &mut [u8], key: &p256::ecdsa::SigningKey) {
    let sig = sign(key, &bytes[..632]);
    bytes[636..700].copy_from_slice(&sig);
}

#[test]
fn test_create_mock_quote() {
    let attestation_key = p256::ecdsa::SigningKey::random(&mut OsRng);
    let provisioning_certification_key = p256::ecdsa::SigningKey::random(&mut OsRng);
    let quote = Quote::mock(
        secret_bytes(&attestation_key),
        secret_bytes(&provisioning_certification_key),
        [0; 64],
    )
    .unwrap();
    assert_eq!(quote.attestation_key, public_of(&attestation_key));
    quote
        .verify_with_pck(public_of(&provisioning_certification_key))
        .unwrap();
    let quote_bytes = quote.as_bytes();
    let quote_deserialized = Quote::from_bytes(&quote_bytes).unwrap();
    assert_eq!(quote, quote_deserialized);
}

#[test]
fn test_serialize_header() {
    let (quote, _, _) = mock_quote();
    let input = quote.as_bytes();
    let quote = Quote::from_bytes(&input).unwrap();
    let serialized = quote_header_serializer(&quote.header);
    assert_eq!(serialized, input[..48]);
}

#[test]
fn test_serialize_body() {
    let (quote, _, _) = mock_quote();
    let input = quote.as_bytes();
    let quote = Quote::from_bytes(&input).unwrap();
    let serialized = quote_body_v4_serializer(&quote.body);
    assert_eq!(serialized, input[48..48 + 584]);
}

#[test]
fn mock_quote_layout() {
    let (quote, _, _) = mock_quote();
    let bytes = quote.as_bytes();
    assert_eq!(bytes.len(), 48 + 584 + 4 + 64 + 64 + 2 + 4 + 384 + 64 + 2);
    assert_eq!(&bytes[0..2], &[4, 0]);
    assert_eq!(&bytes[2..4], &[2, 0]);
    assert_eq!(&bytes[4..8], &[0x81, 0, 0, 0]);
    assert_eq!(&bytes[764..766], &[6, 0]);
    assert_eq!(&bytes[766..770], &[194, 1, 0, 0]);
    assert_eq!(quote.report_input_data(), [7; 64]);
    assert_eq!(quote.mrtd(), [0; 48]);
}

#[test]
fn tampered_byte_49_fails_verification() {
    let (quote, _, _) = mock_quote();
    let mut input = quote.as_bytes();
    assert!(Quote::from_bytes(&input).is_ok());
    input[49] = input[49].wrapping_add(1);
    assert_eq!(Quote::from_bytes(&input), Err(QuoteParseError::Verification));
}

#[test]
fn tampered_body_and_header_bytes_fail_verification() {
    let (quote, _, _) = mock_quote();
    let input = quote.as_bytes();
    for i in [8usize, 20, 47, 48, 300, 631] {
        let mut tampered = input.clone();
        tampered[i] ^= 0x01;
        assert_eq!(Quote::from_bytes(&tampered), Err(QuoteParseError::Verification));
    }
}

#[test]
fn tampered_signature_fails_verification() {
    let (quote, _, _) = mock_quote();
    let mut input = quote.as_bytes();
    input[650] ^= 0x80;
    assert_eq!(Quote::from_bytes(&input), Err(QuoteParseError::Verification));
}

#[test]
fn decoding_is_idempotent() {
    let (quote, _, _) = mock_quote();
    let input = quote.as_bytes();
    assert_eq!(Quote::from_bytes(&input), Quote::from_bytes(&input));
    let mut bad = input.clone();
    bad[100] ^= 0xff;
    assert_eq!(Quote::from_bytes(&bad), Quote::from_bytes(&bad));
}

#[test]
fn truncated_quote_is_a_parse_error() {
    let (quote, _, _) = mock_quote();
    let input = quote.as_bytes();
    for n in [0usize, 10, 47, 48, 600, 631, 700, 765, 769, 1000] {
        assert_eq!(Quote::from_bytes(&input[..n]), Err(QuoteParseError::Parse));
    }
}

#[test]
fn unknown_version_is_rejected() {
    let (quote, _, _) = mock_quote();
    let mut input = quote.as_bytes();
    input[0] = 6;
    assert_eq!(Quote::from_bytes(&input), Err(QuoteParseError::UnknownQuoteVersion));
    input[0] = 3;
    assert_eq!(Quote::from_bytes(&input), Err(QuoteParseError::UnknownQuoteVersion));
}

#[test]
fn unsupported_attestation_key_type() {
    let (quote, _, _) = mock_quote();
    let mut input = quote.as_bytes();
    input[2] = 3;
    assert_eq!(Quote::from_bytes(&input), Err(QuoteParseError::UnsupportedAttestationKeyType));
    input[2] = 9;
    assert_eq!(Quote::from_bytes(&input), Err(QuoteParseError::UnsupportedAttestationKeyType));
}

#[test]
fn unknown_tee_type_is_a_parse_error() {
    let (quote, _, _) = mock_quote();
    let mut input = quote.as_bytes();
    input[4] = 0x80;
    assert_eq!(Quote::from_bytes(&input), Err(QuoteParseError::Parse));
}

#[test]
fn sgx_tee_type_is_accepted() {
    let (quote, ak, _) = mock_quote();
    let mut input = quote.as_bytes();
    input[4] = 0;
    resign_v4(&mut input, &ak);
    let q = Quote::from_bytes(&input).unwrap();
    assert_eq!(q.header.tee_type, tdx_quote::TEEType::SGX);
}

#[test]
fn certification_tag_outside_the_window_is_dispatched() {
    let (quote, _, _) = mock_quote();
    let input = quote.as_bytes();
    for tag in [1u8, 2, 3, 4, 5, 7] {
        let mut changed = input.clone();
        changed[764] = tag;
        let q = Quote::from_bytes(&changed).unwrap();
        assert_eq!(q.certification_data.tag(), tag as i16);
        assert!(q.qe_report_certification_data().is_none());
    }
    for tag in [0u8, 8, 0xff] {
        let mut changed = input.clone();
        changed[764] = tag;
        assert_eq!(
            Quote::from_bytes(&changed),
            Err(QuoteParseError::UnknownCertificationDataType)
        );
    }
}

#[test]
fn negative_certification_length() {
    let (quote, _, _) = mock_quote();
    let mut input = quote.as_bytes();
    input[769] = 0x80;
    assert_eq!(Quote::from_bytes(&input), Err(QuoteParseError::IntConversionError));
}

#[test]
fn certification_data_tags() {
    let key = vec![4u8; 65];
    let data = vec![1u8, 2, 3];
    assert_eq!(
        CertificationData::new(1, data.clone(), key.clone()),
        Ok(CertificationData::PckIdPpidPlainCpusvnPcesvn(data.clone()))
    );
    assert_eq!(
        CertificationData::new(2, data.clone(), key.clone()),
        Ok(CertificationData::PckIdPpidRSA2048CpusvnPcesvn(data.clone()))
    );
    assert_eq!(
        CertificationData::new(3, data.clone(), key.clone()),
        Ok(CertificationData::PckIdPpidRSA3072CpusvnPcesvn(data.clone()))
    );
    assert_eq!(
        CertificationData::new(4, data.clone(), key.clone()),
        Ok(CertificationData::PckLeafCert(data.clone()))
    );
    assert_eq!(
        CertificationData::new(5, data.clone(), key.clone()),
        Ok(CertificationData::PckCertChain(data.clone()))
    );
    assert_eq!(CertificationData::new(6, data.clone(), key.clone()), Err(QuoteParseError::Parse));
    assert_eq!(
        CertificationData::new(7, data.clone(), key.clone()),
        Ok(CertificationData::PlatformManifest(data.clone()))
    );
    for tag in [0i16, 8, -1, i16::MAX, i16::MIN] {
        assert_eq!(
            CertificationData::new(tag, data.clone(), key.clone()),
            Err(QuoteParseError::UnknownCertificationDataType)
        );
    }
}

/// A QE report certification payload whose hash commits to `key` and `auth`.
fn qe_payload(key: &[u8], auth: &[u8], sig: [u8; 64], with_hash_of: &[u8]) -> Vec<u8> {
    let mut hasher = sha2::Sha256::new();
    hasher.update(key);
    hasher.update(with_hash_of);
    let hash = hasher.finalize();
    let mut report = [0u8; 384];
    report[320..352].copy_from_slice(&hash);
    let mut out = report.to_vec();
    out.extend_from_slice(&sig);
    out.extend_from_slice(&(auth.len() as i16).to_le_bytes());
    out.extend_from_slice(auth);
    out.extend_from_slice(&[9, 9, 9]);
    out
}

#[test]
fn hash_binding() {
    let signer = p256::ecdsa::SigningKey::random(&mut OsRng);
    let sig = sign(&signer, b"report");
    let key = vec![4u8; 65];
    let auth = [1u8, 2, 3, 4];
    let good = qe_payload(&key, &auth, sig, &auth);
    let q = QeReportCertificationData::new(good.clone(), key.clone()).unwrap();
    assert_eq!(q.qe_authentication_data, auth.to_vec());
    assert_eq!(q.certification_data, vec![9, 9, 9]);
    assert_eq!(q.signature, sig);

    // changed authentication data, hash left as it was
    let mut changed = good.clone();
    changed[450] = 0xaa;
    assert_eq!(
        QeReportCertificationData::new(changed, key.clone()),
        Err(QuoteParseError::AttestationKeyDoesNotMatch)
    );

    // changed authentication data, hash recomputed
    let other_auth = [0xaau8, 2, 3, 4];
    let rehashed = qe_payload(&key, &other_auth, sig, &other_auth);
    assert!(QeReportCertificationData::new(rehashed, key.clone()).is_ok());

    // another attestation key
    let other_key = vec![5u8; 65];
    assert_eq!(
        QeReportCertificationData::new(good, other_key),
        Err(QuoteParseError::AttestationKeyDoesNotMatch)
    );
}

#[test]
fn qe_report_errors() {
    let key = vec![4u8; 65];
    let auth = [1u8, 2];
    let signer = p256::ecdsa::SigningKey::random(&mut OsRng);
    let sig = sign(&signer, b"report");
    let good = qe_payload(&key, &auth, sig, &auth);
    assert_eq!(
        QeReportCertificationData::new(good[..449].to_vec(), key.clone()),
        Err(QuoteParseError::Parse)
    );
    assert_eq!(
        QeReportCertificationData::new(good[..451].to_vec(), key.clone()),
        Err(QuoteParseError::Parse)
    );
    let zero_sig = qe_payload(&key, &auth, [0u8; 64], &auth);
    assert_eq!(
        QeReportCertificationData::new(zero_sig, key.clone()),
        Err(QuoteParseError::Verification)
    );
    let mut negative = good.clone();
    negative[449] = 0x80;
    assert_eq!(
        QeReportCertificationData::new(negative, key.clone()),
        Err(QuoteParseError::IntConversionError)
    );
}

#[test]
fn pck_verification() {
    let (quote, ak, pck) = mock_quote();
    assert_eq!(quote.verify_with_pck(public_of(&pck)), Ok(()));
    assert_eq!(
        quote.verify_with_pck(public_of(&ak)),
        Err(QuoteVerificationError::BadSignature)
    );
    let stranger = p256::ecdsa::SigningKey::random(&mut OsRng);
    assert_eq!(
        quote.verify_with_pck(public_of(&stranger)),
        Err(QuoteVerificationError::BadSignature)
    );
    let mut input = quote.as_bytes();
    input[764] = 4;
    let other = Quote::from_bytes(&input).unwrap();
    assert_eq!(
        other.verify_with_pck(public_of(&pck)),
        Err(QuoteVerificationError::NoQeReportCertificationData)
    );
    assert!(quote.qe_report_certification_data().is_some());
}

fn v5_body(body_type: u16, fill: u8) -> Vec<u8> {
    let mut out = body_type.to_le_bytes().to_vec();
    out.extend_from_slice(&648u32.to_le_bytes());
    out.extend(std::iter::repeat(fill).take(584 + 64));
    out
}

#[test]
fn version_dispatch() {
    let v4 = vec![3u8; 584];
    let (_, body) = body_parser(&v4, 4).unwrap();
    assert_eq!(body.tdx_version, TDXVersion::One);
    assert_eq!(body.tee_tcb_svn_2, None);
    assert_eq!(body.mrservicetd, None);

    let input = v5_body(2, 3);
    let (rest, body) = body_parser(&input, 5).unwrap();
    assert_eq!(body.tdx_version, TDXVersion::One);
    assert_eq!(body.tee_tcb_svn_2, None);
    assert_eq!(body.mrservicetd, None);
    assert_eq!(rest.len(), 64);

    let mut input = v5_body(3, 3);
    input[590] = 11;
    input[606] = 12;
    let (rest, body) = body_parser(&input, 5).unwrap();
    assert_eq!(body.tdx_version, TDXVersion::OnePointFive);
    assert_eq!(body.tee_tcb_svn_2.unwrap()[0], 11);
    assert_eq!(body.mrservicetd.unwrap()[0], 12);
    assert_eq!(rest.len(), 0);

    for t in [0u16, 1, 4, 0x0200] {
        assert_eq!(body_parser(&v5_body(t, 3), 5), Err(QuoteParseError::UnknownQuoteVersion));
    }
    assert_eq!(body_parser(&v4, 6), Err(QuoteParseError::UnknownQuoteVersion));
    assert_eq!(body_parser(&v4[..583], 4), Err(QuoteParseError::Parse));
    assert_eq!(body_parser(&v5_body(3, 3)[..653], 5), Err(QuoteParseError::Parse));
}

#[test]
fn version_five_quote_round_trip() {
    let ak = p256::ecdsa::SigningKey::random(&mut OsRng);
    let pck = p256::ecdsa::SigningKey::random(&mut OsRng);
    let mock = Quote::mock(secret_bytes(&ak), secret_bytes(&pck), [5; 64]).unwrap();
    let v4 = mock.as_bytes();
    // header of version 5, then a TDX 1.5 body
    let mut input = v4[..48].to_vec();
    input[0] = 5;
    input.extend_from_slice(&v5_body(3, 8));
    let end = input.len();
    assert_eq!(end, 48 + 654);
    input.extend_from_slice(&[0u8; 4]);
    input.extend_from_slice(&[0u8; 64]);
    input.extend_from_slice(&v4[700..]);
    let sig = sign(&ak, &input[..48 + 648]);
    input[end + 4..end + 68].copy_from_slice(&sig);
    let quote = Quote::from_bytes(&input).unwrap();
    assert_eq!(quote.header.version, 5);
    assert_eq!(quote.body.tdx_version, TDXVersion::OnePointFive);
    assert_eq!(quote.body.mrservicetd, Some([8; 48]));
    assert_eq!(quote.signature, sig);
    assert_eq!(Quote::from_bytes(&quote.as_bytes()), Ok(quote.clone()));
    // the last six body bytes lie outside the signed window
    let mut outside = input.clone();
    outside[end - 1] ^= 1;
    assert!(Quote::from_bytes(&outside).is_ok());
    let mut inside = input.clone();
    inside[end - 7] ^= 1;
    assert_eq!(Quote::from_bytes(&inside), Err(QuoteParseError::Verification));
}

#[test]
fn verifying_key_codecs() {
    let signer = p256::ecdsa::SigningKey::random(&mut OsRng);
    let key = public_of(&signer);
    let compressed = tdx_quote::encode_verifying_key(&key).unwrap();
    let expected = p256::ecdsa::VerifyingKey::from(&signer).to_encoded_point(true);
    assert_eq!(&compressed[..], expected.as_bytes());
    assert_eq!(tdx_quote::decode_verifying_key(&compressed), Ok(key));
    assert_eq!(key.to_sec1_bytes()[0], 4);

    let mut bad_tag = compressed;
    bad_tag[0] = 4;
    assert_eq!(
        tdx_quote::decode_verifying_key(&bad_tag),
        Err(tdx_quote::VerifyingKeyError::DecodeEncodedPoint)
    );
    let mut off_curve = [0xffu8; 33];
    off_curve[0] = 2;
    assert_eq!(
        tdx_quote::decode_verifying_key(&off_curve),
        Err(tdx_quote::VerifyingKeyError::EncodedPointToVerifyingKey)
    );
}

#[test]
fn known_pck_decodes() {
    const KNOWN_PCK: [u8; 65] = [
        4, 166, 103, 136, 58, 157, 155, 124, 186, 75, 81, 133, 87, 255, 233, 182, 192, 125, 235,
        230, 121, 173, 147, 108, 47, 190, 240, 181, 75, 181, 31, 148, 128, 225, 192, 192, 71, 237,
        28, 180, 75, 161, 36, 115, 159, 76, 117, 226, 46, 114, 91, 196, 239, 248, 64, 168, 25, 255,
        101, 241, 162, 113, 245, 253, 148,
    ];
    let pck = VerifyingKey::from_sec1_bytes(&KNOWN_PCK).unwrap();
    assert_eq!(pck.to_sec1_bytes(), KNOWN_PCK);
}

#[test]
fn mock_refuses_zero_secret() {
    assert!(Quote::mock([0; 32], [1; 32], [0; 64]).is_none());
}

#[test]
fn error_messages() {
    assert_eq!(QuoteParseError::Parse.to_string(), "Cannot parse quote");
    assert_eq!(
        tdx_quote::VerifyingKeyError::BadSize.to_string(),
        "Compressed point has unexpected size"
    );
}

#[test]
fn unknown_version_five_body_type_is_rejected() {
    let (quote, _, _) = mock_quote();
    let mut input = quote.as_bytes()[..48].to_vec();
    input[0] = 5;
    input.extend_from_slice(&v5_body(4, 0));
    input.extend_from_slice(&[0u8; 200]);
    assert_eq!(Quote::from_bytes(&input), Err(QuoteParseError::UnknownQuoteVersion));
    let mut one = quote.as_bytes()[..48].to_vec();
    one[0] = 5;
    one.extend_from_slice(&v5_body(2, 0));
    assert_eq!(Quote::from_bytes(&one), Err(QuoteParseError::Parse));
}

#[test]
fn public_key_of_secret_scalar() {
    let signer = p256::ecdsa::SigningKey::random(&mut OsRng);
    let key = VerifyingKey::from_secret_scalar(&secret_bytes(&signer)).unwrap();
    assert_eq!(key, public_of(&signer));
    assert!(VerifyingKey::from_secret_scalar(&[0; 32]).is_none());
    assert!(VerifyingKey::from_secret_scalar(&[0xff; 32]).is_none());
    let (quote, ak, pck) = mock_quote();
    assert_eq!(Some(quote.attestation_key), VerifyingKey::from_secret_scalar(&secret_bytes(&ak)));
    let pck_key = VerifyingKey::from_secret_scalar(&secret_bytes(&pck)).unwrap();
    assert_eq!(quote.verify_with_pck(pck_key), Ok(()));
}
