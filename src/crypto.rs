use crate::error::VerifyingKeyError;
use p256::ecdsa::signature::{Signer, Verifier};
use sha2::Digest;
use vstd::prelude::*;

verus! {

/// The SHA-256 digest of `data`.
pub uninterp spec fn sha256(data: Seq<u8>) -> Seq<u8>;

/// Whether p256's ECDSA verification (P-256 with SHA-256) accepts the 64-byte
/// signature `sig` over `msg` under the public key SEC1-encoded as `key`.
pub uninterp spec fn p256_verifies(key: Seq<u8>, msg: Seq<u8>, sig: Seq<u8>) -> bool;

/// The uncompressed SEC1 encoding of the P-256 public key that p256 decodes from
/// the SEC1 bytes `sec1`, or `None` where it refuses them.
pub uninterp spec fn p256_public_key(sec1: Seq<u8>) -> Option<Seq<u8>>;

/// The 64-byte signature that p256's deterministic ECDSA signing (P-256 with SHA-256)
/// makes of `msg` with the secret scalar `secret`, or `None` where it refuses.
pub uninterp spec fn p256_signature(secret: Seq<u8>, msg: Seq<u8>) -> Option<Seq<u8>>;

/// The uncompressed SEC1 encoding of the public key of the secret scalar `secret`, or
/// `None` where p256 refuses the scalar.
pub uninterp spec fn p256_public_of(secret: Seq<u8>) -> Option<Seq<u8>>;

/// The unsigned big-endian integer held by `b`.
pub open spec fn be_value(b: Seq<u8>) -> nat
    decreases b.len(),
{
    if b.len() == 0 {
        0
    } else {
        be_value(b.drop_last()) * 256 + b.last() as nat
    }
}

/// The order of the P-256 group.
pub open spec fn p256_order() -> nat {
    let limb: nat = 0x1_0000_0000_0000_0000;
    ((0xffff_ffff_0000_0000nat * limb + 0xffff_ffff_ffff_ffffnat) * limb
        + 0xbce6_faad_a717_9e84nat) * limb + 0xf3b9_cac2_fc63_2551nat
}

/// Whether the two big-endian halves `r` and `s` of a 64-byte signature both lie
/// in `1..n`, `n` being the order of the P-256 group.
pub open spec fn signature_scalars_in_range(sig: Seq<u8>) -> bool {
    &&& sig.len() == 64
    &&& 0 < be_value(sig.subrange(0, 32)) < p256_order()
    &&& 0 < be_value(sig.subrange(32, 64)) < p256_order()
}

/// Whether `b` is framed as a SEC1 encoded P-256 point: a known tag byte followed
/// by as many bytes as that tag calls for.
pub open spec fn sec1_framed(b: Seq<u8>) -> bool {
    &&& b.len() > 0
    &&& (b[0] == 0 && b.len() == 1) || ((b[0] == 2 || b[0] == 3 || b[0] == 5) && b.len() == 33)
        || (b[0] == 4 && b.len() == 65)
}

/// The compressed SEC1 form of the uncompressed SEC1 point `p`: the tag 2 or 3 after
/// the parity of the y coordinate, then the x coordinate.
pub open spec fn sec1_compressed(p: Seq<u8>) -> Seq<u8> {
    seq![(2 + p[64] % 2) as u8] + p.subrange(1, 33)
}

/// Relies on sha2's `Sha256::digest`: the SHA-256 digest of `data`.
#[verifier::external_body]
pub(crate) fn sha256_digest(data: &[u8]) -> (r: [u8; 32])
    ensures
        r@ == sha256(data@),
{
    let mut out = [0u8; 32];
    out.copy_from_slice(&sha2::Sha256::digest(data));
    out
}

/// Relies on p256's `Signature::from_slice`, which accepts 64 bytes exactly when
/// both scalars lie in `1..n`.
#[verifier::external_body]
pub(crate) fn signature_decodes(sig: &[u8; 64]) -> (r: bool)
    ensures
        r == signature_scalars_in_range(sig@),
{
    p256::ecdsa::Signature::from_slice(sig).is_ok()
}

/// Relies on p256's `VerifyingKey::verify`, after decoding the key with
/// `VerifyingKey::from_sec1_bytes` and the signature with `Signature::from_slice`;
/// a refused key or signature is a rejection.
#[verifier::external_body]
pub(crate) fn verify_p256(key: &[u8], msg: &[u8], sig: &[u8; 64]) -> (r: bool)
    ensures
        r == p256_verifies(key@, msg@, sig@),
{
    match (p256::ecdsa::VerifyingKey::from_sec1_bytes(key), p256::ecdsa::Signature::from_slice(sig)) {
        (Ok(key), Ok(sig)) => key.verify(msg, &sig).is_ok(),
        _ => false,
    }
}

/// Whether `bytes` is framed as a SEC1 encoded P-256 point, as p256's
/// `EncodedPoint::from_bytes` checks it: a known tag byte and the length it calls for.
pub(crate) fn sec1_frame_ok(bytes: &[u8]) -> (r: bool)
    ensures
        r == sec1_framed(bytes@),
{
    if bytes.len() == 0 {
        return false;
    }
    let tag = bytes[0];
    let n = bytes.len();
    (tag == 0 && n == 1) || ((tag == 2 || tag == 3 || tag == 5) && n == 33) || (tag == 4 && n
        == 65)
}

/// Relies on p256's `VerifyingKey::from_sec1_bytes`, and on `to_encoded_point(false)`
/// for the uncompressed form of the key it decodes. An uncompressed input decodes to
/// the same coordinates; a compressed one to the point with that x coordinate and the
/// y parity that its tag gives.
#[verifier::external_body]
pub(crate) fn decode_sec1_key(bytes: &[u8]) -> (r: Option<[u8; 65]>)
    ensures
        match r {
            Some(k) => p256_public_key(bytes@) == Some(k@),
            None => p256_public_key(bytes@) is None,
        },
        r matches Some(k) ==> k@[0] == 4,
        r matches Some(k) ==> (bytes@.len() == 65 && bytes@[0] == 4 ==> k@ == bytes@),
        r matches Some(k) ==> (bytes@.len() == 33 && (bytes@[0] == 2 || bytes@[0] == 3)
            ==> sec1_compressed(k@) == bytes@),
{
    match p256::ecdsa::VerifyingKey::from_sec1_bytes(bytes) {
        Ok(key) => key.to_encoded_point(false).as_bytes().try_into().ok(),
        Err(_) => None,
    }
}

/// Relies on p256's `SigningKey::from_slice`, which refuses a secret scalar outside
/// `1..n`, and on `Signer::try_sign` (deterministic ECDSA with SHA-256, RFC 6979): the
/// signature depends on the scalar and the message alone, holds two scalars in `1..n`,
/// and, as any ECDSA signature, verifies under the public key of the scalar.
#[verifier::external_body]
pub(crate) fn sign_p256(secret: &[u8; 32], msg: &[u8]) -> (r: Option<[u8; 64]>)
    ensures
        r is Some <==> p256_signature(secret@, msg@) is Some,
        r matches Some(sig) ==> p256_signature(secret@, msg@) == Some(sig@),
        r matches Some(sig) ==> signature_scalars_in_range(sig@),
        r matches Some(sig) ==> p256_public_of(secret@) is Some && p256_verifies(
            p256_public_of(secret@)->Some_0,
            msg@,
            sig@,
        ),
{
    let key = p256::ecdsa::SigningKey::from_slice(secret).ok()?;
    let sig: p256::ecdsa::Signature = key.try_sign(msg).ok()?;
    let mut sig_bytes = [0u8; 64];
    sig_bytes.copy_from_slice(&sig.to_bytes());
    Some(sig_bytes)
}

/// Relies on p256's `SigningKey::from_slice`, which refuses a secret scalar outside
/// `1..n`, and on `verifying_key().to_encoded_point(false)` for the uncompressed
/// public key.
#[verifier::external_body]
pub(crate) fn public_key_p256(secret: &[u8; 32]) -> (r: Option<[u8; 65]>)
    ensures
        r is Some <==> p256_public_of(secret@) is Some,
        r matches Some(k) ==> p256_public_of(secret@) == Some(k@) && k@[0] == 4,
{
    let key = p256::ecdsa::SigningKey::from_slice(secret).ok()?;
    key.verifying_key().to_encoded_point(false).as_bytes().try_into().ok()
}

/// A P-256 public key, held as its uncompressed SEC1 encoding
/// (`0x04`, then the x and y coordinates, big-endian).
#[derive(Debug, Clone, Copy, PartialEq, Eq)]
pub struct VerifyingKey {
    point: [u8; 65],
}

impl View for VerifyingKey {
    type V = Seq<u8>;

    closed spec fn view(&self) -> Seq<u8> {
        self.point@
    }
}

impl VerifyingKey {
    /// The key whose uncompressed SEC1 encoding is `point`.
    pub(crate) fn from_uncompressed(point: [u8; 65]) -> (r: VerifyingKey)
        ensures
            r@ == point@,
    {
        VerifyingKey { point }
    }

    /// The public key of the secret scalar `secret`, or `None` where it is not a valid
    /// secret key.
    pub fn from_secret_scalar(secret: &[u8; 32]) -> (r: Option<VerifyingKey>)
        ensures
            r is Some <==> p256_public_of(secret@) is Some,
            r matches Some(k) ==> p256_public_of(secret@) == Some(k@),
    {
        match public_key_p256(secret) {
            Some(point) => Some(VerifyingKey { point }),
            None => None,
        }
    }

    /// Decodes a SEC1 encoded public key, compressed or not.
    pub fn from_sec1_bytes(bytes: &[u8]) -> (r: Result<VerifyingKey, VerifyingKeyError>)
        ensures
            r matches Ok(k) ==> (bytes@.len() == 65 && bytes@[0] == 4 ==> k@ == bytes@),
            r matches Ok(k) ==> (bytes@.len() == 33 && (bytes@[0] == 2 || bytes@[0] == 3)
                ==> sec1_compressed(k@) == bytes@),
            !sec1_framed(bytes@) ==> r == Err::<VerifyingKey, _>(
                VerifyingKeyError::DecodeEncodedPoint,
            ),
            sec1_framed(bytes@) ==> match p256_public_key(bytes@) {
                Some(k) => r is Ok && r->Ok_0@ == k,
                None => r == Err::<VerifyingKey, _>(VerifyingKeyError::EncodedPointToVerifyingKey),
            },
    {
        if !sec1_frame_ok(bytes) {
            return Err(VerifyingKeyError::DecodeEncodedPoint);
        }
        match decode_sec1_key(bytes) {
            Some(point) => Ok(VerifyingKey { point }),
            None => Err(VerifyingKeyError::EncodedPointToVerifyingKey),
        }
    }

    /// The uncompressed SEC1 encoding of a key has 65 bytes.
    pub proof fn lemma_len(&self)
        ensures
            self@.len() == 65,
    {
    }

    /// The uncompressed SEC1 encoding of the key.
    pub fn to_sec1_bytes(&self) -> (r: [u8; 65])
        ensures
            r@ == self@,
    {
        self.point
    }

    /// Whether `sig` is a valid signature of `msg` under this key.
    pub fn verify(&self, msg: &[u8], sig: &[u8; 64]) -> (r: bool)
        ensures
            r == p256_verifies(self@, msg@, sig@),
    {
        verify_p256(&self.point, msg, sig)
    }
}

/// Encodes a public key as its 33-byte compressed SEC1 point.
pub fn encode_verifying_key(input: &VerifyingKey) -> (r: Result<[u8; 33], VerifyingKeyError>)
    ensures
        r is Ok && r->Ok_0@ == sec1_compressed(input@),
{
    let point = input.to_sec1_bytes();
    let mut out = [0u8; 33];
    out[0] = 2 + point[64] % 2;
    let mut i: usize = 1;
    while i < 33
        invariant
            1 <= i <= 33,
            point@ == input@,
            out@.len() == 33,
            out@[0] == 2 + point@[64] % 2,
            forall|j: int| 1 <= j < i ==> out@[j] == point@[j],
        decreases 33 - i,
    {
        out[i] = point[i];
        i = i + 1;
    }
    assert(out@ =~= sec1_compressed(input@));
    Ok(out)
}

/// Decodes a 33-byte compressed SEC1 point into a public key; compressing the key
/// again with `encode_verifying_key` gives back the same 33 bytes.
pub fn decode_verifying_key(verifying_key_encoded: &[u8; 33]) -> (r: Result<
    VerifyingKey,
    VerifyingKeyError,
>)
    ensures
        r matches Ok(k) ==> (verifying_key_encoded@[0] == 2 || verifying_key_encoded@[0] == 3
            ==> sec1_compressed(k@) == verifying_key_encoded@),
        !sec1_framed(verifying_key_encoded@) ==> r == Err::<VerifyingKey, _>(
            VerifyingKeyError::DecodeEncodedPoint,
        ),
        sec1_framed(verifying_key_encoded@) ==> match p256_public_key(verifying_key_encoded@) {
            Some(k) => r is Ok && r->Ok_0@ == k,
            None => r == Err::<VerifyingKey, _>(VerifyingKeyError::EncodedPointToVerifyingKey),
        },
{
    VerifyingKey::from_sec1_bytes(verifying_key_encoded)
}

} // verus!
