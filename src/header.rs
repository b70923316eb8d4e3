use crate::error::QuoteParseError;
use crate::take::{
    le_u16, le_u16_at, le_u32, le_u32_at, lemma_u16_le_bytes_value, lemma_u32_le_bytes_value,
    rest_of, take16, take2, take20, u16_le_bytes, u32_le_bytes,
};
use vstd::prelude::*;

verus! {

/// Length of the quote header.
pub const QUOTE_HEADER_LENGTH: usize = 48;

/// Type of TEE used.
#[derive(Debug, Clone, Copy, PartialEq, Eq, Structural)]
pub enum TEEType {
    SGX,
    TDX,
}

impl TEEType {
    /// The value that stands for this TEE type on the wire.
    pub open spec fn spec_raw(self) -> u32 {
        match self {
            TEEType::SGX => 0x00,
            TEEType::TDX => 0x81,
        }
    }

    /// The value that stands for this TEE type on the wire.
    pub fn raw(&self) -> (r: u32)
        ensures
            r == self.spec_raw(),
    {
        match self {
            TEEType::SGX => 0x00,
            TEEType::TDX => 0x81,
        }
    }

    /// The TEE type that `value` stands for.
    pub fn try_from(value: u32) -> (r: Result<TEEType, QuoteParseError>)
        ensures
            match r {
                Ok(t) => t.spec_raw() == value,
                Err(e) => value != 0x00 && value != 0x81 && e == QuoteParseError::Parse,
            },
    {
        match value {
            0x00 => Ok(TEEType::SGX),
            0x81 => Ok(TEEType::TDX),
            _ => Err(QuoteParseError::Parse),
        }
    }
}

/// Type of the attestation key used by the quoting enclave.
#[non_exhaustive]
#[derive(Debug, Clone, Copy, PartialEq, Eq, Structural)]
pub enum AttestionKeyType {
    ECDSA256WithP256,
    /// Not yet supported by TDX
    ECDSA384WithP384,
}

impl AttestionKeyType {
    /// The value that stands for this key type on the wire.
    pub open spec fn spec_raw(self) -> u16 {
        match self {
            AttestionKeyType::ECDSA256WithP256 => 2,
            AttestionKeyType::ECDSA384WithP384 => 3,
        }
    }

    /// The value that stands for this key type on the wire.
    pub fn raw(&self) -> (r: u16)
        ensures
            r == self.spec_raw(),
    {
        match self {
            AttestionKeyType::ECDSA256WithP256 => 2,
            AttestionKeyType::ECDSA384WithP384 => 3,
        }
    }

    /// The key type that `value` stands for.
    pub fn try_from(value: u16) -> (r: Result<AttestionKeyType, QuoteParseError>)
        ensures
            match r {
                Ok(t) => t.spec_raw() == value,
                Err(e) => value != 2 && value != 3 && e == QuoteParseError::UnsupportedAttestationKeyType,
            },
    {
        match value {
            2 => Ok(AttestionKeyType::ECDSA256WithP256),
            3 => Ok(AttestionKeyType::ECDSA384WithP384),
            _ => Err(QuoteParseError::UnsupportedAttestationKeyType),
        }
    }
}

/// A TDX quote header.
#[derive(Debug, Clone, Copy, PartialEq, Eq)]
pub struct QuoteHeader {
    /// Quote version (4 or 5)
    pub version: u16,
    pub attestation_key_type: AttestionKeyType,
    pub tee_type: TEEType,
    /// Currently unused
    pub reserved1: [u8; 2],
    /// Currently unused
    pub reserved2: [u8; 2],
    /// UUID for the quoting enclave vendor
    pub qe_vendor_id: [u8; 16],
    pub user_data: [u8; 20],
}

/// The 48 bytes that encode `h`.
pub open spec fn header_encoding(h: QuoteHeader) -> Seq<u8> {
    u16_le_bytes(h.version) + u16_le_bytes(h.attestation_key_type.spec_raw()) + u32_le_bytes(
        h.tee_type.spec_raw(),
    ) + h.reserved1@ + h.reserved2@ + h.qe_vendor_id@ + h.user_data@
}

/// The error, if any, that decoding a header from the start of `b` meets.
pub open spec fn header_error(b: Seq<u8>) -> Option<QuoteParseError> {
    if b.len() < 48 {
        Some(QuoteParseError::Parse)
    } else if le_u16_at(b, 2) != 2 && le_u16_at(b, 2) != 3 {
        Some(QuoteParseError::UnsupportedAttestationKeyType)
    } else if le_u32_at(b, 4) != 0x00 && le_u32_at(b, 4) != 0x81 {
        Some(QuoteParseError::Parse)
    } else {
        None
    }
}

/// The bytes that encode a header hold its version, key type and TEE type.
pub proof fn lemma_header_fields(h: QuoteHeader, b: Seq<u8>)
    requires
        b.len() >= 48,
        header_encoding(h) == b.subrange(0, 48),
    ensures
        le_u16_at(b, 0) == h.version,
        le_u16_at(b, 2) == h.attestation_key_type.spec_raw(),
        le_u32_at(b, 4) == h.tee_type.spec_raw(),
        header_error(b) is None,
{
    lemma_u16_le_bytes_value(h.version);
    lemma_u16_le_bytes_value(h.attestation_key_type.spec_raw());
    lemma_u32_le_bytes_value(h.tee_type.spec_raw());
    let e = header_encoding(h);
    assert(e[0] == b[0] && e[1] == b[1] && e[2] == b[2] && e[3] == b[3]);
    assert(e[4] == b[4] && e[5] == b[5] && e[6] == b[6] && e[7] == b[7]);
}

/// Two headers with the same encoding are the same header.
pub proof fn lemma_header_encoding_injective(h1: QuoteHeader, h2: QuoteHeader)
    requires
        header_encoding(h1) == header_encoding(h2),
    ensures
        h1 == h2,
{
    let e = header_encoding(h1);
    assert(e.subrange(0, 48) =~= e);
    lemma_header_fields(h1, e);
    lemma_header_fields(h2, e);
    assert(h1.attestation_key_type == h2.attestation_key_type);
    assert(h1.tee_type == h2.tee_type);
    assert(h1.reserved1@ =~= e.subrange(8, 10) && h2.reserved1@ =~= e.subrange(8, 10));
    assert(h1.reserved2@ =~= e.subrange(10, 12) && h2.reserved2@ =~= e.subrange(10, 12));
    assert(h1.qe_vendor_id@ =~= e.subrange(12, 28) && h2.qe_vendor_id@ =~= e.subrange(12, 28));
    assert(h1.user_data@ =~= e.subrange(28, 48) && h2.user_data@ =~= e.subrange(28, 48));
    assert(h1.reserved1 =~= h2.reserved1);
    assert(h1.reserved2 =~= h2.reserved2);
    assert(h1.qe_vendor_id =~= h2.qe_vendor_id);
    assert(h1.user_data =~= h2.user_data);
}

/// Decodes the quote header at the start of `input`, returning the bytes that follow it.
pub fn quote_header_parser(input: &[u8]) -> (r: Result<(&[u8], QuoteHeader), QuoteParseError>)
    ensures
        match r {
            Ok((rest, h)) => header_error(input@) is None && header_encoding(h) == input@.subrange(
                0,
                48,
            ) && rest@ == rest_of(input@, 48),
            Err(e) => header_error(input@) == Some(e),
        },
{
    if input.len() < QUOTE_HEADER_LENGTH {
        return Err(QuoteParseError::Parse);
    }
    let (rest, version) = le_u16(input)?;
    let (rest, attestation_key_type) = le_u16(rest)?;
    let (rest, tee_type) = le_u32(rest)?;
    let (rest, reserved1) = take2(rest)?;
    let (rest, reserved2) = take2(rest)?;
    let (rest, qe_vendor_id) = take16(rest)?;
    let (rest, user_data) = take20(rest)?;
    let attestation_key_type = AttestionKeyType::try_from(attestation_key_type)?;
    let tee_type = TEEType::try_from(tee_type)?;
    let h = QuoteHeader {
        version,
        attestation_key_type,
        tee_type,
        reserved1,
        reserved2,
        qe_vendor_id,
        user_data,
    };
    assert(header_encoding(h) =~= input@.subrange(0, 48));
    assert(rest@ =~= rest_of(input@, 48));
    Ok((rest, h))
}

/// Writes `bytes` into `out` from offset `at`.
pub(crate) fn put_bytes(out: &mut [u8], at: usize, bytes: &[u8])
    requires
        at + bytes@.len() <= old(out)@.len(),
    ensures
        final(out)@.len() == old(out)@.len(),
        final(out)@ == old(out)@.subrange(0, at as int) + bytes@ + old(out)@.subrange(
            at + bytes@.len(),
            old(out)@.len() as int,
        ),
{
    let n = out.len();
    let mut i: usize = 0;
    while i < bytes.len()
        invariant
            n == old(out)@.len(),
            at + bytes@.len() <= old(out)@.len(),
            out@.len() == old(out)@.len(),
            i <= bytes@.len(),
            forall|j: int| 0 <= j < at ==> out@[j] == old(out)@[j],
            forall|j: int| 0 <= j < i ==> out@[at + j] == bytes@[j],
            forall|j: int| at + i <= j < out@.len() ==> out@[j] == old(out)@[j],
        decreases bytes@.len() - i,
    {
        out[at + i] = bytes[i];
        i = i + 1;
    }
    assert(out@ =~= old(out)@.subrange(0, at as int) + bytes@ + old(out)@.subrange(
        at + bytes@.len(),
        old(out)@.len() as int,
    ));
}

/// The two little-endian bytes of `v`.
pub(crate) fn u16_to_le(v: u16) -> (r: [u8; 2])
    ensures
        r@ == u16_le_bytes(v),
{
    let r = [(v % 256) as u8, (v / 256) as u8];
    assert(r@ =~= u16_le_bytes(v));
    r
}

/// The four little-endian bytes of `v`.
pub(crate) fn u32_to_le(v: u32) -> (r: [u8; 4])
    ensures
        r@ == u32_le_bytes(v),
{
    let r = [(v % 256) as u8, ((v / 256) % 256) as u8, ((v / 65536) % 256) as u8, (v / 16777216) as u8];
    assert(r@ =~= u32_le_bytes(v));
    r
}

/// Serializes a quote header: the 48 bytes that are signed in front of the body.
pub fn quote_header_serializer(input: &QuoteHeader) -> (r: [u8; 48])
    ensures
        r@ == header_encoding(*input),
{
    let mut output = [1u8; 48];
    put_bytes(&mut output, 0, &u16_to_le(input.version));
    put_bytes(&mut output, 2, &u16_to_le(input.attestation_key_type.raw()));
    put_bytes(&mut output, 4, &u32_to_le(input.tee_type.raw()));
    put_bytes(&mut output, 8, &input.reserved1);
    put_bytes(&mut output, 10, &input.reserved2);
    put_bytes(&mut output, 12, &input.qe_vendor_id);
    put_bytes(&mut output, 28, &input.user_data);
    assert(output@ =~= header_encoding(*input));
    output
}

} // verus!
