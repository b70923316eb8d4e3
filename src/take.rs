use crate::error::QuoteParseError;
use vstd::prelude::*;

verus! {

/// The two little-endian bytes of `v`.
pub open spec fn u16_le_bytes(v: u16) -> Seq<u8> {
    seq![(v % 256) as u8, (v / 256) as u8]
}

/// The four little-endian bytes of `v`.
pub open spec fn u32_le_bytes(v: u32) -> Seq<u8> {
    seq![(v % 256) as u8, ((v / 256) % 256) as u8, ((v / 65536) % 256) as u8, (v / 16777216) as u8]
}

/// The two-byte little-endian integer at the start of `b`.
pub open spec fn le_u16_at(b: Seq<u8>, i: int) -> int {
    b[i] + 256 * b[i + 1]
}

/// The four-byte little-endian integer at offset `i` of `b`.
pub open spec fn le_u32_at(b: Seq<u8>, i: int) -> int {
    le_u16_at(b, i) + 65536 * le_u16_at(b, i + 2)
}

/// The two-byte little-endian two's complement integer at offset `i` of `b`.
pub open spec fn le_i16_at(b: Seq<u8>, i: int) -> int {
    let v = le_u16_at(b, i);
    if v < 0x8000 { v } else { v - 0x10000 }
}

/// The four-byte little-endian two's complement integer at offset `i` of `b`.
pub open spec fn le_i32_at(b: Seq<u8>, i: int) -> int {
    let v = le_u32_at(b, i);
    if v < 0x8000_0000 { v } else { v - 0x1_0000_0000 }
}

/// The part of `b` from `start` on.
pub open spec fn rest_of(b: Seq<u8>, start: int) -> Seq<u8> {
    b.subrange(start, b.len() as int)
}

/// The two bytes at offset `i` of `b` encode the integer that they hold.
pub proof fn lemma_u16_le_bytes_at(b: Seq<u8>, i: int)
    requires
        0 <= i,
        i + 2 <= b.len(),
    ensures
        0 <= le_u16_at(b, i) < 0x10000,
        u16_le_bytes(le_u16_at(b, i) as u16) == b.subrange(i, i + 2),
{
    let lo = b[i] as int;
    let hi = b[i + 1] as int;
    assert((lo + 256 * hi) % 256 == lo && (lo + 256 * hi) / 256 == hi) by (nonlinear_arith)
        requires
            0 <= lo < 256,
            0 <= hi < 256,
    ;
    assert(u16_le_bytes(le_u16_at(b, i) as u16) =~= b.subrange(i, i + 2));
}

/// The integer that the little-endian bytes of `v` hold is `v`.
pub proof fn lemma_u16_le_bytes_value(v: u16)
    ensures
        u16_le_bytes(v).len() == 2,
        le_u16_at(u16_le_bytes(v), 0) == v,
{
    let x = v as int;
    assert(x % 256 + 256 * (x / 256) == x) by (nonlinear_arith);
}

/// The integer that the little-endian bytes of `v` hold is `v`.
pub proof fn lemma_u32_le_bytes_value(v: u32)
    ensures
        u32_le_bytes(v).len() == 4,
        le_u32_at(u32_le_bytes(v), 0) == v,
{
    let x = v as int;
    assert(x % 256 + 256 * ((x / 256) % 256) + 65536 * ((x / 65536) % 256 + 256 * (x / 16777216))
        == x) by (nonlinear_arith)
        requires
            0 <= x,
    ;
}

/// Where `b` holds the little-endian bytes of `v` at offset `i`, it reads back `v`.
pub proof fn lemma_le_u16_at_bytes(b: Seq<u8>, i: int, v: u16)
    requires
        0 <= i,
        i + 2 <= b.len(),
        b.subrange(i, i + 2) == u16_le_bytes(v),
    ensures
        le_u16_at(b, i) == v,
{
    lemma_u16_le_bytes_value(v);
    assert(b[i] == b.subrange(i, i + 2)[0] && b[i + 1] == b.subrange(i, i + 2)[1]);
}

/// Where `b` holds the little-endian bytes of `v` at offset `i`, it reads back `v`.
pub proof fn lemma_le_u32_at_bytes(b: Seq<u8>, i: int, v: u32)
    requires
        0 <= i,
        i + 4 <= b.len(),
        b.subrange(i, i + 4) == u32_le_bytes(v),
    ensures
        le_u32_at(b, i) == v,
{
    lemma_u32_le_bytes_value(v);
    let w = b.subrange(i, i + 4);
    assert(b[i] == w[0] && b[i + 1] == w[1] && b[i + 2] == w[2] && b[i + 3] == w[3]);
}

/// Reads `N` bytes into an array, returning the bytes that follow them.
pub fn take_array<const N: usize>(input: &[u8]) -> (r: Result<(&[u8], [u8; N]), QuoteParseError>)
    ensures
        match r {
            Ok((rest, a)) => N <= input@.len() && a@ == input@.subrange(0, N as int) && rest@
                == rest_of(input@, N as int),
            Err(e) => input@.len() < N && e == QuoteParseError::Parse,
        },
{
    if input.len() < N {
        return Err(QuoteParseError::Parse);
    }
    let mut a = [0u8; N];
    let mut i: usize = 0;
    while i < N
        invariant
            i <= N,
            N <= input@.len(),
            a@.len() == N,
            forall|j: int| 0 <= j < i ==> a@[j] == input@[j],
        decreases N - i,
    {
        a[i] = input[i];
        i = i + 1;
    }
    assert(a@ =~= input@.subrange(0, N as int));
    let (_, rest) = input.split_at(N);
    Ok((rest, a))
}

/// Reads a `[u8; 2]`.
pub fn take2(input: &[u8]) -> (r: Result<(&[u8], [u8; 2]), QuoteParseError>)
    ensures
        match r {
            Ok((rest, a)) => 2 <= input@.len() && a@ == input@.subrange(0, 2) && rest@ == rest_of(
                input@,
                2,
            ),
            Err(e) => input@.len() < 2 && e == QuoteParseError::Parse,
        },
{
    take_array::<2>(input)
}

/// Reads a `[u8; 4]`.
pub fn take4(input: &[u8]) -> (r: Result<(&[u8], [u8; 4]), QuoteParseError>)
    ensures
        match r {
            Ok((rest, a)) => 4 <= input@.len() && a@ == input@.subrange(0, 4) && rest@ == rest_of(
                input@,
                4,
            ),
            Err(e) => input@.len() < 4 && e == QuoteParseError::Parse,
        },
{
    take_array::<4>(input)
}

/// Reads a `[u8; 8]`.
pub fn take8(input: &[u8]) -> (r: Result<(&[u8], [u8; 8]), QuoteParseError>)
    ensures
        match r {
            Ok((rest, a)) => 8 <= input@.len() && a@ == input@.subrange(0, 8) && rest@ == rest_of(
                input@,
                8,
            ),
            Err(e) => input@.len() < 8 && e == QuoteParseError::Parse,
        },
{
    take_array::<8>(input)
}

/// Reads a `[u8; 16]`.
pub fn take16(input: &[u8]) -> (r: Result<(&[u8], [u8; 16]), QuoteParseError>)
    ensures
        match r {
            Ok((rest, a)) => 16 <= input@.len() && a@ == input@.subrange(0, 16) && rest@
                == rest_of(input@, 16),
            Err(e) => input@.len() < 16 && e == QuoteParseError::Parse,
        },
{
    take_array::<16>(input)
}

/// Reads a `[u8; 20]`.
pub fn take20(input: &[u8]) -> (r: Result<(&[u8], [u8; 20]), QuoteParseError>)
    ensures
        match r {
            Ok((rest, a)) => 20 <= input@.len() && a@ == input@.subrange(0, 20) && rest@
                == rest_of(input@, 20),
            Err(e) => input@.len() < 20 && e == QuoteParseError::Parse,
        },
{
    take_array::<20>(input)
}

/// Reads a `[u8; 48]`.
pub fn take48(input: &[u8]) -> (r: Result<(&[u8], [u8; 48]), QuoteParseError>)
    ensures
        match r {
            Ok((rest, a)) => 48 <= input@.len() && a@ == input@.subrange(0, 48) && rest@
                == rest_of(input@, 48),
            Err(e) => input@.len() < 48 && e == QuoteParseError::Parse,
        },
{
    take_array::<48>(input)
}

/// Reads a `[u8; 64]`.
pub fn take64(input: &[u8]) -> (r: Result<(&[u8], [u8; 64]), QuoteParseError>)
    ensures
        match r {
            Ok((rest, a)) => 64 <= input@.len() && a@ == input@.subrange(0, 64) && rest@
                == rest_of(input@, 64),
            Err(e) => input@.len() < 64 && e == QuoteParseError::Parse,
        },
{
    take_array::<64>(input)
}

/// Reads a `[u8; 384]`.
pub fn take384(input: &[u8]) -> (r: Result<(&[u8], [u8; 384]), QuoteParseError>)
    ensures
        match r {
            Ok((rest, a)) => 384 <= input@.len() && a@ == input@.subrange(0, 384) && rest@
                == rest_of(input@, 384),
            Err(e) => input@.len() < 384 && e == QuoteParseError::Parse,
        },
{
    take_array::<384>(input)
}

/// Reads `n` bytes as a slice.
pub fn take_slice(input: &[u8], n: usize) -> (r: Result<(&[u8], &[u8]), QuoteParseError>)
    ensures
        match r {
            Ok((rest, a)) => n <= input@.len() && a@ == input@.subrange(0, n as int) && rest@
                == rest_of(input@, n as int),
            Err(e) => input@.len() < n && e == QuoteParseError::Parse,
        },
{
    if input.len() < n {
        return Err(QuoteParseError::Parse);
    }
    let (a, rest) = input.split_at(n);
    Ok((rest, a))
}

/// Reads a little-endian `u16`.
pub fn le_u16(input: &[u8]) -> (r: Result<(&[u8], u16), QuoteParseError>)
    ensures
        match r {
            Ok((rest, v)) => 2 <= input@.len() && v == le_u16_at(input@, 0) && rest@ == rest_of(
                input@,
                2,
            ),
            Err(e) => input@.len() < 2 && e == QuoteParseError::Parse,
        },
{
    let (rest, a) = take2(input)?;
    let v: u16 = a[0] as u16 + 256 * (a[1] as u16);
    Ok((rest, v))
}

/// Reads a little-endian `u32`.
pub fn le_u32(input: &[u8]) -> (r: Result<(&[u8], u32), QuoteParseError>)
    ensures
        match r {
            Ok((rest, v)) => 4 <= input@.len() && v == le_u32_at(input@, 0) && rest@ == rest_of(
                input@,
                4,
            ),
            Err(e) => input@.len() < 4 && e == QuoteParseError::Parse,
        },
{
    let (rest, a) = take4(input)?;
    let lo: u32 = a[0] as u32 + 256 * (a[1] as u32);
    let hi: u32 = a[2] as u32 + 256 * (a[3] as u32);
    let v: u32 = lo + 65536 * hi;
    Ok((rest, v))
}

/// Reads a little-endian two's complement `i16`.
pub fn le_i16(input: &[u8]) -> (r: Result<(&[u8], i16), QuoteParseError>)
    ensures
        match r {
            Ok((rest, v)) => 2 <= input@.len() && v == le_i16_at(input@, 0) && rest@ == rest_of(
                input@,
                2,
            ),
            Err(e) => input@.len() < 2 && e == QuoteParseError::Parse,
        },
{
    let (rest, u) = le_u16(input)?;
    let v: i16 = if u < 0x8000 {
        u as i16
    } else {
        ((u - 0x8000) as i16) - 0x4000 - 0x4000
    };
    Ok((rest, v))
}

/// Reads a little-endian two's complement `i32`.
pub fn le_i32(input: &[u8]) -> (r: Result<(&[u8], i32), QuoteParseError>)
    ensures
        match r {
            Ok((rest, v)) => 4 <= input@.len() && v == le_i32_at(input@, 0) && rest@ == rest_of(
                input@,
                4,
            ),
            Err(e) => input@.len() < 4 && e == QuoteParseError::Parse,
        },
{
    let (rest, u) = le_u32(input)?;
    let v: i32 = if u < 0x8000_0000 {
        u as i32
    } else {
        ((u - 0x8000_0000) as i32) - 0x4000_0000 - 0x4000_0000
    };
    Ok((rest, v))
}

} // verus!
