use tdx_quote::take::{le_i16, le_i32, le_u16, le_u32};
use tdx_quote::{take16, take2, take384, take64, QuoteParseError};

#[test]
fn take_reads_fixed_arrays() {
    let input: Vec<u8> = (0u8..=200).collect();
    let (rest, a) = take2(&input).unwrap();
    assert_eq!(a, [0, 1]);
    assert_eq!(rest[0], 2);
    let (rest, a) = take16(rest).unwrap();
    assert_eq!(a[15], 17);
    assert_eq!(rest.len(), 201 - 18);
    let (_, a) = take64(&input).unwrap();
    assert_eq!(a[63], 63);
    assert_eq!(take384(&input), Err(QuoteParseError::Parse));
    assert_eq!(take2(&input[..1]), Err(QuoteParseError::Parse));
}

#[test]
fn little_endian_integers() {
    let input = [0x34u8, 0x12, 0xff, 0xff, 0x00, 0x80];
    assert_eq!(le_u16(&input).unwrap().1, 0x1234);
    assert_eq!(le_u32(&input).unwrap().1, 0xffff_1234);
    assert_eq!(le_i16(&input[2..]).unwrap().1, -1);
    assert_eq!(le_i16(&input[4..]).unwrap().1, i16::MIN);
    assert_eq!(le_i32(&input[2..]).unwrap().1, i32::MIN + 0xffff);
    assert_eq!(le_i32(&input[..3]), Err(QuoteParseError::Parse));
}
