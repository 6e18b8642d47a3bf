use blocksync::felt::Felt;
use blocksync::felt::HexParseError;

#[test]
fn parses_small_values() {
    let f = Felt::from_hex_str("0x1").unwrap();
    let bytes = f.to_be_bytes();
    assert_eq!(bytes[31], 1);
    assert!(bytes[..31].iter().all(|b| *b == 0));

    let f = Felt::from_hex_str("abc").unwrap();
    let bytes = f.to_be_bytes();
    assert_eq!(bytes[30], 0x0a);
    assert_eq!(bytes[31], 0xbc);
}

#[test]
fn rejects_invalid_digits() {
    assert_eq!(Felt::from_hex_str("0xzz"), Err(HexParseError::InvalidNibble));
    assert_eq!(Felt::from_hex_str("12g4"), Err(HexParseError::InvalidNibble));
}

#[test]
fn rejects_values_of_252_bits() {
    // 2^251 itself is out of range: 0x8 followed by 62 zeros.
    let too_big = format!("0x8{}", "0".repeat(62));
    assert_eq!(Felt::from_hex_str(&too_big), Err(HexParseError::Overflow));
    // 2^251 - 1 is the largest value accepted.
    let max = format!("0x7{}", "f".repeat(62));
    let f = Felt::from_hex_str(&max).unwrap();
    assert_eq!(f.to_be_bytes()[0], 0x07);
}

#[test]
fn from_u64_is_big_endian() {
    let f = Felt::from_u64(0x0102030405060708);
    let bytes = f.to_be_bytes();
    assert!(bytes[..24].iter().all(|b| *b == 0));
    assert_eq!(&bytes[24..], &[1, 2, 3, 4, 5, 6, 7, 8]);
}

#[test]
fn from_be_slice_bounds() {
    let f = Felt::from_be_slice(&[1, 2]).unwrap();
    assert_eq!(f, Felt::from_u64(0x0102));
    // 33 bytes never fit.
    assert!(Felt::from_be_slice(&[0u8; 33]).is_none());
    // A 32-byte value with the top byte at 8 reaches 2^251.
    let mut big = [0u8; 32];
    big[0] = 8;
    assert!(Felt::from_be_slice(&big).is_none());
}
