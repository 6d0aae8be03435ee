use async_snmp::util::{decode_hex, encode_hex, HexBytes, HexDecodeError};

#[test]
fn test_hex_bytes_display() {
    let data = [0xde, 0xad, 0xbe, 0xef];
    let hex = HexBytes(&data);
    assert_eq!(hex.to_string(), "deadbeef");
}

#[test]
fn test_hex_bytes_debug() {
    let data = [0x00, 0xff, 0x42];
    let hex = HexBytes(&data);
    assert_eq!(hex.to_string(), "00ff42");
}

#[test]
fn test_hex_bytes_empty() {
    let data: [u8; 0] = [];
    let hex = HexBytes(&data);
    assert_eq!(hex.to_string(), "");
}

#[test]
fn test_encode_hex_basic() {
    assert_eq!(encode_hex(b"Hello world!"), "48656c6c6f20776f726c6421");
    assert_eq!(encode_hex(&[0x01, 0x02, 0x03, 0x0f, 0x10]), "0102030f10");
}

#[test]
fn test_encode_hex_empty() {
    assert_eq!(encode_hex(&[]), "");
}

#[test]
fn test_encode_hex_all_bytes() {
    // Test boundary values
    assert_eq!(encode_hex(&[0x00]), "00");
    assert_eq!(encode_hex(&[0xff]), "ff");
    assert_eq!(encode_hex(&[0x00, 0xff]), "00ff");
}

#[test]
fn test_decode_hex_basic() {
    assert_eq!(
        decode_hex("48656c6c6f20776f726c6421").unwrap(),
        b"Hello world!"
    );
    assert_eq!(
        decode_hex("0102030f10").unwrap(),
        vec![0x01, 0x02, 0x03, 0x0f, 0x10]
    );
}

#[test]
fn test_decode_hex_empty() {
    assert_eq!(decode_hex("").unwrap(), Vec::<u8>::new());
}

#[test]
fn test_decode_hex_mixed_case() {
    // Both upper and lower case should work
    assert_eq!(
        decode_hex("deadbeef").unwrap(),
        vec![0xde, 0xad, 0xbe, 0xef]
    );
    assert_eq!(
        decode_hex("DEADBEEF").unwrap(),
        vec![0xde, 0xad, 0xbe, 0xef]
    );
    assert_eq!(
        decode_hex("DeAdBeEf").unwrap(),
        vec![0xde, 0xad, 0xbe, 0xef]
    );
}

#[test]
fn test_decode_hex_odd_length_error() {
    assert_eq!(decode_hex("1"), Err(HexDecodeError::OddLength));
    assert_eq!(decode_hex("123"), Err(HexDecodeError::OddLength));
    assert_eq!(decode_hex("12345"), Err(HexDecodeError::OddLength));
}

#[test]
fn test_decode_hex_invalid_char_error() {
    assert_eq!(decode_hex("gg"), Err(HexDecodeError::InvalidChar));
    assert_eq!(decode_hex("0g"), Err(HexDecodeError::InvalidChar));
    assert_eq!(decode_hex("g0"), Err(HexDecodeError::InvalidChar));
    assert_eq!(decode_hex("xx"), Err(HexDecodeError::InvalidChar));
    assert_eq!(decode_hex("  "), Err(HexDecodeError::InvalidChar)); // spaces
}

#[test]
fn test_hex_roundtrip() {
    let original = vec![
        0x00, 0x11, 0x22, 0x33, 0x44, 0x55, 0x66, 0x77, 0x88, 0x99, 0xaa, 0xbb, 0xcc, 0xdd,
        0xee, 0xff,
    ];
    let encoded = encode_hex(&original);
    let decoded = decode_hex(&encoded).unwrap();
    assert_eq!(original, decoded);
}

