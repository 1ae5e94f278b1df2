use bech32m_convert::convert::{decode_bech32m, encode_to_bech32m, ConvertError};

#[test]
fn test_decode_mn_shield_addr() {
    let bech32m_str = "mn_shield-addr_test1dfv46yhqklvgh4kzaw9p8dpezydetjeccssc7y2p32keeaqeuy4sxqqc60ndd9aahqlyyr7k8rhq5l2f7kc3y28759geed4clwzgdlg0ucgahz2x";
    let result = decode_bech32m(bech32m_str);
    assert!(
        result.is_ok(),
        "Failed to decode bech32m string: {:?}",
        result
    );
    let hex_data = result.unwrap();
    // Verify it's valid hex
    assert!(!hex_data.is_empty(), "Decoded data should not be empty");
    println!("Decoded hex: {}", hex_data);
    assert_eq!(hex_data, "6a595d12e0b7d88bd6c2eb8a13b439111b95cb38c4218f11418aad9cf419e12b030018d3e6d697bdb83e420fd638ee0a7d49f5b11228fea1519cb6b8fb8486fd0fe6", "Decoded hex does not match expected value");
}

#[test]
fn test_roundtrip_hex() {
    let hex_input = "706174617465";
    let prefix = "test";

    let encoded = encode_to_bech32m(hex_input, prefix).unwrap();
    assert!(encoded.starts_with("test1"));

    let decoded = decode_bech32m(&encoded).unwrap();
    assert_eq!(decoded, hex_input);
}

#[test]
fn test_roundtrip_bech32m() {
    let original = "test1wpshgct5v5hd5wlx";
    let new_prefix = "new";

    let encoded = encode_to_bech32m(original, new_prefix).unwrap();
    assert!(encoded.starts_with("new1"));

    // Both should decode to the same hex
    let original_hex = decode_bech32m(original).unwrap();
    let new_hex = decode_bech32m(&encoded).unwrap();
    assert_eq!(original_hex, new_hex);
}

#[test]
fn test_base58_encoding() {
    let base58_input = "Ae2tdPwUPEYy";
    let prefix = "base58";

    let result = encode_to_bech32m(base58_input, prefix);
    assert!(result.is_ok(), "Failed to encode base58: {:?}", result);
    assert!(result.unwrap().starts_with("base581"));
}

#[test]
fn test_invalid_bech32m() {
    let invalid = "not_a_valid_bech32m_string!!!";
    let result = decode_bech32m(invalid);
    assert!(result.is_err());
}

#[test]
fn test_decode_exact_value() {
    // The payload of this string is the ASCII bytes of "patate".
    let decoded = decode_bech32m("base16_1wpshgct5v5kgt2jd").unwrap();
    assert_eq!(decoded, "706174617465");
}

#[test]
fn test_encode_hex_exact_value() {
    let encoded = encode_to_bech32m("706174617465", "test").unwrap();
    assert_eq!(encoded, "test1wpshgct5v5hd5wlx");
}

#[test]
fn test_encode_base58_exact_value() {
    let encoded = encode_to_bech32m("Ae2tdPwUPEYy", "base58").unwrap();
    assert_eq!(encoded, "base581p58rejhd9592uus698dfp");
}

#[test]
fn test_reprefix_exact_value() {
    let encoded = encode_to_bech32m("old_prefix1wpshgct5v5frd79v", "new_prefix").unwrap();
    assert!(encoded.starts_with("new_prefix1"));
    assert_eq!(encoded, "new_prefix1wpshgct5v52ycf9c");
}

#[test]
fn test_priority_bech32m_before_hex() {
    // Every character of this string is a hexadecimal digit, and it also
    // carries a valid Bech32m checksum over the payload 294a52971d. It must
    // be treated as Bech32m, not re-encoded from its hex reading.
    let dual = "a1999999ca7e75e9";
    assert_eq!(decode_bech32m(dual).unwrap(), "294a52971d");

    let encoded = encode_to_bech32m(dual, "x").unwrap();
    assert_eq!(encoded, "x1999999ca6ht7up");
    assert_eq!(decode_bech32m(&encoded).unwrap(), "294a52971d");
}

#[test]
fn test_invalid_checksum_rejected() {
    // Same characters as a valid string, with the last one changed.
    let result = decode_bech32m("test1wpshgct5v5hd5wly");
    assert_eq!(result, Err(ConvertError::InvalidEncoding));
}

#[test]
fn test_invalid_prefix_rejected() {
    // Mixed case.
    assert_eq!(
        encode_to_bech32m("706174617465", "aB"),
        Err(ConvertError::InvalidPrefix)
    );
    // Empty.
    assert_eq!(
        encode_to_bech32m("706174617465", ""),
        Err(ConvertError::InvalidPrefix)
    );
    // A space is outside the allowed character range.
    assert_eq!(
        encode_to_bech32m("706174617465", "pre fix"),
        Err(ConvertError::InvalidPrefix)
    );
    // Longer than 83 characters.
    let long: String = std::iter::repeat('p').take(84).collect();
    assert_eq!(
        encode_to_bech32m("706174617465", &long),
        Err(ConvertError::InvalidPrefix)
    );
}

#[test]
fn test_uppercase_prefix_accepted() {
    // An all-uppercase prefix is a valid human-readable part; the encoder
    // emits it in lowercase.
    let encoded = encode_to_bech32m("706174617465", "TEST").unwrap();
    assert_eq!(encoded, "test1wpshgct5v5hd5wlx");
}

#[test]
fn test_unrecognized_format() {
    assert_eq!(
        encode_to_bech32m("not_a_valid_bech32m_string!!!", "test"),
        Err(ConvertError::UnrecognizedFormat)
    );
    // Odd length, so not hex; '0' is outside the Base58 alphabet.
    assert_eq!(
        encode_to_bech32m("012", "test"),
        Err(ConvertError::UnrecognizedFormat)
    );
}

#[test]
fn test_payload_too_long() {
    // 700 zero bytes need 1120 data characters, more than the Bech32m code
    // length allows.
    let input: String = std::iter::repeat('0').take(1400).collect();
    assert_eq!(
        encode_to_bech32m(&input, "p"),
        Err(ConvertError::EncodingFailed)
    );
}

#[test]
fn test_empty_payload_is_hex() {
    // The empty string is a valid (empty) hex payload.
    let encoded = encode_to_bech32m("", "p").unwrap();
    assert_eq!(encoded, "p1hh47eu");
    assert_eq!(decode_bech32m(&encoded).unwrap(), "");
}

#[test]
fn test_uppercase_hex_normalized() {
    let encoded = encode_to_bech32m("ABCDEF", "t").unwrap();
    let decoded = decode_bech32m(&encoded).unwrap();
    assert_eq!(decoded, "abcdef");
}
