use tensor_vm::hash::hex;
use tensor_vm::types::{
    HashHexParseError, address, hash_bytes, hash_pair, hash_to_u128, parse_hash_hex, sign, u64_bytes,
    usize_bytes, verify_signature,
};

#[test]
fn typed_hash_helpers_are_deterministic_and_domain_separated() {
    let left = hash_bytes(b"left", &[b"a"]);
    let right = hash_bytes(b"right", &[b"a"]);
    assert_ne!(left, right);
    assert_eq!(
        hash_pair(b"pair", &left, &right),
        hash_pair(b"pair", &left, &right)
    );
    assert_eq!(u64_bytes(42), 42_u64.to_le_bytes());
    assert_eq!(usize_bytes(42), 42_u64.to_le_bytes());
    assert_eq!(address(b"alice"), address(b"alice"));

    let message = hash_bytes(b"message", &[b"payload"]);
    let signer = address(b"signer");
    let signature = sign(&signer, &message);
    assert!(verify_signature(&signer, &message, &signature));
    assert!(!verify_signature(&address(b"other"), &message, &signature));

    let mut expected = [0_u8; 16];
    expected.copy_from_slice(&left[..16]);
    assert_eq!(hash_to_u128(&left), u128::from_le_bytes(expected));
}

#[test]
fn hash_hex_parser_accepts_hash_text_and_reports_edges() {
    let hash = hash_bytes(b"hash-hex", &[b"value"]);
    assert_eq!(parse_hash_hex(&hex(&hash)).unwrap(), hash);
    assert_eq!(
        parse_hash_hex(&format!("0x{}", hex(&hash).to_uppercase())).unwrap(),
        hash
    );
    assert_eq!(parse_hash_hex("12"), Err(HashHexParseError::InvalidLength));
    assert_eq!(
        parse_hash_hex(&format!("z{}", "0".repeat(63))),
        Err(HashHexParseError::InvalidHex)
    );
}

#[test]
fn hash_bytes_is_sha256_of_length_prefixed_parts() {
    let mut encoded = Vec::new();
    encoded.extend_from_slice(&4u64.to_le_bytes());
    encoded.extend_from_slice(b"test");
    encoded.extend_from_slice(&2u64.to_le_bytes());
    encoded.extend_from_slice(b"ab");
    encoded.extend_from_slice(&0u64.to_le_bytes());
    let expected: [u8; 32] = <sha2::Sha256 as sha2::Digest>::digest(&encoded).into();
    assert_eq!(hash_bytes(b"test", &[b"ab", b""]), expected);
    assert_ne!(hash_bytes(b"test", &[b"ab"]), hash_bytes(b"test", &[b"a", b"b"]));
}

#[test]
fn hex_is_lowercase_two_digits_per_byte() {
    assert_eq!(hex(&[0x00, 0x0f, 0xa5, 0xff]), "000fa5ff");
    assert_eq!(hex(&[]), "");
    let mut digest = [0u8; 32];
    digest[0] = 0xab;
    digest[31] = 0x01;
    let text = hex(&digest);
    assert_eq!(text.len(), 64);
    assert!(text.starts_with("ab00"));
    assert!(text.ends_with("01"));
    assert_eq!(parse_hash_hex(&text).unwrap(), digest);
}

#[test]
fn hash_hex_parser_rejects_prefix_without_digits_and_bad_lengths() {
    assert_eq!(parse_hash_hex(""), Err(HashHexParseError::InvalidLength));
    assert_eq!(parse_hash_hex(&"0".repeat(65)), Err(HashHexParseError::InvalidLength));
    assert_eq!(parse_hash_hex(&format!("0x{}", "0".repeat(62))), Err(HashHexParseError::InvalidLength));
    assert_eq!(parse_hash_hex(&format!("{}g", "0".repeat(63))), Err(HashHexParseError::InvalidHex));
    assert_eq!(parse_hash_hex(&"Ff".repeat(32)).unwrap(), [0xff; 32]);
}

#[test]
fn signatures_bind_signer_and_message() {
    let signer = address(b"signer");
    let message = hash_bytes(b"message", &[b"payload"]);
    let other_message = hash_bytes(b"message", &[b"other"]);
    let signature = sign(&signer, &message);
    assert!(!verify_signature(&signer, &other_message, &signature));
    assert!(!verify_signature(&signer, &message, &[0u8; 32]));
}
