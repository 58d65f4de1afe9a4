use hypernova_core::errors::HexError;
use hypernova_core::utils::{bytes_to_hex, format_timestamp, hex_to_bytes, random_nonce, sha256, zero_hash};

#[test]
fn sha256_known_vectors() {
    assert_eq!(
        sha256(b""),
        "e3b0c44298fc1c149afbf4c8996fb92427ae41e4649b934ca495991b7852b855"
    );
    assert_eq!(
        sha256(b"abc"),
        "ba7816bf8f01cfea414140de5dae2223b00361a396177a9cb410ff61f20015ad"
    );
}

#[test]
fn bytes_to_hex_encodes_lowercase_pairs() {
    assert_eq!(bytes_to_hex(&[]), "");
    assert_eq!(bytes_to_hex(&[0x00, 0x0f, 0xde, 0xad, 0xbe, 0xef]), "000fdeadbeef");
}

#[test]
fn hex_to_bytes_round_trips() {
    assert_eq!(hex_to_bytes("deadbeef").unwrap(), vec![0xde, 0xad, 0xbe, 0xef]);
    assert_eq!(hex_to_bytes("DEADBEEF").unwrap(), vec![0xde, 0xad, 0xbe, 0xef]);
    assert_eq!(hex_to_bytes("0xff00").unwrap(), vec![0xff, 0x00]);
    assert_eq!(hex_to_bytes("").unwrap(), Vec::<u8>::new());
    let data = vec![1u8, 2, 3, 250];
    assert_eq!(hex_to_bytes(&bytes_to_hex(&data)).unwrap(), data);
}

#[test]
fn hex_to_bytes_rejects_odd_length() {
    assert!(matches!(hex_to_bytes("abc"), Err(HexError::OddLength)));
}

#[test]
fn hex_to_bytes_rejects_non_digits() {
    assert!(matches!(hex_to_bytes("zz"), Err(HexError::InvalidDigit)));
    assert!(matches!(hex_to_bytes("+f"), Err(HexError::InvalidDigit)));
}

#[test]
fn zero_hash_is_64_zeros() {
    assert_eq!(zero_hash(), "0".repeat(64));
}

#[test]
fn format_timestamp_prints_utc() {
    assert_eq!(format_timestamp(0), "1970-01-01 00:00:00 UTC");
    assert_eq!(format_timestamp(1700000000), "2023-11-14 22:13:20 UTC");
    // The last representable instant formats without aborting.
    let last = format_timestamp(8_210_266_876_799);
    assert!(last.ends_with("12-31 23:59:59 UTC"));
}

#[test]
fn random_nonce_returns() {
    let _ = random_nonce();
}
