use hypernova_core::crypto::{KeyPair, QuantumResistantCrypto, SignatureType};
use hypernova_core::errors::CryptoError;

#[test]
fn keypair_generates_and_signs() {
    let keypair = KeyPair::generate().unwrap();
    let signature = keypair.sign(b"payload");
    assert_eq!(signature.bytes.len(), 64);
    assert!(matches!(signature.sig_type, SignatureType::Ed25519));
}

#[test]
fn public_key_hex_is_64_hex_digits() {
    let keypair = KeyPair::generate().unwrap();
    let hex = keypair.public_key_hex();
    assert_eq!(hex.len(), 64);
    assert!(hex.chars().all(|c| c.is_ascii_hexdigit()));
}

#[test]
fn quantum_signing_reports_absent_capability() {
    let keypair = KeyPair::generate().unwrap();
    assert!(matches!(keypair.sign_quantum(b"m"), Err(CryptoError::NotSupported)));
    assert!(matches!(
        QuantumResistantCrypto::generate_keypair(),
        Err(CryptoError::NotSupported)
    ));
    assert!(matches!(
        QuantumResistantCrypto::sign(b"k", b"m"),
        Err(CryptoError::NotSupported)
    ));
    assert!(matches!(
        QuantumResistantCrypto::verify(b"k", b"m", b"s"),
        Err(CryptoError::NotSupported)
    ));
}

#[test]
fn ed25519_signatures_verify_against_the_key() {
    let keypair = KeyPair::generate().unwrap();
    let public_key = hypernova_core::utils::hex_to_bytes(&keypair.public_key_hex()).unwrap();
    let signature = keypair.sign(b"message");
    assert_eq!(hypernova_core::crypto::verify(&public_key, b"message", &signature), Ok(true));
    assert_eq!(hypernova_core::crypto::verify(&public_key, b"tampered", &signature), Ok(false));

    let other = KeyPair::generate().unwrap();
    let other_key = hypernova_core::utils::hex_to_bytes(&other.public_key_hex()).unwrap();
    assert_eq!(hypernova_core::crypto::verify(&other_key, b"message", &signature), Ok(false));

    let mut quantum = keypair.sign(b"message");
    quantum.sig_type = SignatureType::QuantumResistant;
    assert_eq!(
        hypernova_core::crypto::verify(&public_key, b"message", &quantum),
        Err(CryptoError::NotSupported)
    );
}
