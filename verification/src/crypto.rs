//! The signature capability: an opaque signed payload plus the algorithm
//! that made it.
//!
//! Exactly one concrete algorithm is available (Ed25519, through an outside
//! implementation). A quantum-resistant variant is reserved as a capability
//! slot: its operations fail with [`CryptoError::NotSupported`] until an
//! algorithm is chosen, and callers must treat that as a capability-absent
//! condition, not as a verification failure.

use vstd::prelude::*;

use ed25519_dalek::{Signer, Verifier};

verus! {

use crate::errors::CryptoError;

/// Supported signature algorithms.
#[derive(Debug, PartialEq, Eq, Structural)]
pub enum SignatureType {
    /// Ed25519 signature.
    Ed25519,
    /// Quantum-resistant signature (reserved).
    QuantumResistant,
}

impl Clone for SignatureType {
    fn clone(&self) -> (r: Self)
        ensures
            r == *self,
    {
        match self {
            SignatureType::Ed25519 => SignatureType::Ed25519,
            SignatureType::QuantumResistant => SignatureType::QuantumResistant,
        }
    }
}

/// The mathematical content of a [`Signature`]: its bytes and algorithm.
#[verifier::ext_equal]
pub struct SignatureData {
    pub bytes: Seq<u8>,
    pub sig_type: SignatureType,
}

/// An opaque signed payload with an algorithm tag.
#[derive(Debug)]
pub struct Signature {
    /// Signature bytes.
    pub bytes: Vec<u8>,
    /// Signature algorithm.
    pub sig_type: SignatureType,
}

impl View for Signature {
    type V = SignatureData;

    open spec fn view(&self) -> SignatureData {
        SignatureData { bytes: self.bytes@, sig_type: self.sig_type }
    }
}

impl DeepView for Signature {
    type V = SignatureData;

    open spec fn deep_view(&self) -> SignatureData {
        self@
    }
}

impl Clone for Signature {
    fn clone(&self) -> (r: Self)
        ensures
            r@ == self@,
    {
        Signature {
            bytes: crate::utils::copy_bytes(&self.bytes),
            sig_type: self.sig_type.clone(),
        }
    }
}

/// Copy an optional signature. The copy holds the same content.
pub(crate) fn copy_opt_signature(s: &Option<Signature>) -> (r: Option<Signature>)
    ensures
        r.deep_view() == s.deep_view(),
{
    match s {
        None => None,
        Some(v) => Some(v.clone()),
    }
}

/// A key pair: an Ed25519 key pair, and a slot for a quantum-resistant key
/// pair that no algorithm fills yet.
pub struct KeyPair {
    ed25519_keypair: ed25519_dalek::Keypair,
    quantum_keypair: Option<Vec<u8>>,
}

#[verifier::external_type_specification]
#[verifier::external_body]
pub struct ExEd25519Keypair(ed25519_dalek::Keypair);

/// Relies on `ed25519_dalek::Keypair::generate` with the operating system's
/// randomness; nothing can be promised of the drawn key.
#[verifier::external_body]
fn generate_ed25519_keypair() -> ed25519_dalek::Keypair {
    let mut csprng = rand::rngs::OsRng {};
    ed25519_dalek::Keypair::generate(&mut csprng)
}

/// Relies on `ed25519_dalek::PublicKey::as_bytes`: the public half is
/// exactly 32 bytes.
#[verifier::external_body]
fn ed25519_public_key_bytes(keypair: &ed25519_dalek::Keypair) -> (r: Vec<u8>)
    ensures
        r@.len() == 32,
{
    keypair.public.as_bytes().to_vec()
}

/// Relies on `ed25519_dalek::Keypair::sign` (through `ed25519_dalek::Signer`):
/// an Ed25519 signature is exactly 64 bytes.
#[verifier::external_body]
fn ed25519_sign(keypair: &ed25519_dalek::Keypair, message: &[u8]) -> (r: Vec<u8>)
    ensures
        r@.len() == 64,
{
    keypair.sign(message).to_bytes().to_vec()
}

impl KeyPair {
    /// Generate a new key pair. The quantum-resistant slot stays empty.
    pub fn generate() -> (r: Result<KeyPair, CryptoError>)
        ensures
            r is Ok,
            r->Ok_0.quantum_keypair_absent(),
    {
        Ok(KeyPair { ed25519_keypair: generate_ed25519_keypair(), quantum_keypair: None })
    }

    /// Whether the reserved quantum-resistant slot is empty.
    pub closed spec fn quantum_keypair_absent(&self) -> bool {
        self.quantum_keypair is None
    }

    /// The public key as lowercase hexadecimal text.
    pub fn public_key_hex(&self) -> (r: String)
        ensures
            r@.len() == 64,
    {
        let bytes = ed25519_public_key_bytes(&self.ed25519_keypair);
        crate::utils::bytes_to_hex(bytes.as_slice())
    }

    /// Sign a message using Ed25519.
    pub fn sign(&self, message: &[u8]) -> (r: Signature)
        ensures
            r@.sig_type == SignatureType::Ed25519,
            r@.bytes.len() == 64,
    {
        Signature { bytes: ed25519_sign(&self.ed25519_keypair, message), sig_type: SignatureType::Ed25519 }
    }

    /// Sign a message using a quantum-resistant algorithm. The capability is
    /// reserved but absent, so every call reports that.
    pub fn sign_quantum(&self, message: &[u8]) -> (r: Result<Signature, CryptoError>)
        ensures
            r == Err::<Signature, CryptoError>(CryptoError::NotSupported),
    {
        let _ = message;
        Err(CryptoError::NotSupported)
    }
}

/// Whether an Ed25519 signature verifies for a public key and message;
/// determined by the three arguments alone. A malformed key or signature
/// verifies nothing.
pub uninterp spec fn spec_ed25519_verifies(
    public_key: Seq<u8>,
    message: Seq<u8>,
    signature: Seq<u8>,
) -> bool;

/// Relies on `ed25519_dalek::PublicKey::verify` (through
/// `ed25519_dalek::Verifier`); a key or signature that does not parse
/// verifies nothing.
#[verifier::external_body]
fn ed25519_verify(public_key: &[u8], message: &[u8], signature_bytes: &[u8]) -> (r: bool)
    ensures
        r == spec_ed25519_verifies(public_key@, message@, signature_bytes@),
{
    let public_key = match ed25519_dalek::PublicKey::from_bytes(public_key) {
        Ok(k) => k,
        Err(_) => {
            return false;
        },
    };
    let signature = match ed25519_dalek::Signature::try_from(signature_bytes) {
        Ok(s) => s,
        Err(_) => {
            return false;
        },
    };
    public_key.verify(message, &signature).is_ok()
}

/// Check a signature against a public key and message, for the algorithm it
/// claims. The quantum-resistant algorithm is a reserved capability, and a
/// signature claiming it reports the absent capability rather than a
/// verification failure.
pub fn verify(public_key: &[u8], message: &[u8], signature: &Signature) -> (r: Result<
    bool,
    CryptoError,
>)
    ensures
        signature@.sig_type == SignatureType::Ed25519 ==> r == Ok::<bool, CryptoError>(
            spec_ed25519_verifies(public_key@, message@, signature@.bytes),
        ),
        signature@.sig_type == SignatureType::QuantumResistant ==> r == Err::<bool, CryptoError>(
            CryptoError::NotSupported,
        ),
{
    match signature.sig_type {
        SignatureType::Ed25519 => Ok(
            ed25519_verify(public_key, message, signature.bytes.as_slice()),
        ),
        SignatureType::QuantumResistant => Err(CryptoError::NotSupported),
    }
}

/// The quantum-resistant algorithm slot. Every operation reports the absent
/// capability until an algorithm is chosen.
pub struct QuantumResistantCrypto;

impl QuantumResistantCrypto {
    /// Generate a new quantum-resistant key pair: not yet available.
    pub fn generate_keypair() -> (r: Result<Vec<u8>, CryptoError>)
        ensures
            r == Err::<Vec<u8>, CryptoError>(CryptoError::NotSupported),
    {
        Err(CryptoError::NotSupported)
    }

    /// Sign a message with a quantum-resistant algorithm: not yet available.
    pub fn sign(private_key: &[u8], message: &[u8]) -> (r: Result<Vec<u8>, CryptoError>)
        ensures
            r == Err::<Vec<u8>, CryptoError>(CryptoError::NotSupported),
    {
        let _ = private_key;
        let _ = message;
        Err(CryptoError::NotSupported)
    }

    /// Verify a quantum-resistant signature: not yet available.
    pub fn verify(public_key: &[u8], message: &[u8], signature: &[u8]) -> (r: Result<
        bool,
        CryptoError,
    >)
        ensures
            r == Err::<bool, CryptoError>(CryptoError::NotSupported),
    {
        let _ = public_key;
        let _ = message;
        let _ = signature;
        Err(CryptoError::NotSupported)
    }
}

} // verus!
