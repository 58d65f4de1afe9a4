use hypernova_core::crypto::{Signature, SignatureType};
use hypernova_core::transaction::{Transaction, TransactionType};

fn fixed_transaction() -> Transaction {
    Transaction {
        tx_type: TransactionType::Transfer,
        from: "A".to_string(),
        to: Some("B".to_string()),
        amount: Some(10),
        data: None,
        fee: 1,
        nonce: 0,
        timestamp: 1700000000,
        signature: None,
        quantum_signature: None,
    }
}

#[test]
fn hash_unchanged_by_sign() {
    let mut tx = fixed_transaction();
    let before = tx.hash();
    tx.sign(Signature { bytes: vec![9, 9, 9], sig_type: SignatureType::Ed25519 });
    assert_eq!(tx.hash(), before);
}

#[test]
fn hash_unchanged_by_quantum_signature() {
    let mut tx = fixed_transaction();
    let before = tx.hash();
    tx.add_quantum_signature(vec![7, 7, 7, 7]);
    assert_eq!(tx.hash(), before);
    tx.sign(Signature { bytes: vec![1], sig_type: SignatureType::QuantumResistant });
    assert_eq!(tx.hash(), before);
}

#[test]
fn hash_is_deterministic_over_content() {
    let a = fixed_transaction();
    let b = fixed_transaction();
    assert_eq!(a.hash(), b.hash());
    assert_eq!(a.hash().len(), 64);
}

#[test]
fn hash_changes_with_content() {
    let a = fixed_transaction();
    let mut b = fixed_transaction();
    b.amount = Some(11);
    assert_ne!(a.hash(), b.hash());
}

#[test]
fn verify_signature_reports_presence() {
    let mut tx = fixed_transaction();
    assert!(!tx.verify_signature());
    tx.sign(Signature { bytes: vec![1, 2], sig_type: SignatureType::Ed25519 });
    assert!(tx.verify_signature());
}

#[test]
fn new_stamps_empty_signatures() {
    let tx = Transaction::new(
        TransactionType::GovernanceVote,
        "voter".to_string(),
        None,
        None,
        Some(vec![1, 2, 3]),
        5,
        42,
    );
    assert!(tx.signature.is_none());
    assert!(tx.quantum_signature.is_none());
    assert_eq!(tx.fee, 5);
    assert_eq!(tx.nonce, 42);
}
