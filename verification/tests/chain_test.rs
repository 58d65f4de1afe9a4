use hypernova_core::block::Block;
use hypernova_core::chain::Blockchain;
use hypernova_core::consensus::{ActiveConsensus, Consensus, DelegatedProofOfStake, ProofOfAI};
use hypernova_core::crypto::KeyPair;
use hypernova_core::errors::{
    ChainError, ConsensusPolicyError, SignatureError, StorageError, StructuralError,
};
use hypernova_core::storage::{MemoryStorage, Storage};
use hypernova_core::transaction::{Transaction, TransactionType};

fn oracle_policy() -> ActiveConsensus {
    ActiveConsensus::OracleAttested(ProofOfAI::new("test_model", 7500))
}

fn stake_policy() -> ActiveConsensus {
    ActiveConsensus::StakeWeighted(DelegatedProofOfStake::new(21, 1000))
}

fn signed_transfer() -> Transaction {
    let mut tx = Transaction::new(
        TransactionType::Transfer,
        "A".to_string(),
        Some("B".to_string()),
        Some(10),
        None,
        1,
        0,
    );
    let keypair = KeyPair::generate().unwrap();
    let signature = keypair.sign(tx.hash().as_bytes());
    tx.sign(signature);
    tx
}

#[test]
fn genesis_created_on_fresh_store() {
    let mut chain = Blockchain::new(MemoryStorage::new(), oracle_policy());
    chain.initialize().unwrap();
    assert_eq!(chain.get_height(), 0);
    let genesis = chain.get_latest_block().unwrap();
    assert_eq!(genesis.header.height, 0);
    assert_eq!(genesis.header.prev_hash, "0".repeat(64));
    assert!(genesis.transactions.is_empty());
}

#[test]
fn empty_ledger_rejects_nonzero_height() {
    let mut chain = Blockchain::new(MemoryStorage::new(), oracle_policy());
    let block = Block::new("0".repeat(64), 5, Vec::new(), 0);
    let result = chain.add_block(block);
    assert!(matches!(
        result,
        Err(ChainError::Structure(StructuralError::NonZeroGenesisHeight))
    ));
}

#[test]
fn genesis_accepted_once() {
    let mut chain = Blockchain::new(MemoryStorage::new(), oracle_policy());
    let mut first = Block::new("0".repeat(64), 0, Vec::new(), 0);
    first.add_ai_proof(vec![1, 2, 3, 4]);
    chain.add_block(first).unwrap();
    let mut second = Block::new("0".repeat(64), 0, Vec::new(), 0);
    second.add_ai_proof(vec![1, 2, 3, 4]);
    let result = chain.add_block(second);
    assert!(matches!(
        result,
        Err(ChainError::Structure(StructuralError::HeightMismatch))
    ));
}

#[test]
fn wrong_prev_hash_rejected() {
    let mut chain = Blockchain::new(MemoryStorage::new(), oracle_policy());
    chain.initialize().unwrap();
    let mut block = Block::new("ab".repeat(32), 1, Vec::new(), 0);
    block.add_ai_proof(vec![1, 2, 3, 4]);
    let result = chain.add_block(block);
    assert!(matches!(
        result,
        Err(ChainError::Structure(StructuralError::PrevHashMismatch))
    ));
}

#[test]
fn unsigned_transaction_rejected_in_block() {
    let mut chain = Blockchain::new(MemoryStorage::new(), oracle_policy());
    chain.initialize().unwrap();
    let tip = chain.get_latest_block().unwrap();
    let unsigned = Transaction::new(
        TransactionType::Transfer,
        "A".to_string(),
        Some("B".to_string()),
        Some(10),
        None,
        1,
        0,
    );
    let mut block = Block::new(tip.hash(), 1, vec![unsigned], 0);
    block.add_ai_proof(vec![1, 2, 3, 4]);
    let result = chain.add_block(block);
    assert!(matches!(
        result,
        Err(ChainError::Signature(SignatureError::MissingTransactionSignature))
    ));
}

#[test]
fn pending_pool_grows_by_one_per_submission() {
    let mut chain = Blockchain::new(MemoryStorage::new(), oracle_policy());
    chain.initialize().unwrap();
    let tx1 = signed_transfer();
    chain.add_transaction(tx1).unwrap();
    assert_eq!(chain.get_pending_transactions().len(), 1);
}

#[test]
fn unsigned_transaction_rejected_from_pool() {
    let mut chain = Blockchain::new(MemoryStorage::new(), oracle_policy());
    chain.initialize().unwrap();
    let unsigned = Transaction::new(
        TransactionType::Transfer,
        "A".to_string(),
        None,
        None,
        None,
        1,
        0,
    );
    let result = chain.add_transaction(unsigned);
    assert!(matches!(
        result,
        Err(ChainError::Signature(SignatureError::MissingTransactionSignature))
    ));
    assert_eq!(chain.get_pending_transactions().len(), 0);
}

#[test]
fn no_submission_lost_over_many_workers() {
    let mut chain = Blockchain::new(MemoryStorage::new(), oracle_policy());
    chain.initialize().unwrap();
    let workers = 8;
    for _ in 0..workers {
        chain.add_transaction(signed_transfer()).unwrap();
    }
    assert_eq!(chain.get_pending_transactions().len(), workers);
}

#[test]
fn oracle_block_committed_and_pool_drained() {
    let engine = ProofOfAI::new("test_model", 7500);
    let mut chain = Blockchain::new(MemoryStorage::new(), oracle_policy());
    chain.initialize().unwrap();
    let tx1 = signed_transfer();
    chain.add_transaction(tx1).unwrap();

    let block = engine.create_block(&chain.snapshot()).unwrap();
    assert_eq!(block.header.height, 1);
    assert_eq!(block.transactions.len(), 1);
    assert!(block.ai_proof.is_some());
    chain.add_block(block).unwrap();
    assert_eq!(chain.get_height(), 1);
    assert_eq!(chain.get_pending_transactions().len(), 0);
}

#[test]
fn policy_switch_rejects_oracle_block() {
    let engine = ProofOfAI::new("test_model", 7500);
    let mut chain = Blockchain::new(MemoryStorage::new(), oracle_policy());
    chain.initialize().unwrap();
    chain.add_transaction(signed_transfer()).unwrap();
    let block = engine.create_block(&chain.snapshot()).unwrap();

    let dpos = DelegatedProofOfStake::new(21, 1000);
    let verdict = dpos.validate_block(&block, &chain.snapshot());
    assert!(matches!(
        verdict,
        Err(ConsensusPolicyError::MissingValidatorSignature)
    ));

    chain.set_policy(stake_policy());
    let result = chain.add_block(block);
    assert!(matches!(
        result,
        Err(ChainError::Policy(ConsensusPolicyError::MissingValidatorSignature))
    ));
}

#[test]
fn restart_against_same_store_restores_state() {
    let engine = ProofOfAI::new("test_model", 7500);
    let mut chain = Blockchain::new(MemoryStorage::new(), oracle_policy());
    chain.initialize().unwrap();
    chain.add_transaction(signed_transfer()).unwrap();
    let block = engine.create_block(&chain.snapshot()).unwrap();
    chain.add_block(block).unwrap();
    let height_before = chain.get_height();
    let tip_before = chain.get_latest_block().unwrap().hash();

    let store = chain.into_storage();
    let mut reloaded = Blockchain::new(store, oracle_policy());
    reloaded.initialize().unwrap();
    assert_eq!(reloaded.get_height(), height_before);
    assert_eq!(reloaded.get_latest_block().unwrap().hash(), tip_before);
}

#[test]
fn heights_index_the_chain() {
    let engine = ProofOfAI::new("test_model", 7500);
    let mut chain = Blockchain::new(MemoryStorage::new(), oracle_policy());
    chain.initialize().unwrap();
    for _ in 0..3 {
        let block = engine.create_block(&chain.snapshot()).unwrap();
        chain.add_block(block).unwrap();
    }
    assert_eq!(chain.get_height(), 3);
    for h in 0..4u64 {
        let block = chain.get_block_by_height(h).unwrap();
        assert_eq!(block.header.height, h);
    }
    assert!(chain.get_block_by_height(4).is_none());
}

#[test]
fn blocks_found_by_hash() {
    let engine = ProofOfAI::new("test_model", 7500);
    let mut chain = Blockchain::new(MemoryStorage::new(), oracle_policy());
    chain.initialize().unwrap();
    let block = engine.create_block(&chain.snapshot()).unwrap();
    let hash = block.hash();
    chain.add_block(block).unwrap();
    let found = chain.get_block_by_hash(&hash).unwrap();
    assert_eq!(found.header.height, 1);
    assert!(chain.get_block_by_hash(&"0".repeat(64)).is_none());
}

#[test]
fn corrupt_store_rejected_on_initialize() {
    let mut store = MemoryStorage::new();
    let stray = Block::new("0".repeat(64), 7, Vec::new(), 0);
    store.store_block(&stray).unwrap();
    let mut chain = Blockchain::new(store, oracle_policy());
    let result = chain.initialize();
    assert!(matches!(
        result,
        Err(ChainError::Storage(StorageError::Corrupt))
    ));
}

#[test]
fn stake_block_commits_under_stake_policy_once_signed() {
    let dpos = DelegatedProofOfStake::new(21, 1000);
    let mut chain = Blockchain::new(MemoryStorage::new(), stake_policy());
    chain.initialize().unwrap();
    let mut block = dpos.create_block(&chain.snapshot()).unwrap();

    // The unsigned candidate is rejected; the producing validator signs
    // it, and then it commits.
    let unsigned = dpos.create_block(&chain.snapshot()).unwrap();
    assert!(matches!(
        chain.add_block(unsigned),
        Err(ChainError::Policy(ConsensusPolicyError::MissingValidatorSignature))
    ));

    let keypair = KeyPair::generate().unwrap();
    let signature = keypair.sign(block.hash().as_bytes());
    block.sign(signature);
    chain.add_block(block).unwrap();
    assert_eq!(chain.get_height(), 1);
}

#[test]
fn oracle_policy_rejects_stake_block() {
    let dpos = DelegatedProofOfStake::new(21, 1000);
    let mut chain = Blockchain::new(MemoryStorage::new(), oracle_policy());
    chain.initialize().unwrap();
    let block = dpos.create_block(&chain.snapshot()).unwrap();
    let result = chain.add_block(block);
    assert!(matches!(
        result,
        Err(ChainError::Policy(ConsensusPolicyError::MissingProof))
    ));
    assert_eq!(chain.get_height(), 0);
}
