use hypernova_core::chain::Blockchain;
use hypernova_core::consensus::{ActiveConsensus, Consensus, DelegatedProofOfStake, ProofOfAI};
use hypernova_core::storage::MemoryStorage;

fn fresh_chain() -> Blockchain<MemoryStorage> {
    let policy = ActiveConsensus::OracleAttested(ProofOfAI::new("test_model", 7500));
    let mut blockchain = Blockchain::new(MemoryStorage::new(), policy);
    blockchain.initialize().unwrap();
    blockchain
}

#[test]
fn test_proof_of_ai_consensus() {
    let proof_of_ai = ProofOfAI::new("test_model", 7500);
    let blockchain = fresh_chain();
    let block = proof_of_ai.create_block(&blockchain.snapshot()).unwrap();
    let result = proof_of_ai.validate_block(&block, &blockchain.snapshot());
    assert!(result.is_ok());
}

#[test]
fn test_delegated_proof_of_stake_consensus() {
    let dpos = DelegatedProofOfStake::new(21, 1000);
    let blockchain = fresh_chain();
    let block = dpos.create_block(&blockchain.snapshot()).unwrap();
    let result = dpos.validate_block(&block, &blockchain.snapshot());
    // The candidate comes back unsigned; until the producing validator
    // signs it, the stake-weighted policy must reject it.
    assert!(result.is_err());
}

#[test]
fn test_hybrid_consensus() {
    let proof_of_ai = ProofOfAI::new("test_model", 7500);
    let dpos = DelegatedProofOfStake::new(21, 1000);
    let blockchain = fresh_chain();

    let block = proof_of_ai.create_block(&blockchain.snapshot()).unwrap();
    let result = dpos.validate_block(&block, &blockchain.snapshot());
    assert!(result.is_err());

    let block = dpos.create_block(&blockchain.snapshot()).unwrap();
    let result = proof_of_ai.validate_block(&block, &blockchain.snapshot());
    assert!(result.is_err());
}
