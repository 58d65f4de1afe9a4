use hypernova_core::chain::Blockchain;
use hypernova_core::consensus::{ActiveConsensus, Consensus, DelegatedProofOfStake, ProofOfAI};
use hypernova_core::errors::ConsensusPolicyError;
use hypernova_core::storage::MemoryStorage;

#[test]
fn engine_names() {
    let mut poai = ProofOfAI::new("endpoint", 7500);
    let mut dpos = DelegatedProofOfStake::new(21, 1000);
    assert_eq!(poai.name(), "Proof of AI (PoAI)");
    assert_eq!(dpos.name(), "Delegated Proof of Stake (DPoS)");
    poai.init().unwrap();
    dpos.init().unwrap();
}

#[test]
fn dpos_init_elects_seeded_validators() {
    let mut dpos = DelegatedProofOfStake::new(21, 1000);
    dpos.init().unwrap();
    assert!(dpos.is_validator("validator1"));
    assert!(dpos.is_validator("validator2"));
    assert!(dpos.is_validator("validator3"));
    assert!(!dpos.is_validator("stranger"));
    assert_eq!(dpos.get_stake("validator1"), 1000000);
    assert_eq!(dpos.get_stake("validator2"), 800000);
    assert_eq!(dpos.get_stake("validator3"), 600000);
    assert_eq!(dpos.get_stake("stranger"), 0);
}

#[test]
fn roster_ranks_by_stake_then_address() {
    let mut dpos = DelegatedProofOfStake::new(2, 150);
    dpos.set_stake("carol", 200).unwrap();
    dpos.set_stake("alice", 100).unwrap();
    dpos.set_stake("bob", 200).unwrap();
    dpos.update_validators().unwrap();
    // alice is below the minimum stake; bob and carol tie and the tie
    // breaks in address order, so both take the two seats.
    assert!(!dpos.is_validator("alice"));
    assert!(dpos.is_validator("bob"));
    assert!(dpos.is_validator("carol"));

    let mut one_seat = DelegatedProofOfStake::new(1, 150);
    one_seat.set_stake("carol", 200).unwrap();
    one_seat.set_stake("bob", 200).unwrap();
    one_seat.update_validators().unwrap();
    assert!(one_seat.is_validator("bob"));
    assert!(!one_seat.is_validator("carol"));
}

#[test]
fn stake_updates_replace_earlier_entries() {
    let mut dpos = DelegatedProofOfStake::new(3, 10);
    dpos.set_stake("alice", 50).unwrap();
    dpos.set_stake("alice", 5).unwrap();
    assert_eq!(dpos.get_stake("alice"), 5);
    dpos.update_validators().unwrap();
    assert!(!dpos.is_validator("alice"));
}

#[test]
fn create_block_needs_a_tip() {
    let poai = ProofOfAI::new("endpoint", 7500);
    let dpos = DelegatedProofOfStake::new(21, 1000);
    let chain = Blockchain::new(
        MemoryStorage::new(),
        ActiveConsensus::OracleAttested(ProofOfAI::new("endpoint", 7500)),
    );
    let snapshot = chain.snapshot();
    assert!(matches!(
        poai.create_block(&snapshot),
        Err(ConsensusPolicyError::EmptyChain)
    ));
    assert!(matches!(
        dpos.create_block(&snapshot),
        Err(ConsensusPolicyError::EmptyChain)
    ));
}

#[test]
fn oracle_block_carries_attestation_only() {
    let poai = ProofOfAI::new("endpoint", 7500);
    let mut chain = Blockchain::new(
        MemoryStorage::new(),
        ActiveConsensus::OracleAttested(ProofOfAI::new("endpoint", 7500)),
    );
    chain.initialize().unwrap();
    let block = poai.create_block(&chain.snapshot()).unwrap();
    assert_eq!(block.ai_proof, Some(vec![1, 2, 3, 4]));
    assert!(block.validator_signature.is_none());
    let bare = hypernova_core::block::Block::new("0".repeat(64), 1, Vec::new(), 0);
    assert!(matches!(
        poai.validate_block(&bare, &chain.snapshot()),
        Err(ConsensusPolicyError::MissingProof)
    ));
}

#[test]
fn stake_candidate_is_unsigned_and_unattested() {
    let dpos = DelegatedProofOfStake::new(21, 1000);
    let mut chain = Blockchain::new(
        MemoryStorage::new(),
        ActiveConsensus::StakeWeighted(DelegatedProofOfStake::new(21, 1000)),
    );
    chain.initialize().unwrap();
    let block = dpos.create_block(&chain.snapshot()).unwrap();
    assert!(block.ai_proof.is_none());
    assert!(block.validator_signature.is_none());
    assert!(matches!(
        dpos.validate_block(&block, &chain.snapshot()),
        Err(ConsensusPolicyError::MissingValidatorSignature)
    ));
}

#[test]
fn oracle_rejects_foreign_attestation() {
    let poai = ProofOfAI::new("endpoint", 7500);
    let mut chain = Blockchain::new(
        MemoryStorage::new(),
        ActiveConsensus::OracleAttested(ProofOfAI::new("endpoint", 7500)),
    );
    chain.initialize().unwrap();
    let mut block = poai.create_block(&chain.snapshot()).unwrap();
    block.add_ai_proof(vec![9, 9, 9]);
    assert!(matches!(
        poai.validate_block(&block, &chain.snapshot()),
        Err(ConsensusPolicyError::InvalidProof)
    ));
    assert!(matches!(
        chain.add_block(block),
        Err(hypernova_core::errors::ChainError::Policy(ConsensusPolicyError::InvalidProof))
    ));
}
