//! The consensus abstraction and its two policies.
//!
//! Both engines build block proposals the same way, from the ledger's tip
//! and pending pool; they differ in the evidence a block must carry. The
//! oracle-attested policy demands an oracle attestation
//! ([`spec_oracle_verdict`]); the stake-weighted policy demands a validator
//! signature ([`spec_stake_verdict`]). Each policy therefore rejects a block
//! produced by the other: see [`lemma_stake_block_rejected_by_oracle`] and
//! [`lemma_oracle_block_rejected_by_stake`].

use vstd::prelude::*;

verus! {

use vstd::utf8::encode_utf8;
use crate::block::{spec_block_hash, spec_merkle_root, Block, BlockData};
use crate::chain::ChainSnapshot;
use crate::errors::ConsensusPolicyError;
use crate::transaction::copy_transactions;
use crate::utils::{bytes_eq, str_eq};

/// The oracle-attested policy's judgement of a block: it must carry the
/// oracle's attestation. The oracle is an absent collaborator standing in
/// as a fixed placeholder, so a valid attestation is exactly
/// [`spec_oracle_attestation`]; the configured confidence threshold cannot
/// be consulted until the oracle reports a confidence with its attestation.
pub open spec fn spec_oracle_verdict(b: BlockData) -> Result<(), ConsensusPolicyError> {
    match b.ai_proof {
        None => Err(ConsensusPolicyError::MissingProof),
        Some(p) => if p == spec_oracle_attestation() {
            Ok(())
        } else {
            Err(ConsensusPolicyError::InvalidProof)
        },
    }
}

/// The stake-weighted policy's judgement of a block: it must carry a
/// validator signature.
pub open spec fn spec_stake_verdict(b: BlockData) -> Result<(), ConsensusPolicyError> {
    if b.validator_signature is Some {
        Ok(())
    } else {
        Err(ConsensusPolicyError::MissingValidatorSignature)
    }
}

/// Law: a block produced by the stake-weighted policy carries no oracle
/// attestation, so the oracle-attested policy rejects it.
pub proof fn lemma_stake_block_rejected_by_oracle(b: BlockData)
    requires
        b.ai_proof is None,
    ensures
        spec_oracle_verdict(b) == Err::<(), ConsensusPolicyError>(
            ConsensusPolicyError::MissingProof,
        ),
{
}

/// Law: a block produced by the oracle-attested policy carries no validator
/// signature, so the stake-weighted policy rejects it.
pub proof fn lemma_oracle_block_rejected_by_stake(b: BlockData)
    requires
        b.validator_signature is None,
    ensures
        spec_stake_verdict(b) == Err::<(), ConsensusPolicyError>(
            ConsensusPolicyError::MissingValidatorSignature,
        ),
{
}

/// What both policies build a proposal from: the snapshot's tip and pending
/// pool, with the next height and the tip's hash as linkage.
pub open spec fn spec_candidate_shape(b: BlockData, chain: crate::chain::ChainSnapshotData) -> bool {
    &&& chain.tip is Some
    &&& b.header.height == chain.tip->Some_0.header.height + 1
    &&& b.header.prev_hash == spec_block_hash(chain.tip->Some_0.header)
    &&& b.header.merkle_root == spec_merkle_root(chain.pending)
    &&& b.transactions == chain.pending
    &&& b.header.version == 1
    &&& b.header.difficulty == 0
    &&& b.header.nonce == 0
    &&& b.header.shard_id == 0
}

/// A consensus policy: proposes blocks from a ledger snapshot and judges
/// blocks against its rule set. `validate_block` must be a function of its
/// inputs alone, so that independent nodes can replay it and agree.
pub trait Consensus: Sized {
    /// Initialize the policy's state (its roster or stake table).
    fn init(&mut self) -> (r: Result<(), ConsensusPolicyError>);

    /// Build a block proposal from the ledger snapshot's tip and pending
    /// pool.
    fn create_block(&self, chain: &ChainSnapshot) -> (r: Result<Block, ConsensusPolicyError>)
        requires
            chain@.tip is Some ==> chain@.tip->Some_0.header.height < u64::MAX,
        ensures
            chain@.tip is None ==> r == Err::<Block, ConsensusPolicyError>(
                ConsensusPolicyError::EmptyChain,
            ),
            r is Ok ==> spec_candidate_shape(r->Ok_0@, chain@),
    ;

    /// Judge a block against the policy's rule set.
    fn validate_block(&self, block: &Block, chain: &ChainSnapshot) -> (r: Result<
        (),
        ConsensusPolicyError,
    >);

    /// The name of the policy.
    fn name(&self) -> (r: &'static str);
}

/// The attestation the oracle returns for a candidate block.
///
/// The oracle endpoint is an external collaborator that is not yet wired
/// in; until it is, the attestation is this fixed placeholder blob.
pub open spec fn spec_oracle_attestation() -> Seq<u8> {
    seq![1u8, 2u8, 3u8, 4u8]
}

/// The oracle-attested policy ("Proof of AI"): a block must carry an
/// attestation from the configured oracle.
pub struct ProofOfAI {
    ai_endpoint: String,
    confidence_threshold: u64,
    validators: Vec<String>,
}

impl ProofOfAI {
    /// The configured oracle endpoint.
    pub closed spec fn endpoint_view(&self) -> Seq<char> {
        self.ai_endpoint@
    }

    /// The configured confidence threshold, in basis points.
    pub closed spec fn threshold(&self) -> u64 {
        self.confidence_threshold
    }

    /// The current validator roster.
    pub closed spec fn validators_view(&self) -> Seq<Seq<char>> {
        self.validators.deep_view()
    }

    /// Create a new oracle-attested policy. The confidence threshold is
    /// given in basis points (one hundredth of a percent).
    pub fn new(ai_endpoint: &str, confidence_threshold: u64) -> (r: ProofOfAI)
        ensures
            r.endpoint_view() == ai_endpoint@,
            r.threshold() == confidence_threshold,
            r.validators_view() == Seq::<Seq<char>>::empty(),
    {
        let r = ProofOfAI {
            ai_endpoint: ai_endpoint.to_owned(),
            confidence_threshold,
            validators: Vec::new(),
        };
        proof {
            assert(r.validators_view() =~= Seq::<Seq<char>>::empty());
        }
        r
    }

    /// Request an attestation for a candidate block from the oracle. The
    /// endpoint is not yet wired in, so the attestation is a fixed blob.
    fn generate_ai_proof(&self, block: &Block) -> (r: Result<Vec<u8>, ConsensusPolicyError>)
        ensures
            r is Ok,
            r->Ok_0@ == spec_oracle_attestation(),
    {
        let _ = block;
        let mut attestation: Vec<u8> = Vec::new();
        attestation.push(1);
        attestation.push(2);
        attestation.push(3);
        attestation.push(4);
        proof {
            assert(attestation@ =~= spec_oracle_attestation());
        }
        Ok(attestation)
    }

    /// Check a block's attestation against the oracle's output for it:
    /// today the fixed placeholder blob. A missing attestation and a blob
    /// the oracle did not produce are distinct faults.
    fn verify_ai_proof(&self, block: &Block) -> (r: Result<bool, ConsensusPolicyError>)
        ensures
            r == match block@.ai_proof {
                None => Err::<bool, ConsensusPolicyError>(ConsensusPolicyError::MissingProof),
                Some(p) => if p == spec_oracle_attestation() {
                    Ok::<bool, ConsensusPolicyError>(true)
                } else {
                    Err::<bool, ConsensusPolicyError>(ConsensusPolicyError::InvalidProof)
                },
            },
    {
        let expected = match self.generate_ai_proof(block) {
            Ok(a) => a,
            Err(e) => {
                return Err(e);
            },
        };
        match &block.ai_proof {
            None => Err(ConsensusPolicyError::MissingProof),
            Some(p) => {
                proof {
                    assert(block@.ai_proof == Some(p@));
                }
                if bytes_eq(p.as_slice(), expected.as_slice()) {
                    Ok(true)
                } else {
                    Err(ConsensusPolicyError::InvalidProof)
                }
            },
        }
    }
}

impl Consensus for ProofOfAI {
    /// Load the validator roster. The roster is seeded with the three
    /// well-known validators until roster persistence exists.
    fn init(&mut self) -> (r: Result<(), ConsensusPolicyError>)
        ensures
            r is Ok,
            final(self).validators_view().len() == 3,
            final(self).validators_view()[0] == "validator1"@,
            final(self).validators_view()[1] == "validator2"@,
            final(self).validators_view()[2] == "validator3"@,
            final(self).endpoint_view() == old(self).endpoint_view(),
            final(self).threshold() == old(self).threshold(),
    {
        let mut roster: Vec<String> = Vec::new();
        roster.push("validator1".to_owned());
        roster.push("validator2".to_owned());
        roster.push("validator3".to_owned());
        self.validators = roster;
        Ok(())
    }

    fn create_block(&self, chain: &ChainSnapshot) -> (r: Result<Block, ConsensusPolicyError>)
        ensures
            r is Ok <==> chain@.tip is Some,
            r is Ok ==> ({
                let b = r->Ok_0@;
                &&& b.ai_proof == Some(spec_oracle_attestation())
                &&& b.validator_signature is None
            }),
    {
        let tip = match &chain.tip {
            Some(tip) => tip,
            None => {
                return Err(ConsensusPolicyError::EmptyChain);
            },
        };
        let prev_hash = tip.hash();
        let height = tip.header.height + 1;
        let transactions = copy_transactions(&chain.pending);
        let mut block = Block::new(prev_hash, height, transactions, 0);
        let attestation = match self.generate_ai_proof(&block) {
            Ok(a) => a,
            Err(e) => {
                return Err(e);
            },
        };
        block.add_ai_proof(attestation);
        Ok(block)
    }

    fn validate_block(&self, block: &Block, chain: &ChainSnapshot) -> (r: Result<
        (),
        ConsensusPolicyError,
    >)
        ensures
            r == spec_oracle_verdict(block@),
    {
        let _ = chain;
        match self.verify_ai_proof(block) {
            Ok(_) => Ok(()),
            Err(e) => Err(e),
        }
    }

    fn name(&self) -> (r: &'static str)
        ensures
            r@ == "Proof of AI (PoAI)"@,
    {
        "Proof of AI (PoAI)"
    }
}

/// Whether byte string `a` stands strictly before `b` in lexicographic
/// order.
pub open spec fn spec_bytes_lt(a: Seq<u8>, b: Seq<u8>) -> bool
    decreases a.len(),
{
    if b.len() == 0 {
        false
    } else if a.len() == 0 {
        true
    } else if a[0] < b[0] {
        true
    } else if a[0] > b[0] {
        false
    } else {
        spec_bytes_lt(a.drop_first(), b.drop_first())
    }
}

proof fn lemma_bytes_lt_common_prefix(a: Seq<u8>, b: Seq<u8>, i: int)
    requires
        0 <= i <= a.len(),
        i <= b.len(),
        forall|j: int| 0 <= j < i ==> a[j] == b[j],
    ensures
        spec_bytes_lt(a, b) == spec_bytes_lt(a.skip(i), b.skip(i)),
    decreases i,
{
    if i > 0 {
        assert(a.len() > 0 && b.len() > 0);
        assert(a[0] == b[0]);
        assert(a.drop_first() =~= a.skip(1));
        assert(b.drop_first() =~= b.skip(1));
        lemma_bytes_lt_common_prefix(a.skip(1), b.skip(1), i - 1);
        assert(a.skip(1).skip(i - 1) =~= a.skip(i));
        assert(b.skip(1).skip(i - 1) =~= b.skip(i));
    } else {
        assert(a.skip(0) =~= a);
        assert(b.skip(0) =~= b);
    }
}

/// Whether string `a` stands strictly before `b` in the byte-wise
/// lexicographic order of their UTF-8 forms.
#[verifier::loop_isolation(false)]
fn str_lt(a: &str, b: &str) -> (r: bool)
    ensures
        r == spec_bytes_lt(encode_utf8(a@), encode_utf8(b@)),
{
    let ab = a.as_bytes();
    let bb = b.as_bytes();
    let na = ab.len();
    let nb = bb.len();
    let mut i: usize = 0;
    while i < na && i < nb
        invariant
            i <= na,
            i <= nb,
            forall|j: int| 0 <= j < i ==> ab@[j] == bb@[j],
        decreases na - i,
    {
        let x = ab[i];
        let y = bb[i];
        if x < y {
            proof {
                lemma_bytes_lt_common_prefix(ab@, bb@, i as int);
            }
            return true;
        }
        if x > y {
            proof {
                lemma_bytes_lt_common_prefix(ab@, bb@, i as int);
            }
            return false;
        }
        i = i + 1;
    }
    proof {
        let k = if na < nb {
            na as int
        } else {
            nb as int
        };
        lemma_bytes_lt_common_prefix(ab@, bb@, k);
    }
    na < nb
}

/// The entries of a stake table with at least the minimum stake, in table
/// order.
pub open spec fn spec_eligible(stakes: Seq<(Seq<char>, u64)>, min_stake: u64) -> Seq<
    (Seq<char>, u64),
>
    decreases stakes.len(),
{
    if stakes.len() == 0 {
        Seq::empty()
    } else {
        spec_eligible(stakes.drop_last(), min_stake) + if stakes.last().1 >= min_stake {
            seq![stakes.last()]
        } else {
            Seq::empty()
        }
    }
}

/// Whether stake entry `a` ranks strictly before `b`: more stake first,
/// ties broken by lexicographic address order, so that the roster is
/// deterministic.
pub open spec fn spec_ranks_before(a: (Seq<char>, u64), b: (Seq<char>, u64)) -> bool {
    a.1 > b.1 || (a.1 == b.1 && spec_bytes_lt(encode_utf8(a.0), encode_utf8(b.0)))
}

/// A stake entry inserted into a ranked list, before the first entry it
/// outranks.
pub open spec fn spec_rank_insert(s: Seq<(Seq<char>, u64)>, x: (Seq<char>, u64)) -> Seq<
    (Seq<char>, u64),
>
    decreases s.len(),
{
    if s.len() == 0 {
        seq![x]
    } else if spec_ranks_before(x, s[0]) {
        seq![x] + s
    } else {
        seq![s[0]] + spec_rank_insert(s.drop_first(), x)
    }
}

/// A stake table ranked by [`spec_ranks_before`], built by insertion.
pub open spec fn spec_ranked(s: Seq<(Seq<char>, u64)>) -> Seq<(Seq<char>, u64)>
    decreases s.len(),
{
    if s.len() == 0 {
        Seq::empty()
    } else {
        spec_rank_insert(spec_ranked(s.drop_last()), s.last())
    }
}

/// The elected roster: the eligible stake entries, ranked, the top
/// `count` of them, addresses only.
pub open spec fn spec_elected(stakes: Seq<(Seq<char>, u64)>, min_stake: u64, count: int) -> Seq<
    Seq<char>,
> {
    let ranked = spec_ranked(spec_eligible(stakes, min_stake));
    let k = if count < ranked.len() {
        count
    } else {
        ranked.len() as int
    };
    ranked.take(k).map_values(|p: (Seq<char>, u64)| p.0)
}

proof fn lemma_rank_insert_at(s: Seq<(Seq<char>, u64)>, x: (Seq<char>, u64), i: int)
    requires
        0 <= i <= s.len(),
        forall|j: int| 0 <= j < i ==> !spec_ranks_before(x, #[trigger] s[j]),
        i < s.len() ==> spec_ranks_before(x, s[i]),
    ensures
        spec_rank_insert(s, x) == s.take(i) + seq![x] + s.skip(i),
    decreases i,
{
    if i == 0 {
        if s.len() == 0 {
            assert(spec_rank_insert(s, x) =~= s.take(0) + seq![x] + s.skip(0));
        } else {
            assert(spec_rank_insert(s, x) =~= s.take(0) + seq![x] + s.skip(0));
        }
    } else {
        assert(!spec_ranks_before(x, s[0]));
        lemma_rank_insert_at(s.drop_first(), x, i - 1);
        assert(s.drop_first() =~= s.skip(1));
        assert(s.skip(1).take(i - 1) =~= s.take(i).skip(1));
        assert(s.skip(1).skip(i - 1) =~= s.skip(i));
        assert(seq![s[0]] + (s.skip(1).take(i - 1) + seq![x] + s.skip(1).skip(i - 1)) =~= s.take(i)
            + seq![x] + s.skip(i));
    }
}

/// The stake-weighted policy ("Delegated Proof of Stake"): a block must
/// carry a validator signature, and the roster is elected from the stake
/// table.
pub struct DelegatedProofOfStake {
    validator_count: usize,
    min_stake: u64,
    validators: Vec<String>,
    stakes: Vec<(String, u64)>,
}

impl DelegatedProofOfStake {
    /// The number of roster seats.
    pub closed spec fn count(&self) -> usize {
        self.validator_count
    }

    /// The minimum stake for eligibility.
    pub closed spec fn min_stake_view(&self) -> u64 {
        self.min_stake
    }

    /// The elected roster.
    pub closed spec fn validators_view(&self) -> Seq<Seq<char>> {
        self.validators.deep_view()
    }

    /// The stake table, in insertion order.
    pub closed spec fn stakes_view(&self) -> Seq<(Seq<char>, u64)> {
        Seq::new(self.stakes@.len(), |i: int| (self.stakes@[i].0@, self.stakes@[i].1))
    }

    /// Create a new stake-weighted policy with a roster size and a minimum
    /// stake.
    pub fn new(validator_count: usize, min_stake: u64) -> (r: DelegatedProofOfStake)
        ensures
            r.count() == validator_count,
            r.min_stake_view() == min_stake,
            r.validators_view() == Seq::<Seq<char>>::empty(),
            r.stakes_view() == Seq::<(Seq<char>, u64)>::empty(),
    {
        let r = DelegatedProofOfStake {
            validator_count,
            min_stake,
            validators: Vec::new(),
            stakes: Vec::new(),
        };
        proof {
            assert(r.validators_view() =~= Seq::<Seq<char>>::empty());
            assert(r.stakes_view() =~= Seq::<(Seq<char>, u64)>::empty());
        }
        r
    }

    /// Whether an address is in the elected roster.
    pub fn is_validator(&self, address: &str) -> (r: bool)
        ensures
            r == self.validators_view().contains(address@),
    {
        let n = self.validators.len();
        let mut i: usize = 0;
        while i < n
            invariant
                n == self.validators@.len(),
                i <= n,
                forall|j: int| 0 <= j < i ==> self.validators_view()[j] != address@,
            decreases n - i,
        {
            if str_eq(self.validators[i].as_str(), address) {
                proof {
                    assert(self.validators_view()[i as int] == address@);
                }
                return true;
            }
            proof {
                assert(self.validators_view()[i as int] == self.validators@[i as int]@);
            }
            i = i + 1;
        }
        proof {
            if self.validators_view().contains(address@) {
                let w = choose|j: int|
                    0 <= j < self.validators_view().len() && self.validators_view()[j] == address@;
                assert(self.validators_view()[w] != address@);
            }
        }
        false
    }

    /// The stake held by an address: its first entry in the table, or 0.
    pub open spec fn spec_stake_of(stakes: Seq<(Seq<char>, u64)>, address: Seq<char>) -> u64
        decreases stakes.len(),
    {
        if stakes.len() == 0 {
            0
        } else if stakes[0].0 == address {
            stakes[0].1
        } else {
            Self::spec_stake_of(stakes.drop_first(), address)
        }
    }

    /// The stake of an address, 0 where none is registered.
    #[verifier::loop_isolation(false)]
    pub fn get_stake(&self, address: &str) -> (r: u64)
        ensures
            r == Self::spec_stake_of(self.stakes_view(), address@),
    {
        let n = self.stakes.len();
        proof {
            assert(self.stakes_view().skip(0) =~= self.stakes_view());
        }
        let mut i: usize = 0;
        while i < n
            invariant
                i <= n,
                Self::spec_stake_of(self.stakes_view(), address@) == Self::spec_stake_of(
                    self.stakes_view().skip(i as int),
                    address@,
                ),
            decreases n - i,
        {
            proof {
                assert(self.stakes_view().skip(i as int)[0] == self.stakes_view()[i as int]);
            }
            if str_eq(self.stakes[i].0.as_str(), address) {
                return self.stakes[i].1;
            }
            proof {
                assert(self.stakes_view().skip(i as int).drop_first() =~= self.stakes_view().skip(
                    i + 1,
                ));
            }
            i = i + 1;
        }
        proof {
            assert(self.stakes_view().skip(n as int) =~= Seq::<(Seq<char>, u64)>::empty());
        }
        0
    }

    /// Register or update an address's stake. The address keeps a single
    /// entry in the table.
    #[verifier::loop_isolation(false)]
    pub fn set_stake(&mut self, address: &str, amount: u64) -> (r: Result<(), ConsensusPolicyError>)
        ensures
            r is Ok,
            ({
                let stakes = old(self).stakes_view();
                let updated = final(self).stakes_view();
                if exists|i: int| 0 <= i < stakes.len() && stakes[i].0 == address@ {
                    exists|i: int|
                        0 <= i < stakes.len() && stakes[i].0 == address@ && (forall|j: int|
                            0 <= j < i ==> stakes[j].0 != address@) && updated == stakes.update(
                            i,
                            (address@, amount),
                        )
                } else {
                    updated == stakes.push((address@, amount))
                }
            }),
            final(self).validators_view() == old(self).validators_view(),
            final(self).count() == old(self).count(),
            final(self).min_stake_view() == old(self).min_stake_view(),
    {
        let n = self.stakes.len();
        let mut i: usize = 0;
        while i < n
            invariant
                i <= n,
                forall|j: int| 0 <= j < i ==> old(self).stakes_view()[j].0 != address@,
                self == old(self),
            decreases n - i,
        {
            if str_eq(self.stakes[i].0.as_str(), address) {
                proof {
                    assert(old(self).stakes_view()[i as int].0 == address@);
                }
                self.stakes.set(i, (address.to_owned(), amount));
                proof {
                    assert(self.stakes_view() =~= old(self).stakes_view().update(
                        i as int,
                        (address@, amount),
                    ));
                }
                return Ok(());
            }
            proof {
                assert(old(self).stakes_view()[i as int] == (self.stakes@[i as int].0@,
                self.stakes@[i as int].1));
            }
            i = i + 1;
        }
        self.stakes.push((address.to_owned(), amount));
        proof {
            assert(self.stakes_view() =~= old(self).stakes_view().push((address@, amount)));
            if exists|k: int|
                0 <= k < old(self).stakes_view().len() && old(self).stakes_view()[k].0
                    == address@ {
                let w = choose|k: int|
                    0 <= k < old(self).stakes_view().len() && old(self).stakes_view()[k].0
                        == address@;
                assert(old(self).stakes_view()[w].0 != address@);
            }
        }
        Ok(())
    }

    /// Recompute the elected roster from the stake table: the eligible
    /// addresses ranked by stake, ties broken by address, the top seats
    /// taken. Invoked after stake changes.
    #[verifier::loop_isolation(false)]
    pub fn update_validators(&mut self) -> (r: Result<(), ConsensusPolicyError>)
        ensures
            r is Ok,
            final(self).validators_view() == spec_elected(
                old(self).stakes_view(),
                old(self).min_stake_view(),
                old(self).count() as int,
            ),
            final(self).stakes_view() == old(self).stakes_view(),
            final(self).count() == old(self).count(),
            final(self).min_stake_view() == old(self).min_stake_view(),
    {
        let ghost stakes = self.stakes_view();
        let n = self.stakes.len();

        // Collect the eligible entries, in table order.
        let mut eligible: Vec<(String, u64)> = Vec::new();
        let mut i: usize = 0;
        while i < n
            invariant
                i <= n,
                n == self.stakes@.len(),
                Seq::new(eligible@.len(), |k: int| (eligible@[k].0@, eligible@[k].1))
                    == spec_eligible(stakes.take(i as int), self.min_stake),
                self == old(self),
            decreases n - i,
        {
            let ghost evw0 = Seq::new(eligible@.len(), |k: int| (eligible@[k].0@, eligible@[k].1));
            if self.stakes[i].1 >= self.min_stake {
                let entry = (self.stakes[i].0.clone(), self.stakes[i].1);
                eligible.push(entry);
            }
            proof {
                let t = stakes.take(i + 1 as int);
                assert(t.drop_last() =~= stakes.take(i as int));
                assert(t.last() == stakes[i as int]);
                assert(stakes[i as int] == (self.stakes@[i as int].0@, self.stakes@[i as int].1));
                assert(Seq::new(eligible@.len(), |k: int| (eligible@[k].0@, eligible@[k].1)) =~= (
                if stakes[i as int].1 >= self.min_stake {
                    evw0 + seq![stakes[i as int]]
                } else {
                    evw0
                }));
                assert(Seq::new(eligible@.len(), |k: int| (eligible@[k].0@, eligible@[k].1))
                    =~= spec_eligible(t, self.min_stake));
            }
            i = i + 1;
        }
        proof {
            assert(stakes.take(n as int) =~= stakes);
        }

        // Rank them: most stake first, ties broken by address order.
        let m = eligible.len();
        let mut ranked: Vec<(String, u64)> = Vec::new();
        let mut i: usize = 0;
        while i < m
            invariant
                i <= m,
                m == eligible@.len(),
                Seq::new(eligible@.len(), |k: int| (eligible@[k].0@, eligible@[k].1))
                    == spec_eligible(stakes, self.min_stake),
                Seq::new(ranked@.len(), |k: int| (ranked@[k].0@, ranked@[k].1)) == spec_ranked(
                    Seq::new(i as nat, |k: int| (eligible@[k].0@, eligible@[k].1)),
                ),
                ranked@.len() == i,
                self == old(self),
            decreases m - i,
        {
            let ghost evw = Seq::new(eligible@.len(), |k: int| (eligible@[k].0@, eligible@[k].1));
            let ghost rvw0 = Seq::new(ranked@.len(), |k: int| (ranked@[k].0@, ranked@[k].1));
            let x = (eligible[i].0.clone(), eligible[i].1);
            let ghost xv = (x.0@, x.1);
            proof {
                assert(xv == evw[i as int]);
            }

            // Find the first position whose entry x outranks.
            let mut pos: usize = 0;
            while pos < ranked.len()
                invariant
                    pos <= ranked@.len(),
                    forall|j: int| 0 <= j < pos ==> !spec_ranks_before(xv, #[trigger] rvw0[j]),
                    rvw0 == Seq::new(ranked@.len(), |k: int| (ranked@[k].0@, ranked@[k].1)),
                decreases ranked@.len() - pos,
            {
                let outranks = if x.1 > ranked[pos].1 {
                    true
                } else if x.1 == ranked[pos].1 {
                    str_lt(x.0.as_str(), ranked[pos].0.as_str())
                } else {
                    false
                };
                proof {
                    assert(rvw0[pos as int] == (ranked@[pos as int].0@, ranked@[pos as int].1));
                }
                if outranks {
                    break ;
                }
                pos = pos + 1;
            }
            proof {
                assert(pos < ranked@.len() ==> spec_ranks_before(xv, rvw0[pos as int]));
            }
            ranked.insert(pos, x);
            proof {
                lemma_rank_insert_at(rvw0, xv, pos as int);
                let t = Seq::new((i + 1) as nat, |k: int| evw[k]);
                assert(t.drop_last() =~= Seq::new(i as nat, |k: int| evw[k]));
                assert(t.last() == evw[i as int]);
                assert(Seq::new(i as nat, |k: int| evw[k]) =~= Seq::new(
                    i as nat,
                    |k: int| (eligible@[k].0@, eligible@[k].1),
                ));
                assert(t =~= Seq::new((i + 1) as nat, |k: int| (eligible@[k].0@, eligible@[k].1)));
                assert(Seq::new(ranked@.len(), |k: int| (ranked@[k].0@, ranked@[k].1)) =~= rvw0.take(
                    pos as int,
                ) + seq![xv] + rvw0.skip(pos as int));
                assert(Seq::new(ranked@.len(), |k: int| (ranked@[k].0@, ranked@[k].1))
                    == spec_rank_insert(rvw0, xv));
            }
            i = i + 1;
        }
        proof {
            assert(Seq::new(m as nat, |k: int| (eligible@[k].0@, eligible@[k].1)) =~= Seq::new(
                eligible@.len(),
                |k: int| (eligible@[k].0@, eligible@[k].1),
            ));
        }

        // Take the top seats, addresses only.
        let seats = if self.validator_count < ranked.len() {
            self.validator_count
        } else {
            ranked.len()
        };
        let mut roster: Vec<String> = Vec::new();
        let mut i: usize = 0;
        while i < seats
            invariant
                i <= seats,
                seats <= ranked@.len(),
                roster.deep_view() == Seq::new(
                    ranked@.len(),
                    |k: int| (ranked@[k].0@, ranked@[k].1),
                ).take(seats as int).map_values(|p: (Seq<char>, u64)| p.0).take(i as int),
                self == old(self),
            decreases seats - i,
        {
            roster.push(ranked[i].0.clone());
            proof {
                let rv = Seq::new(ranked@.len(), |k: int| (ranked@[k].0@, ranked@[k].1));
                assert(roster.deep_view() =~= rv.take(seats as int).map_values(
                    |p: (Seq<char>, u64)| p.0,
                ).take(i + 1 as int));
            }
            i = i + 1;
        }
        self.validators = roster;
        proof {
            let rv = Seq::new(ranked@.len(), |k: int| (ranked@[k].0@, ranked@[k].1));
            assert(rv.take(seats as int).map_values(|p: (Seq<char>, u64)| p.0).take(seats as int)
                =~= rv.take(seats as int).map_values(|p: (Seq<char>, u64)| p.0));
            assert(self.validators_view() == spec_elected(
                stakes,
                self.min_stake,
                self.validator_count as int,
            ));
        }
        Ok(())
    }
}

impl Consensus for DelegatedProofOfStake {
    /// Seed the stake table with the three well-known validators and elect
    /// the roster from it, until stake persistence exists.
    fn init(&mut self) -> (r: Result<(), ConsensusPolicyError>)
        ensures
            r is Ok,
            final(self).stakes_view().len() == 3,
            final(self).stakes_view()[0] == ("validator1"@, 1000000u64),
            final(self).stakes_view()[1] == ("validator2"@, 800000u64),
            final(self).stakes_view()[2] == ("validator3"@, 600000u64),
            final(self).validators_view() == spec_elected(
                final(self).stakes_view(),
                old(self).min_stake_view(),
                old(self).count() as int,
            ),
            final(self).count() == old(self).count(),
            final(self).min_stake_view() == old(self).min_stake_view(),
    {
        let mut stakes: Vec<(String, u64)> = Vec::new();
        stakes.push(("validator1".to_owned(), 1000000));
        stakes.push(("validator2".to_owned(), 800000));
        stakes.push(("validator3".to_owned(), 600000));
        self.stakes = stakes;
        match self.update_validators() {
            Ok(()) => Ok(()),
            Err(e) => Err(e),
        }
    }

    /// Assemble the candidate without any oracle attestation. The candidate
    /// is returned unsigned: the producing validator attaches its signature
    /// (through `Block::sign`) before the block is offered for validation.
    fn create_block(&self, chain: &ChainSnapshot) -> (r: Result<Block, ConsensusPolicyError>)
        ensures
            r is Ok <==> chain@.tip is Some,
            r is Ok ==> ({
                let b = r->Ok_0@;
                &&& b.ai_proof is None
                &&& b.validator_signature is None
            }),
    {
        let tip = match &chain.tip {
            Some(tip) => tip,
            None => {
                return Err(ConsensusPolicyError::EmptyChain);
            },
        };
        let prev_hash = tip.hash();
        let height = tip.header.height + 1;
        let transactions = copy_transactions(&chain.pending);
        let block = Block::new(prev_hash, height, transactions, 0);
        Ok(block)
    }

    fn validate_block(&self, block: &Block, chain: &ChainSnapshot) -> (r: Result<
        (),
        ConsensusPolicyError,
    >)
        ensures
            r == spec_stake_verdict(block@),
    {
        let _ = chain;
        if block.validator_signature.is_none() {
            return Err(ConsensusPolicyError::MissingValidatorSignature);
        }
        Ok(())
    }

    fn name(&self) -> (r: &'static str)
        ensures
            r@ == "Delegated Proof of Stake (DPoS)"@,
    {
        "Delegated Proof of Stake (DPoS)"
    }
}

/// The consensus policy a ledger runs under: a closed set of variants,
/// selected at construction time.
pub enum ActiveConsensus {
    /// The oracle-attested policy.
    OracleAttested(ProofOfAI),
    /// The stake-weighted policy.
    StakeWeighted(DelegatedProofOfStake),
}

/// The judgement of the active policy on a block.
pub open spec fn spec_policy_verdict(p: ActiveConsensus, b: BlockData) -> Result<
    (),
    ConsensusPolicyError,
> {
    match p {
        ActiveConsensus::OracleAttested(_) => spec_oracle_verdict(b),
        ActiveConsensus::StakeWeighted(_) => spec_stake_verdict(b),
    }
}

} // verus!
