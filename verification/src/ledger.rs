//! The chain of blocks: its genesis, appending to it and verifying it.

use vstd::prelude::*;
use crate::block::{
    check_block, copy_transactions, mine, spec_block_hash, spec_check_block, spec_proves,
    spec_transactions, spec_verify_attestation, spec_verify_from, spec_with_nonce, Attestation,
    AttestationData, Block, BlockData, Consensus, ConsensusData,
};
use crate::clock::Timestamp;
use crate::crypto::ed25519_signature;
use crate::encoding::copy_bytes;
use crate::error::LedgerError;
use crate::transaction::{spec_verify_transaction, Transaction, TransactionData, Wallet};

verus! {

/// Who attests the blocks of a ledger: an authority that signs each block
/// with its key pair, or a search for a nonce at a fixed difficulty.
#[derive(Debug)]
pub enum Attester {
    Authority(Wallet),
    ProofOfWork(usize),
}

impl Attester {
    /// The rule by which a verifier accepts this attester's blocks: the
    /// authority's public key, or the difficulty.
    pub open spec fn spec_consensus(&self) -> ConsensusData {
        match self {
            Attester::Authority(w) => ConsensusData::Authority(w.spec_address()),
            Attester::ProofOfWork(d) => ConsensusData::ProofOfWork(*d),
        }
    }

    /// The attestation of a block that nobody has attested, as a genesis
    /// block carries it: an empty signature, or the nonce 0.
    pub open spec fn spec_neutral(&self) -> AttestationData {
        match self {
            Attester::Authority(_) => AttestationData::Signature(Seq::empty()),
            Attester::ProofOfWork(_) => AttestationData::Nonce(0),
        }
    }
}

/// An append-only chain of blocks that begins with a genesis block.
#[derive(Debug)]
pub struct Ledger {
    pub attester: Attester,
    pub block_chain: Vec<Block>,
}

/// The blocks of a chain, each as mathematical values.
pub open spec fn spec_blocks(chain: Seq<Block>) -> Seq<BlockData> {
    chain.map_values(|b: Block| b@)
}

/// Whether block `i` of `chain` is a valid successor of block `i - 1`.
pub open spec fn spec_link_ok(chain: Seq<BlockData>, i: int, rule: ConsensusData) -> bool {
    spec_check_block(chain[i - 1], chain[i], rule) is Ok
}

/// Whether every block of `chain` after the first is a valid successor of
/// the block before it. The first block is exempt from every check.
pub open spec fn spec_verify_blockchain(chain: Seq<BlockData>, rule: ConsensusData) -> bool {
    forall|i: int| 1 <= i < chain.len() ==> #[trigger] spec_link_ok(chain, i, rule)
}

/// The genesis block of a ledger: no transactions and no previous hash.
pub open spec fn spec_genesis(time: Seq<u8>, attestation: AttestationData) -> BlockData {
    BlockData {
        time: time,
        transactions: Seq::empty(),
        previous_hash: Seq::empty(),
        attestation: attestation,
    }
}

/// The block that follows `previous` with the given transactions, before
/// anybody has attested it.
pub open spec fn spec_draft(
    previous: BlockData,
    transactions: Seq<TransactionData>,
    time: Seq<u8>,
)
    -> BlockData {
    BlockData {
        time: time,
        transactions: transactions,
        previous_hash: spec_block_hash(previous),
        attestation: AttestationData::Signature(Seq::empty()),
    }
}

/// Whether no 32-bit nonce proves `draft` at a difficulty.
pub open spec fn spec_unprovable(draft: BlockData, difficulty: usize) -> bool {
    forall|k: u32| !#[trigger] spec_proves(draft, difficulty, k)
}

/// Whether `block` is `draft` as `attester` attests it: with the
/// authority's signature over the draft's hash, or with the least nonce
/// that proves the draft at the difficulty.
pub open spec fn spec_attested(attester: Attester, draft: BlockData, block: BlockData) -> bool {
    match attester {
        Attester::Authority(w) => block == BlockData {
            attestation: AttestationData::Signature(
                ed25519_signature(w.spec_private_key(), spec_block_hash(draft)),
            ),
            ..draft
        },
        Attester::ProofOfWork(d) => {
            &&& block.attestation is Nonce
            &&& block == spec_with_nonce(draft, block.attestation->Nonce_0)
            &&& spec_proves(draft, d, block.attestation->Nonce_0)
            &&& forall|k: u32|
                k < block.attestation->Nonce_0 ==> !#[trigger] spec_proves(draft, d, k)
        },
    }
}

/// A chain of at most one block is valid under every rule: there is no
/// pair of neighbours to check.
pub proof fn lemma_single_block_chain_is_valid(chain: Seq<BlockData>, rule: ConsensusData)
    requires
        chain.len() <= 1,
    ensures
        spec_verify_blockchain(chain, rule),
{
}

/// A valid chain stays valid when a valid successor of its last block is
/// appended.
pub proof fn lemma_append_preserves_validity(
    chain: Seq<BlockData>,
    block: BlockData,
    rule: ConsensusData,
)
    requires
        chain.len() >= 1,
        spec_verify_blockchain(chain, rule),
        spec_check_block(chain.last(), block, rule) is Ok,
    ensures
        spec_verify_blockchain(chain.push(block), rule),
{
    let longer = chain.push(block);
    assert forall|i: int| 1 <= i < longer.len() implies #[trigger] spec_link_ok(
        longer,
        i,
        rule,
    ) by {
        if i < chain.len() {
            assert(spec_link_ok(chain, i, rule));
        }
    }
}

/// Where the previous hash of any block after the first is replaced by
/// anything but the hash of the block before it, that block fails with
/// `InvalidPreviousHash` and the chain is invalid.
pub proof fn lemma_redirected_link_is_detected(
    chain: Seq<BlockData>,
    rule: ConsensusData,
    i: int,
    hash: Seq<u8>,
)
    requires
        1 <= i < chain.len(),
        hash != spec_block_hash(chain[i - 1]),
    ensures
        ({
            let tampered = chain.update(i, BlockData { previous_hash: hash, ..chain[i] });
            &&& spec_check_block(tampered[i - 1], tampered[i], rule) == Err::<(), LedgerError>(
                LedgerError::InvalidPreviousHash,
            )
            &&& !spec_verify_blockchain(tampered, rule)
        }),
{
    let tampered = chain.update(i, BlockData { previous_hash: hash, ..chain[i] });
    assert(!spec_link_ok(tampered, i, rule));
}

/// `spec_verify_from` accepts the transactions from `i` on exactly where
/// each of them verifies.
pub proof fn lemma_verify_from_is_all(ts: Seq<TransactionData>, i: int)
    requires
        0 <= i,
    ensures
        spec_verify_from(ts, i) is Ok <==> forall|j: int|
            i <= j < ts.len() ==> (#[trigger] spec_verify_transaction(ts[j])) is Ok,
    decreases ts.len() - i,
{
    if i < ts.len() {
        lemma_verify_from_is_all(ts, i + 1);
    }
}

/// A chain in which some block after the first holds a transaction that
/// does not verify is invalid.
pub proof fn lemma_unverifiable_transaction_is_detected(
    chain: Seq<BlockData>,
    rule: ConsensusData,
    i: int,
    j: int,
)
    requires
        1 <= i < chain.len(),
        0 <= j < chain[i].transactions.len(),
        spec_verify_transaction(chain[i].transactions[j]) is Err,
    ensures
        spec_check_block(chain[i - 1], chain[i], rule) is Err,
        !spec_verify_blockchain(chain, rule),
{
    lemma_verify_from_is_all(chain[i].transactions, 0);
    assert(!spec_link_ok(chain, i, rule));
}

/// A chain in which the attestation of some block after the first is not
/// accepted for the block's content is invalid.
pub proof fn lemma_stale_attestation_is_detected(
    chain: Seq<BlockData>,
    rule: ConsensusData,
    i: int,
)
    requires
        1 <= i < chain.len(),
        spec_verify_attestation(chain[i], rule) is Err,
    ensures
        spec_check_block(chain[i - 1], chain[i], rule) is Err,
        !spec_verify_blockchain(chain, rule),
{
    assert(!spec_link_ok(chain, i, rule));
}

/// The first block of `chain` that is not a valid successor of the block
/// before it, with the reason; `None` where the chain is valid.
pub fn first_invalid_block(chain: &Vec<Block>, rule: &Consensus) -> (r: Option<
    (usize, LedgerError),
>)
    ensures
        match r {
            None => spec_verify_blockchain(spec_blocks(chain@), rule@),
            Some((i, e)) => {
                &&& 1 <= i < chain@.len()
                &&& spec_check_block(chain@[i - 1]@, chain@[i as int]@, rule@) == Err::<
                    (),
                    LedgerError,
                >(e)
                &&& forall|j: int| 1 <= j < i ==> #[trigger] spec_link_ok(spec_blocks(chain@), j, rule@)
                &&& !spec_verify_blockchain(spec_blocks(chain@), rule@)
            },
        },
{
    let mut i: usize = 1;
    while i < chain.len()
        invariant
            1 <= i,
            forall|j: int|
                1 <= j < i && j < chain@.len() ==> #[trigger] spec_link_ok(
                    spec_blocks(chain@),
                    j,
                    rule@,
                ),
        decreases chain.len() - i,
    {
        let verdict = check_block(&chain[i - 1], &chain[i], rule);
        proof {
            assert(spec_blocks(chain@)[i - 1] == chain@[i - 1]@);
            assert(spec_blocks(chain@)[i as int] == chain@[i as int]@);
        }
        match verdict {
            Err(e) => {
                proof {
                    assert(!spec_link_ok(spec_blocks(chain@), i as int, rule@));
                }
                return Some((i, e));
            },
            Ok(_) => {},
        }
        i += 1;
    }
    None
}

/// Whether every block of `chain` after the first is a valid successor of
/// the block before it.
pub fn verify_blockchain(chain: &Vec<Block>, rule: &Consensus) -> (r: bool)
    ensures
        r == spec_verify_blockchain(spec_blocks(chain@), rule@),
{
    first_invalid_block(chain, rule).is_none()
}

impl Ledger {
    /// A ledger that holds only its genesis block, stamped with `time`.
    /// It is valid.
    pub fn genesis_at(attester: Attester, time: Timestamp) -> (r: Ledger)
        ensures
            r.attester == attester,
            r.block_chain@.len() == 1,
            r.block_chain@[0]@ == spec_genesis(time@, attester.spec_neutral()),
            spec_verify_blockchain(spec_blocks(r.block_chain@), attester.spec_consensus()),
    {
        let attestation = match &attester {
            Attester::Authority(_) => Attestation::Signature(Vec::new()),
            Attester::ProofOfWork(_) => Attestation::Nonce(0),
        };
        let ghost stamp = time@;
        let genesis = Block {
            time,
            transactions: Vec::new(),
            previous_hash: Vec::new(),
            attestation,
        };
        let mut chain: Vec<Block> = Vec::new();
        chain.push(genesis);
        proof {
            assert(genesis@.transactions =~= Seq::<TransactionData>::empty());
            assert(genesis@.previous_hash =~= Seq::<u8>::empty());
            assert(genesis@.attestation == attester.spec_neutral()) by {
                match attester {
                    Attester::Authority(_) => {
                        assert(genesis@.attestation->Signature_0 =~= Seq::<u8>::empty());
                    },
                    Attester::ProofOfWork(_) => {},
                }
            }
            assert(chain@[0]@ == spec_genesis(stamp, attester.spec_neutral()));
        }
        Ledger { attester, block_chain: chain }
    }

    /// A ledger whose blocks are signed by a fresh authority key pair, with
    /// its genesis block stamped with the current time.
    pub fn new() -> (r: Result<Ledger, LedgerError>)
        ensures
            match r {
                Ok(ledger) => {
                    &&& ledger.attester is Authority
                    &&& ledger.attester->Authority_0.spec_address().len() == 32
                    &&& ledger.block_chain@.len() == 1
                    &&& ledger.block_chain@[0]@.transactions.len() == 0
                    &&& ledger.block_chain@[0]@.previous_hash.len() == 0
                    &&& ledger.block_chain@[0]@.attestation == AttestationData::Signature(
                        Seq::empty(),
                    )
                    &&& spec_verify_blockchain(
                        spec_blocks(ledger.block_chain@),
                        ledger.attester.spec_consensus(),
                    )
                },
                Err(e) => e == LedgerError::RandomSourceUnavailable,
            },
    {
        match Wallet::new() {
            Ok(authority) => {
                let time = Timestamp::now();
                let ledger = Self::genesis_at(Attester::Authority(authority), time);
                Ok(ledger)
            },
            Err(e) => Err(e),
        }
    }

    /// A ledger whose blocks are mined at `difficulty`, with its genesis
    /// block stamped with the current time.
    pub fn with_difficulty(difficulty: usize) -> (r: Ledger)
        ensures
            r.attester == Attester::ProofOfWork(difficulty),
            r.block_chain@.len() == 1,
            r.block_chain@[0]@.transactions.len() == 0,
            r.block_chain@[0]@.previous_hash.len() == 0,
            r.block_chain@[0]@.attestation == AttestationData::Nonce(0),
            spec_verify_blockchain(spec_blocks(r.block_chain@), r.attester.spec_consensus()),
    {
        let time = Timestamp::now();
        let ledger = Self::genesis_at(Attester::ProofOfWork(difficulty), time);
        ledger
    }

    /// The rule by which a verifier accepts this ledger's blocks.
    pub fn consensus(&self) -> (r: Consensus)
        ensures
            r@ == self.attester.spec_consensus(),
    {
        match &self.attester {
            Attester::Authority(w) => Consensus::Authority(copy_bytes(w.address())),
            Attester::ProofOfWork(d) => Consensus::ProofOfWork(*d),
        }
    }

    /// Appends a block with copies of `transactions`, stamped with `time`,
    /// linked to the last block and attested by this ledger's attester.
    ///
    /// An authority always succeeds. A search for a nonce fails with
    /// `InvalidProof`, and leaves the ledger as it was, where no 32-bit
    /// nonce proves the block. Where the transactions all verify, the new
    /// block is a valid successor of the last one.
    pub fn generate_block_at(&mut self, transactions: &Vec<Transaction>, time: Timestamp) -> (r: Result<
        (),
        LedgerError,
    >)
        requires
            old(self).block_chain@.len() >= 1,
        ensures
            final(self).attester == old(self).attester,
            old(self).attester is Authority ==> r is Ok,
            match r {
                Ok(_) => {
                    let before = spec_blocks(old(self).block_chain@);
                    let after = spec_blocks(final(self).block_chain@);
                    let draft = spec_draft(before.last(), spec_transactions(transactions@), time@);
                    &&& after.len() == before.len() + 1
                    &&& after.drop_last() == before
                    &&& spec_attested(old(self).attester, draft, after.last())
                    &&& spec_verify_from(spec_transactions(transactions@), 0) is Ok
                        ==> spec_check_block(
                        before.last(),
                        after.last(),
                        old(self).attester.spec_consensus(),
                    ) is Ok
                    &&& spec_verify_from(spec_transactions(transactions@), 0) is Ok
                        && spec_verify_blockchain(before, old(self).attester.spec_consensus())
                        ==> spec_verify_blockchain(after, old(self).attester.spec_consensus())
                },
                Err(e) => {
                    let before = spec_blocks(old(self).block_chain@);
                    let draft = spec_draft(before.last(), spec_transactions(transactions@), time@);
                    &&& e == LedgerError::InvalidProof
                    &&& final(self).block_chain@ == old(self).block_chain@
                    &&& old(self).attester is ProofOfWork
                    &&& forall|k: u32|
                        !#[trigger] spec_proves(draft, old(self).attester->ProofOfWork_0, k)
                },
            },
    {
        let last = self.block_chain.len() - 1;
        let previous_hash = self.block_chain[last].hash();
        let ghost stamp = time@;
        let mut draft = Block {
            time,
            transactions: copy_transactions(transactions),
            previous_hash,
            attestation: Attestation::Signature(Vec::new()),
        };
        let ghost before = spec_blocks(self.block_chain@);
        let ghost draft_data = spec_draft(before.last(), spec_transactions(transactions@), stamp);
        proof {
            assert(before.last() == self.block_chain@[last as int]@);
            assert(draft@.attestation->Signature_0 =~= Seq::<u8>::empty());
            assert(draft@ == draft_data);
        }
        let attested: Option<Block> = match &self.attester {
            Attester::Authority(w) => {
                let h = draft.hash();
                let sign = w.sign(&h);
                draft.attestation = Attestation::Signature(sign);
                Some(draft)
            },
            Attester::ProofOfWork(d) => mine(&draft, *d),
        };
        match attested {
            Some(block) => {
                self.block_chain.push(block);
                proof {
                    let after = spec_blocks(self.block_chain@);
                    assert(after.drop_last() =~= before);
                    assert(after.last() == block@);
                    if spec_verify_from(spec_transactions(transactions@), 0) is Ok
                        && spec_verify_blockchain(before, self.attester.spec_consensus()) {
                        lemma_append_preserves_validity(
                            before,
                            block@,
                            self.attester.spec_consensus(),
                        );
                        assert(after =~= before.push(block@));
                    }
                }
                Ok(())
            },
            None => Err(LedgerError::InvalidProof),
        }
    }

    /// Appends a block with copies of `transactions`, stamped with the
    /// current time. The time aside, this is `generate_block_at`.
    pub fn generate_block(&mut self, transactions: &Vec<Transaction>) -> (r: Result<
        (),
        LedgerError,
    >)
        requires
            old(self).block_chain@.len() >= 1,
        ensures
            final(self).attester == old(self).attester,
            old(self).attester is Authority ==> r is Ok,
            match r {
                Ok(_) => {
                    let before = spec_blocks(old(self).block_chain@);
                    let after = spec_blocks(final(self).block_chain@);
                    &&& after.len() == before.len() + 1
                    &&& after.drop_last() == before
                    &&& spec_attested(
                        old(self).attester,
                        spec_draft(
                            before.last(),
                            spec_transactions(transactions@),
                            after.last().time,
                        ),
                        after.last(),
                    )
                    &&& spec_verify_from(spec_transactions(transactions@), 0) is Ok
                        && spec_verify_blockchain(before, old(self).attester.spec_consensus())
                        ==> spec_verify_blockchain(after, old(self).attester.spec_consensus())
                },
                Err(e) => {
                    let before = spec_blocks(old(self).block_chain@);
                    &&& e == LedgerError::InvalidProof
                    &&& final(self).block_chain@ == old(self).block_chain@
                    &&& old(self).attester is ProofOfWork
                    &&& exists|time: Seq<u8>|
                        spec_unprovable(
                            #[trigger] spec_draft(
                                before.last(),
                                spec_transactions(transactions@),
                                time,
                            ),
                            old(self).attester->ProofOfWork_0,
                        )
                },
            },
    {
        let time = Timestamp::now();
        let ghost stamp = time@;
        let ghost before = spec_blocks(self.block_chain@);
        let r = self.generate_block_at(transactions, time);
        proof {
            if r is Err {
                assert(spec_unprovable(
                    spec_draft(before.last(), spec_transactions(transactions@), stamp),
                    old(self).attester->ProofOfWork_0,
                ));
            }
        }
        r
    }

    /// Whether every block after the genesis block is a valid successor of
    /// the block before it, under this ledger's own rule.
    pub fn verify_chain(&self) -> (r: bool)
        ensures
            r == spec_verify_blockchain(
                spec_blocks(self.block_chain@),
                self.attester.spec_consensus(),
            ),
    {
        let rule = self.consensus();
        verify_blockchain(&self.block_chain, &rule)
    }
}

} // verus!
