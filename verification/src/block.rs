//! Blocks, their hashes, and the two ways in which a block is attested.

use vstd::prelude::*;
use vstd::string::StringSliceAdditionalSpecFns;
use crate::clock::Timestamp;
use crate::crypto::{ed25519_accepts, sha512};
use crate::encoding::{
    copy_bytes, lemma_middle_cancels, lemma_middle_of_middle, push_byte_array, push_bytes,
    push_decimal, push_label, same_bytes, spec_byte_array, spec_decimal,
};
use crate::error::LedgerError;
use crate::transaction::{
    lemma_text_around_value, spec_text_after_value, spec_text_before_value,
    spec_transaction_text, spec_verify_transaction, verify_transaction, Transaction,
    TransactionData,
};

verus! {

/// What establishes that a block was accepted: the authority's signature
/// over the block's hash, or a nonce that gives the hash leading zeros.
#[derive(Debug)]
pub enum Attestation {
    Signature(Vec<u8>),
    Nonce(u32),
}

/// What an `Attestation` holds, as mathematical values.
pub enum AttestationData {
    Signature(Seq<u8>),
    Nonce(u32),
}

impl View for Attestation {
    type V = AttestationData;

    open spec fn view(&self) -> AttestationData {
        match self {
            Attestation::Signature(s) => AttestationData::Signature(s@),
            Attestation::Nonce(n) => AttestationData::Nonce(*n),
        }
    }
}

impl Clone for Attestation {
    fn clone(&self) -> (r: Self)
        ensures
            r@ == self@,
    {
        match self {
            Attestation::Signature(s) => Attestation::Signature(copy_bytes(s)),
            Attestation::Nonce(n) => Attestation::Nonce(*n),
        }
    }
}

/// A batch of transactions, linked to the block before it by that block's
/// hash. `time` stands in the canonical text as it is and plays no part
/// in any check.
#[derive(Debug)]
pub struct Block {
    pub time: Timestamp,
    pub transactions: Vec<Transaction>,
    pub previous_hash: Vec<u8>,
    pub attestation: Attestation,
}

/// What a `Block` holds, as mathematical values.
pub struct BlockData {
    pub time: Seq<u8>,
    pub transactions: Seq<TransactionData>,
    pub previous_hash: Seq<u8>,
    pub attestation: AttestationData,
}

/// The transactions of a sequence, each as mathematical values.
pub open spec fn spec_transactions(ts: Seq<Transaction>) -> Seq<TransactionData> {
    ts.map_values(|t: Transaction| t@)
}

impl View for Block {
    type V = BlockData;

    open spec fn view(&self) -> BlockData {
        BlockData {
            time: self.time@,
            transactions: spec_transactions(self.transactions@),
            previous_hash: self.previous_hash@,
            attestation: self.attestation@,
        }
    }
}

/// How a verifier accepts blocks: by the authority's public key, or by the
/// number of leading zero bytes that a block's hash must have.
#[derive(Debug)]
pub enum Consensus {
    Authority(Vec<u8>),
    ProofOfWork(usize),
}

/// What a `Consensus` holds, as mathematical values.
pub enum ConsensusData {
    Authority(Seq<u8>),
    ProofOfWork(usize),
}

impl View for Consensus {
    type V = ConsensusData;

    open spec fn view(&self) -> ConsensusData {
        match self {
            Consensus::Authority(key) => ConsensusData::Authority(key@),
            Consensus::ProofOfWork(d) => ConsensusData::ProofOfWork(*d),
        }
    }
}

/// The full texts of `ts`, separated by commas.
pub open spec fn spec_transaction_list(ts: Seq<TransactionData>) -> Seq<u8>
    decreases ts.len(),
{
    if ts.len() == 0 {
        Seq::empty()
    } else if ts.len() == 1 {
        spec_transaction_text(ts[0])
    } else {
        spec_transaction_list(ts.drop_last()) + seq![44u8] + spec_transaction_text(ts.last())
    }
}

/// The last field of a block's text. A signature is written as the empty
/// list whatever it holds, so that the text can be signed; a nonce is
/// written out, so that the search for it changes the hash.
pub open spec fn spec_attestation_text(a: AttestationData) -> Seq<u8> {
    match a {
        AttestationData::Signature(_) => ",\"sign\":[]}".spec_bytes(),
        AttestationData::Nonce(n) => ",\"nonce\":".spec_bytes() + spec_decimal(n as nat)
            + "}".spec_bytes(),
    }
}

/// The canonical text of a block: its fields in a fixed order, the
/// transactions in full with their signatures.
pub open spec fn spec_block_text(b: BlockData) -> Seq<u8> {
    "{\"time\":\"".spec_bytes() + b.time + "\",\"transactions\":[".spec_bytes()
        + spec_transaction_list(b.transactions) + "],\"previous_hash\":".spec_bytes()
        + spec_byte_array(b.previous_hash) + spec_attestation_text(b.attestation)
}

/// The hash of a block: the SHA-512 digest of its canonical text.
pub open spec fn spec_block_hash(b: BlockData) -> Seq<u8> {
    sha512(spec_block_text(b))
}

/// Whether `hash` begins with `difficulty` zero bytes. A hash shorter than
/// that cannot.
pub open spec fn spec_leading_zero_bytes(hash: Seq<u8>, difficulty: nat) -> bool {
    difficulty <= hash.len() && forall|i: int| 0 <= i < difficulty ==> hash[i] == 0
}

/// The number of bytes in a hash.
pub const HASH_LEN: usize = 64;

/// The verdict on a block's proof of work at a difficulty: the hash must
/// begin with that many zero bytes. A hash has `HASH_LEN` bytes, so no
/// block has a proof at a difficulty above that.
pub open spec fn spec_valid_proof(b: BlockData, difficulty: usize) -> Result<(), LedgerError> {
    if difficulty <= HASH_LEN && spec_leading_zero_bytes(
        spec_block_hash(b),
        difficulty as nat,
    ) {
        Ok(())
    } else {
        Err(LedgerError::InvalidProof)
    }
}

/// `b` with the nonce `n` as its attestation.
pub open spec fn spec_with_nonce(b: BlockData, n: u32) -> BlockData {
    BlockData { attestation: AttestationData::Nonce(n), ..b }
}

/// Whether the nonce `n` proves `b` at a difficulty.
pub open spec fn spec_proves(b: BlockData, difficulty: usize, n: u32) -> bool {
    spec_valid_proof(spec_with_nonce(b, n), difficulty) is Ok
}

/// The verdict on the transactions `ts[i..]`: that of the first one that
/// does not verify, or `Ok` where all do.
pub open spec fn spec_verify_from(ts: Seq<TransactionData>, i: int) -> Result<(), LedgerError>
    decreases ts.len() - i,
{
    if i < 0 || i >= ts.len() {
        Ok(())
    } else {
        match spec_verify_transaction(ts[i]) {
            Err(e) => Err(e),
            Ok(_) => spec_verify_from(ts, i + 1),
        }
    }
}

/// The verdict on a block's attestation under a rule of consensus. An
/// attestation of the other kind fails as one of the kind that the rule
/// asks for.
pub open spec fn spec_verify_attestation(b: BlockData, rule: ConsensusData) -> Result<
    (),
    LedgerError,
> {
    match rule {
        ConsensusData::Authority(key) => match b.attestation {
            AttestationData::Signature(s) => if ed25519_accepts(key, spec_block_hash(b), s) {
                Ok(())
            } else {
                Err(LedgerError::InvalidSignature)
            },
            AttestationData::Nonce(_) => Err(LedgerError::InvalidSignature),
        },
        ConsensusData::ProofOfWork(d) => match b.attestation {
            AttestationData::Nonce(_) => spec_valid_proof(b, d),
            AttestationData::Signature(_) => Err(LedgerError::InvalidProof),
        },
    }
}

/// The verdict on a block from its three checks: the link comes first, then
/// the transactions, then the attestation.
pub open spec fn spec_block_outcome(
    linked: bool,
    transactions: Result<(), LedgerError>,
    attestation: Result<(), LedgerError>,
) -> Result<(), LedgerError> {
    if !linked {
        Err(LedgerError::InvalidPreviousHash)
    } else if transactions is Err {
        transactions
    } else {
        attestation
    }
}

/// The verdict on `block` as the successor of `previous`.
pub open spec fn spec_check_block(previous: BlockData, block: BlockData, rule: ConsensusData)
    -> Result<(), LedgerError> {
    spec_block_outcome(
        block.previous_hash == spec_block_hash(previous),
        spec_verify_from(block.transactions, 0),
        spec_verify_attestation(block, rule),
    )
}

/// The part of the list's text that stands before transaction `j`.
pub open spec fn spec_list_before(ts: Seq<TransactionData>, j: int) -> Seq<u8> {
    if j <= 0 {
        Seq::empty()
    } else {
        spec_transaction_list(ts.take(j)) + seq![44u8]
    }
}

/// The part of the list's text that stands after transaction `j`.
pub open spec fn spec_list_after(ts: Seq<TransactionData>, j: int) -> Seq<u8>
    decreases ts.len(),
{
    if ts.len() <= j + 1 || ts.len() == 0 {
        Seq::empty()
    } else {
        spec_list_after(ts.drop_last(), j) + seq![44u8] + spec_transaction_text(ts.last())
    }
}

/// The text of a list is the text of any one of its transactions between
/// what stands before and what stands after it.
pub proof fn lemma_list_around(ts: Seq<TransactionData>, j: int)
    requires
        0 <= j < ts.len(),
    ensures
        spec_transaction_list(ts) == spec_list_before(ts, j) + spec_transaction_text(ts[j])
            + spec_list_after(ts, j),
    decreases ts.len(),
{
    let whole = spec_list_before(ts, j) + spec_transaction_text(ts[j]) + spec_list_after(ts, j);
    if j == ts.len() - 1 {
        if ts.len() > 1 {
            assert(ts.take(j) =~= ts.drop_last());
        }
        assert(spec_transaction_list(ts) =~= whole);
    } else {
        let shorter = ts.drop_last();
        lemma_list_around(shorter, j);
        assert(shorter.take(j) =~= ts.take(j));
        assert(shorter[j] == ts[j]);
        assert(spec_transaction_list(ts) =~= whole);
    }
}

/// What stands after transaction `j` does not depend on transaction `j`.
pub proof fn lemma_list_after_ignores(ts: Seq<TransactionData>, j: int, other: TransactionData)
    requires
        0 <= j < ts.len(),
    ensures
        spec_list_after(ts.update(j, other), j) == spec_list_after(ts, j),
    decreases ts.len(),
{
    if ts.len() > j + 1 {
        assert(ts.update(j, other).drop_last() =~= ts.drop_last().update(j, other));
        lemma_list_after_ignores(ts.drop_last(), j, other);
        assert(ts.update(j, other).last() == ts.last());
    }
}

/// The part of a block's text that stands before its transactions.
pub open spec fn spec_text_before_list(b: BlockData) -> Seq<u8> {
    "{\"time\":\"".spec_bytes() + b.time + "\",\"transactions\":[".spec_bytes()
}

/// The part of a block's text that stands after its transactions.
pub open spec fn spec_text_after_list(b: BlockData) -> Seq<u8> {
    "],\"previous_hash\":".spec_bytes() + spec_byte_array(b.previous_hash)
        + spec_attestation_text(b.attestation)
}

/// The text of a block is the text of its transactions between two parts
/// that do not depend on them.
pub proof fn lemma_block_around_list(b: BlockData)
    ensures
        spec_block_text(b) == spec_text_before_list(b) + spec_transaction_list(b.transactions)
            + spec_text_after_list(b),
{
    assert(spec_block_text(b) =~= spec_text_before_list(b) + spec_transaction_list(
        b.transactions,
    ) + spec_text_after_list(b));
}

/// The part of a block's text that stands before the value of its
/// transaction `j`.
pub open spec fn spec_text_before_value_of(b: BlockData, j: int) -> Seq<u8> {
    spec_text_before_list(b) + (spec_list_before(b.transactions, j) + spec_text_before_value(
        b.transactions[j],
    ))
}

/// The part of a block's text that stands after the value of its
/// transaction `j`.
pub open spec fn spec_text_after_value_of(b: BlockData, j: int) -> Seq<u8> {
    spec_text_after_value(b.transactions[j]) + spec_list_after(b.transactions, j)
        + spec_text_after_list(b)
}

/// The text of a block is the text of the value of any one of its
/// transactions between what stands before and what stands after them.
pub proof fn lemma_block_around_value(b: BlockData, j: int)
    requires
        0 <= j < b.transactions.len(),
    ensures
        spec_block_text(b) == spec_text_before_value_of(b, j) + b.transactions[j].value
            + spec_text_after_value_of(b, j),
{
    let t = b.transactions[j];
    lemma_block_around_list(b);
    lemma_list_around(b.transactions, j);
    lemma_text_around_value(t);
    lemma_middle_of_middle(
        spec_list_before(b.transactions, j),
        spec_text_before_value(t),
        t.value,
        spec_text_after_value(t),
        spec_list_after(b.transactions, j),
    );
    lemma_middle_of_middle(
        spec_text_before_list(b),
        spec_list_before(b.transactions, j) + spec_text_before_value(t),
        t.value,
        spec_text_after_value(t) + spec_list_after(b.transactions, j),
        spec_text_after_list(b),
    );
}

/// A block in which the value of one transaction is changed has another
/// canonical text: an attestation made for the old text was not made for
/// the new one.
pub proof fn lemma_value_change_changes_block_text(b: BlockData, j: int, value: Seq<u8>)
    requires
        0 <= j < b.transactions.len(),
        value != b.transactions[j].value,
    ensures
        spec_block_text(
            BlockData {
                transactions: b.transactions.update(
                    j,
                    TransactionData { value: value, ..b.transactions[j] },
                ),
                ..b
            },
        ) != spec_block_text(b),
{
    let t = b.transactions[j];
    let changed = TransactionData { value: value, ..t };
    let ts = b.transactions.update(j, changed);
    let tampered = BlockData { transactions: ts, ..b };
    lemma_block_around_value(b, j);
    lemma_block_around_value(tampered, j);
    lemma_list_after_ignores(b.transactions, j, changed);
    assert(ts.take(j) =~= b.transactions.take(j));
    assert(spec_text_before_value_of(tampered, j) == spec_text_before_value_of(b, j));
    assert(spec_text_after_value_of(tampered, j) == spec_text_after_value_of(b, j));
    if spec_block_text(tampered) == spec_block_text(b) {
        lemma_middle_cancels(
            spec_text_before_value_of(b, j),
            value,
            t.value,
            spec_text_after_value_of(b, j),
        );
    }
}

/// A copy of `ts`.
pub fn copy_transactions(ts: &Vec<Transaction>) -> (r: Vec<Transaction>)
    ensures
        spec_transactions(r@) == spec_transactions(ts@),
{
    let mut r: Vec<Transaction> = Vec::new();
    let mut i: usize = 0;
    while i < ts.len()
        invariant
            i <= ts.len(),
            spec_transactions(r@) == spec_transactions(ts@.take(i as int)),
        decreases ts.len() - i,
    {
        let ghost before = spec_transactions(r@);
        let t = ts[i].clone();
        r.push(t);
        proof {
            assert(t@ == ts@[i as int]@);
            assert(spec_transactions(r@) =~= before.push(t@));
            assert(spec_transactions(ts@.take(i + 1)) =~= spec_transactions(
                ts@.take(i as int),
            ).push(ts@[i as int]@));
        }
        i += 1;
    }
    proof {
        assert(ts@.take(ts.len() as int) =~= ts@);
    }
    r
}

/// Appends the full texts of `ts`, separated by commas, to `out`.
pub fn push_transaction_list(out: &mut Vec<u8>, ts: &Vec<Transaction>)
    ensures
        final(out)@ == old(out)@ + spec_transaction_list(spec_transactions(ts@)),
{
    let mut i: usize = 0;
    proof {
        assert(old(out)@ + spec_transaction_list(spec_transactions(ts@.take(0))) =~= old(out)@);
    }
    while i < ts.len()
        invariant
            i <= ts.len(),
            out@ == old(out)@ + spec_transaction_list(spec_transactions(ts@.take(i as int))),
        decreases ts.len() - i,
    {
        if i > 0 {
            out.push(44u8);
        }
        ts[i].push_text(out);
        proof {
            let prefix = spec_transactions(ts@.take(i + 1));
            assert(prefix.drop_last() =~= spec_transactions(ts@.take(i as int)));
            assert(prefix.last() == ts@[i as int]@);
            assert(out@ =~= old(out)@ + spec_transaction_list(prefix));
        }
        i += 1;
    }
    proof {
        assert(ts@.take(ts.len() as int) =~= ts@);
    }
}

impl Clone for Block {
    fn clone(&self) -> (r: Self)
        ensures
            r@ == self@,
    {
        Block {
            time: self.time.clone(),
            transactions: copy_transactions(&self.transactions),
            previous_hash: copy_bytes(&self.previous_hash),
            attestation: self.attestation.clone(),
        }
    }
}

impl Block {
    /// The canonical text of this block.
    pub fn text(&self) -> (r: Vec<u8>)
        ensures
            r@ == spec_block_text(self@),
    {
        let mut out: Vec<u8> = Vec::new();
        push_label(&mut out, "{\"time\":\"");
        push_bytes(&mut out, self.time.text());
        push_label(&mut out, "\",\"transactions\":[");
        push_transaction_list(&mut out, &self.transactions);
        push_label(&mut out, "],\"previous_hash\":");
        push_byte_array(&mut out, &self.previous_hash);
        match &self.attestation {
            Attestation::Signature(_) => {
                push_label(&mut out, ",\"sign\":[]}");
            },
            Attestation::Nonce(n) => {
                push_label(&mut out, ",\"nonce\":");
                push_decimal(&mut out, *n as u64);
                push_label(&mut out, "}");
            },
        }
        proof {
            assert(out@ =~= spec_block_text(self@));
        }
        out
    }

    /// The hash of this block.
    pub fn hash(&self) -> (r: Vec<u8>)
        ensures
            r@ == spec_block_hash(self@),
            r@.len() == 64,
    {
        let text = self.text();
        crate::crypto::digest(&text)
    }
}

/// Whether `hash` begins with `difficulty` zero bytes.
pub fn leading_zero_bytes(hash: &Vec<u8>, difficulty: usize) -> (r: bool)
    ensures
        r == spec_leading_zero_bytes(hash@, difficulty as nat),
{
    if difficulty > hash.len() {
        return false;
    }
    let mut i: usize = 0;
    while i < difficulty
        invariant
            i <= difficulty <= hash.len(),
            forall|j: int| 0 <= j < i ==> hash@[j] == 0,
        decreases difficulty - i,
    {
        if hash[i] != 0 {
            return false;
        }
        i += 1;
    }
    true
}

/// Checks that the hash of `block` begins with `difficulty` zero bytes.
pub fn valid_proof(block: &Block, difficulty: usize) -> (r: Result<(), LedgerError>)
    ensures
        r == spec_valid_proof(block@, difficulty),
{
    if difficulty > HASH_LEN {
        return Err(LedgerError::InvalidProof);
    }
    let h = block.hash();
    if leading_zero_bytes(&h, difficulty) {
        Ok(())
    } else {
        Err(LedgerError::InvalidProof)
    }
}

/// Searches the nonces from `first` to `last`, both included and in rising
/// order, for the first that proves `block` at `difficulty`, and returns
/// the block with that nonce. `None` where none of them does.
///
/// A bounded range is what a caller needs to give up after a number of
/// tries, or to share the search among workers.
pub fn mine_range(block: &Block, difficulty: usize, first: u32, last: u32) -> (r: Option<Block>)
    ensures
        match r {
            Some(mined) => {
                &&& mined@.attestation is Nonce
                &&& first <= mined@.attestation->Nonce_0 <= last
                &&& mined@ == spec_with_nonce(block@, mined@.attestation->Nonce_0)
                &&& spec_valid_proof(mined@, difficulty) is Ok
                &&& forall|k: u32|
                    first <= k < mined@.attestation->Nonce_0 ==> !#[trigger] spec_proves(
                        block@,
                        difficulty,
                        k,
                    )
            },
            None => forall|k: u32|
                first <= k <= last ==> !#[trigger] spec_proves(block@, difficulty, k),
        },
{
    if difficulty > HASH_LEN || first > last {
        return None;
    }
    let mut nonce: u32 = first;
    let mut b = Block {
        time: block.time.clone(),
        transactions: copy_transactions(&block.transactions),
        previous_hash: copy_bytes(&block.previous_hash),
        attestation: Attestation::Nonce(nonce),
    };
    loop
        invariant
            first <= nonce <= last,
            b@ == spec_with_nonce(block@, nonce),
            forall|k: u32| first <= k < nonce ==> !#[trigger] spec_proves(block@, difficulty, k),
        decreases last - nonce,
    {
        if valid_proof(&b, difficulty).is_ok() {
            return Some(b);
        }
        if nonce == last {
            return None;
        }
        nonce += 1;
        b.attestation = Attestation::Nonce(nonce);
    }
}

/// Searches the nonces from 0 upwards for the first that proves `block` at
/// `difficulty`, and returns the block with that nonce. `None` where no
/// 32-bit nonce does, as at every difficulty above `HASH_LEN`.
pub fn mine(block: &Block, difficulty: usize) -> (r: Option<Block>)
    ensures
        match r {
            Some(mined) => {
                &&& mined@.attestation is Nonce
                &&& mined@ == spec_with_nonce(block@, mined@.attestation->Nonce_0)
                &&& spec_valid_proof(mined@, difficulty) is Ok
                &&& forall|k: u32|
                    k < mined@.attestation->Nonce_0 ==> !#[trigger] spec_proves(
                        block@,
                        difficulty,
                        k,
                    )
            },
            None => forall|k: u32| !#[trigger] spec_proves(block@, difficulty, k),
        },
{
    mine_range(block, difficulty, 0, u32::MAX)
}

/// Checks every transaction of `ts` in order and stops at the first that
/// does not verify.
pub fn verify_transactions(ts: &Vec<Transaction>) -> (r: Result<(), LedgerError>)
    ensures
        r == spec_verify_from(spec_transactions(ts@), 0),
{
    let mut i: usize = 0;
    while i < ts.len()
        invariant
            i <= ts.len(),
            spec_verify_from(spec_transactions(ts@), 0) == spec_verify_from(
                spec_transactions(ts@),
                i as int,
            ),
        decreases ts.len() - i,
    {
        let verdict = verify_transaction(&ts[i]);
        proof {
            assert(spec_transactions(ts@)[i as int] == ts@[i as int]@);
        }
        if verdict.is_err() {
            return verdict;
        }
        i += 1;
    }
    Ok(())
}

/// The verdict on a block's attestation under a rule of consensus. An
/// authority's key that has not 32 bytes, or a signature that has not 64,
/// is never accepted.
pub fn verify_attestation(block: &Block, rule: &Consensus) -> (r: Result<(), LedgerError>)
    ensures
        r == spec_verify_attestation(block@, rule@),
        rule@ is Authority && block@.attestation is Signature && (rule@->Authority_0.len() != 32
            || block@.attestation->Signature_0.len() != 64) ==> r == Err::<(), LedgerError>(
            LedgerError::InvalidSignature,
        ),
{
    match rule {
        Consensus::Authority(key) => match &block.attestation {
            Attestation::Signature(s) => {
                let h = block.hash();
                if crate::crypto::accepts(key, &h, s) {
                    Ok(())
                } else {
                    Err(LedgerError::InvalidSignature)
                }
            },
            Attestation::Nonce(_) => Err(LedgerError::InvalidSignature),
        },
        Consensus::ProofOfWork(d) => match &block.attestation {
            Attestation::Nonce(_) => valid_proof(block, *d),
            Attestation::Signature(_) => Err(LedgerError::InvalidProof),
        },
    }
}

/// The verdict on a block from the results of its three checks.
pub fn block_outcome(
    linked: bool,
    transactions: Result<(), LedgerError>,
    attestation: Result<(), LedgerError>,
) -> (r: Result<(), LedgerError>)
    ensures
        r == spec_block_outcome(linked, transactions, attestation),
{
    if !linked {
        Err(LedgerError::InvalidPreviousHash)
    } else if transactions.is_err() {
        transactions
    } else {
        attestation
    }
}

/// Checks `block` as the successor of `previous`: its link, each of its
/// transactions, and its attestation. Says which check failed first.
pub fn check_block(previous: &Block, block: &Block, rule: &Consensus) -> (r: Result<
    (),
    LedgerError,
>)
    ensures
        r == spec_check_block(previous@, block@, rule@),
{
    let expected = previous.hash();
    let linked = same_bytes(&expected, &block.previous_hash);
    let transactions = verify_transactions(&block.transactions);
    let attestation = verify_attestation(block, rule);
    block_outcome(linked, transactions, attestation)
}

/// Whether `block` is a valid successor of `previous`.
pub fn verify_block(previous: &Block, block: &Block, rule: &Consensus) -> (r: bool)
    ensures
        r == (spec_check_block(previous@, block@, rule@) is Ok),
{
    check_block(previous, block, rule).is_ok()
}

} // verus!
