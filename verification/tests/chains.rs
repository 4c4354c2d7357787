use signed_ledger::block::{
    block_outcome, check_block, copy_transactions, leading_zero_bytes, mine, mine_range,
    valid_proof,
    verify_attestation, verify_block, verify_transactions, Attestation, Block, Consensus,
    HASH_LEN,
};
use signed_ledger::clock::{is_time_text, Timestamp};
use signed_ledger::error::LedgerError;
use signed_ledger::ledger::{first_invalid_block, verify_blockchain, Attester, Ledger};
use signed_ledger::transaction::{Amount, Transaction, Wallet};

fn amount(x: f32) -> Amount {
    Amount::from_text(serde_json::to_string(&x).unwrap().into_bytes()).unwrap()
}

fn stamp(text: &str) -> Timestamp {
    Timestamp::from_text(text.as_bytes().to_vec()).unwrap()
}

const NOON: &str = "2024-05-01T12:34:56.789012345Z";

fn template() -> Block {
    Block {
        time: stamp(NOON),
        transactions: vec![],
        previous_hash: vec![],
        attestation: Attestation::Nonce(7),
    }
}

fn pair_of_transfers(alice: &Wallet, bob: &Wallet) -> Vec<Transaction> {
    vec![
        alice.send(bob.address(), &amount(5.0)),
        bob.send(alice.address(), &amount(7.0)),
    ]
}

fn nonce_of(block: &Block) -> u32 {
    match block.attestation {
        Attestation::Nonce(n) => n,
        Attestation::Signature(_) => panic!("a mined block carries a nonce"),
    }
}

#[test]
fn block_text_with_a_nonce() {
    assert_eq!(
        template().text(),
        b"{\"time\":\"2024-05-01T12:34:56.789012345Z\",\"transactions\":[],\"previous_hash\":[],\"nonce\":7}".to_vec()
    );
}

#[test]
fn block_text_clears_a_signature_and_lists_transactions_in_full() {
    let t = Transaction {
        sender_address: vec![1],
        receiver_address: vec![2],
        value: amount(3.5),
        sign: vec![4],
    };
    let block = Block {
        time: stamp("2024-05-01T00:00:00Z"),
        transactions: vec![t.clone(), t],
        previous_hash: vec![8, 9],
        attestation: Attestation::Signature(vec![1, 2, 3]),
    };
    let one = "{\"sender_address\":[1],\"receiver_address\":[2],\"value\":3.5,\"sign\":[4]}";
    let expected = format!(
        "{{\"time\":\"2024-05-01T00:00:00Z\",\"transactions\":[{},{}],\"previous_hash\":[8,9],\"sign\":[]}}",
        one, one
    );
    assert_eq!(block.text(), expected.into_bytes());
}

#[test]
fn block_hash_is_sha512_of_the_text() {
    let expected: Vec<u8> = vec![
        3, 133, 118, 122, 212, 114, 133, 87, 15, 219, 216, 176, 10, 250, 169, 107, 3, 242, 228, 61, 75, 130, 42, 199, 138, 127, 199, 228, 16, 129, 29, 193, 14, 127, 121, 46, 59, 218, 250, 225, 170, 41, 155, 223, 216, 137, 23, 77, 169, 39, 84, 179, 109, 31, 20, 191, 164, 230, 35, 204, 83, 15, 44, 234,
    ];
    assert_eq!(template().hash(), expected);
}

#[test]
fn block_clone_keeps_every_field() {
    let alice = Wallet::new().unwrap();
    let bob = Wallet::new().unwrap();
    let block = Block {
        time: stamp(NOON),
        transactions: pair_of_transfers(&alice, &bob),
        previous_hash: vec![1],
        attestation: Attestation::Signature(vec![5]),
    };
    let copy = block.clone();
    assert_eq!(copy.text(), block.text());
    assert_eq!(copy.transactions.len(), 2);
    assert_eq!(copy_transactions(&block.transactions)[1].sign, block.transactions[1].sign);
    match copy.attestation {
        Attestation::Signature(s) => assert_eq!(s, vec![5]),
        Attestation::Nonce(_) => panic!("the attestation changed its kind"),
    }
}

#[test]
fn leading_zero_bytes_are_counted_from_the_front() {
    let hash = vec![0u8, 0, 5, 0];
    assert!(leading_zero_bytes(&hash, 0));
    assert!(leading_zero_bytes(&hash, 1));
    assert!(leading_zero_bytes(&hash, 2));
    assert!(!leading_zero_bytes(&hash, 3));
    assert!(!leading_zero_bytes(&hash, 4));
    assert!(!leading_zero_bytes(&hash, 5));
    assert!(leading_zero_bytes(&vec![], 0));
    assert!(!leading_zero_bytes(&vec![], 1));
}

#[test]
fn difficulty_zero_accepts_every_block() {
    assert_eq!(valid_proof(&template(), 0), Ok(()));
    let mined = mine(&template(), 0).unwrap();
    assert_eq!(nonce_of(&mined), 0);
}

#[test]
fn unproved_block_is_an_invalid_proof() {
    assert_eq!(valid_proof(&template(), 1), Err(LedgerError::InvalidProof));
    assert_eq!(valid_proof(&template(), HASH_LEN), Err(LedgerError::InvalidProof));
}

#[test]
fn difficulty_beyond_the_hash_cannot_be_met() {
    assert_eq!(valid_proof(&template(), HASH_LEN + 1), Err(LedgerError::InvalidProof));
    assert!(mine(&template(), HASH_LEN + 1).is_none());
}

#[test]
fn mine_finds_the_least_nonce() {
    let mined = mine(&template(), 1).unwrap();
    assert_eq!(mined.hash()[0], 0);
    assert_eq!(valid_proof(&mined, 1), Ok(()));
    assert_eq!(mined.time.text(), &NOON.as_bytes().to_vec());
    assert!(mined.transactions.is_empty());
    assert!(mined.previous_hash.is_empty());
    let found = nonce_of(&mined);
    let mut earlier = template();
    for n in 0..found {
        earlier.attestation = Attestation::Nonce(n);
        assert_eq!(valid_proof(&earlier, 1), Err(LedgerError::InvalidProof));
    }
}

#[test]
fn mine_range_searches_only_its_range() {
    let found = nonce_of(&mine(&template(), 1).unwrap());
    let again = mine_range(&template(), 1, 0, found).unwrap();
    assert_eq!(nonce_of(&again), found);
    if found > 0 {
        assert!(mine_range(&template(), 1, 0, found - 1).is_none());
    }
    let later = mine_range(&template(), 1, found + 1, u32::MAX).unwrap();
    assert!(nonce_of(&later) > found);
    assert_eq!(valid_proof(&later, 1), Ok(()));
    assert!(mine_range(&template(), 1, 5, 4).is_none());
    assert_eq!(nonce_of(&mine_range(&template(), 0, 9, 20).unwrap()), 9);
}

#[test]
fn block_outcome_reports_the_first_failed_check() {
    let bad_tx = Err(LedgerError::EmptySignature);
    let bad_att = Err(LedgerError::InvalidProof);
    assert_eq!(block_outcome(true, Ok(()), Ok(())), Ok(()));
    assert_eq!(block_outcome(false, Ok(()), Ok(())), Err(LedgerError::InvalidPreviousHash));
    assert_eq!(block_outcome(false, bad_tx, bad_att), Err(LedgerError::InvalidPreviousHash));
    assert_eq!(block_outcome(true, bad_tx, bad_att), Err(LedgerError::EmptySignature));
    assert_eq!(block_outcome(true, Ok(()), bad_att), Err(LedgerError::InvalidProof));
}

#[test]
fn transactions_are_checked_in_order() {
    let alice = Wallet::new().unwrap();
    let bob = Wallet::new().unwrap();
    let mut ts = pair_of_transfers(&alice, &bob);
    assert_eq!(verify_transactions(&ts), Ok(()));
    assert_eq!(verify_transactions(&vec![]), Ok(()));
    ts[1].sign = vec![];
    assert_eq!(verify_transactions(&ts), Err(LedgerError::EmptySignature));
    ts[0].value = amount(1.0);
    assert_eq!(verify_transactions(&ts), Err(LedgerError::InvalidSignature));
}

#[test]
fn attestation_of_the_other_kind_fails() {
    let signed = Block {
        time: stamp(NOON),
        transactions: vec![],
        previous_hash: vec![],
        attestation: Attestation::Signature(vec![1]),
    };
    assert_eq!(
        verify_attestation(&signed, &Consensus::ProofOfWork(0)),
        Err(LedgerError::InvalidProof)
    );
    assert_eq!(
        verify_attestation(&template(), &Consensus::Authority(vec![0; 32])),
        Err(LedgerError::InvalidSignature)
    );
}

#[test]
fn mined_block_is_a_valid_successor() {
    let alice = Wallet::new().unwrap();
    let bob = Wallet::new().unwrap();
    let genesis = Block {
        time: stamp("2024-05-01T00:00:00Z"),
        transactions: vec![],
        previous_hash: vec![],
        attestation: Attestation::Nonce(0),
    };
    let draft = Block {
        time: stamp("2024-05-01T00:00:01.5Z"),
        transactions: pair_of_transfers(&alice, &bob),
        previous_hash: genesis.hash(),
        attestation: Attestation::Nonce(0),
    };
    let rule = Consensus::ProofOfWork(1);
    let block = mine(&draft, 1).unwrap();
    assert!(verify_block(&genesis, &block, &rule));
    assert_eq!(check_block(&genesis, &block, &rule), Ok(()));

    let mut unlinked = block.clone();
    unlinked.previous_hash = vec![0; 64];
    assert!(!verify_block(&genesis, &unlinked, &rule));
    assert_eq!(check_block(&genesis, &unlinked, &rule), Err(LedgerError::InvalidPreviousHash));

    let mut altered = block.clone();
    altered.transactions[0].value = amount(1.0);
    assert!(!verify_block(&genesis, &altered, &rule));
    assert_eq!(check_block(&genesis, &altered, &rule), Err(LedgerError::InvalidSignature));

    assert_eq!(check_block(&genesis, &block, &Consensus::ProofOfWork(64)), Err(LedgerError::InvalidProof));
}

#[test]
fn fresh_ledger_holds_only_a_valid_genesis() {
    let ledger = Ledger::new().unwrap();
    assert_eq!(ledger.block_chain.len(), 1);
    assert!(ledger.block_chain[0].transactions.is_empty());
    assert!(ledger.block_chain[0].previous_hash.is_empty());
    let text = String::from_utf8(ledger.block_chain[0].time.text().clone()).unwrap();
    let parsed = chrono::DateTime::parse_from_rfc3339(&text).unwrap().with_timezone(&chrono::Utc);
    assert!(parsed.timestamp() > 1_500_000_000);
    assert_eq!(serde_json::to_string(&parsed).unwrap(), format!("\"{}\"", text));
    assert!(ledger.verify_chain());

    let mined = Ledger::with_difficulty(1);
    assert_eq!(mined.block_chain.len(), 1);
    assert!(mined.block_chain[0].transactions.is_empty());
    assert!(mined.block_chain[0].previous_hash.is_empty());
    assert_eq!(nonce_of(&mined.block_chain[0]), 0);
    assert!(mined.verify_chain());
}

#[test]
fn genesis_at_keeps_the_time_and_the_attester() {
    let ledger = Ledger::genesis_at(Attester::ProofOfWork(3), stamp(NOON));
    assert_eq!(ledger.block_chain.len(), 1);
    assert_eq!(ledger.block_chain[0].time.text(), &NOON.as_bytes().to_vec());
    match ledger.consensus() {
        Consensus::ProofOfWork(d) => assert_eq!(d, 3),
        Consensus::Authority(_) => panic!("the rule changed its kind"),
    }
}

#[test]
fn empty_chain_is_valid() {
    assert!(verify_blockchain(&vec![], &Consensus::ProofOfWork(1)));
    assert_eq!(first_invalid_block(&vec![], &Consensus::ProofOfWork(1)), None);
}

#[test]
fn authority_scenario() {
    let mut ledger = Ledger::new().unwrap();
    let alice = Wallet::new().unwrap();
    let bob = Wallet::new().unwrap();
    let transactions = pair_of_transfers(&alice, &bob);

    assert_eq!(ledger.generate_block(&transactions), Ok(()));
    assert_eq!(ledger.block_chain.len(), 2);
    assert_eq!(ledger.block_chain[1].previous_hash, ledger.block_chain[0].hash());
    assert_eq!(ledger.block_chain[1].transactions.len(), 2);
    assert!(ledger.verify_chain());
    let rule = ledger.consensus();
    assert!(verify_blockchain(&ledger.block_chain, &rule));

    for _ in 0..5 {
        assert_eq!(ledger.generate_block(&transactions), Ok(()));
    }
    assert_eq!(ledger.block_chain.len(), 7);
    assert!(ledger.verify_chain());
    assert_eq!(first_invalid_block(&ledger.block_chain, &rule), None);

    ledger.block_chain[3].transactions[0].value = amount(1.0);
    assert!(!ledger.verify_chain());
    assert!(!verify_blockchain(&ledger.block_chain, &rule));
    assert_eq!(
        first_invalid_block(&ledger.block_chain, &rule),
        Some((3, LedgerError::InvalidSignature))
    );
}

#[test]
fn single_block_scenario_with_tampered_value() {
    let mut ledger = Ledger::new().unwrap();
    let alice = Wallet::new().unwrap();
    let bob = Wallet::new().unwrap();
    ledger.generate_block(&pair_of_transfers(&alice, &bob)).unwrap();
    assert!(ledger.verify_chain());
    ledger.block_chain[1].transactions[0].value = amount(1.0);
    assert!(!ledger.verify_chain());
}

#[test]
fn authority_signature_is_over_the_block_hash() {
    let mut ledger = Ledger::new().unwrap();
    ledger.generate_block_at(&vec![], stamp(NOON)).unwrap();
    let block = &ledger.block_chain[1];
    assert_eq!(block.time.text(), &NOON.as_bytes().to_vec());
    let rule = ledger.consensus();
    assert_eq!(verify_attestation(block, &rule), Ok(()));
    let stranger = Wallet::new().unwrap();
    assert_eq!(
        verify_attestation(block, &Consensus::Authority(stranger.address().clone())),
        Err(LedgerError::InvalidSignature)
    );
    match &block.attestation {
        Attestation::Signature(s) => {
            assert_eq!(s.len(), 64);
            assert_ne!(s, &block.hash());
        },
        Attestation::Nonce(_) => panic!("an authority signs its blocks"),
    }
}

#[test]
fn redirected_link_is_detected() {
    let mut ledger = Ledger::new().unwrap();
    for _ in 0..3 {
        ledger.generate_block(&vec![]).unwrap();
    }
    assert!(ledger.verify_chain());
    ledger.block_chain[2].previous_hash = vec![1, 2, 3];
    assert!(!ledger.verify_chain());
    assert_eq!(
        first_invalid_block(&ledger.block_chain, &ledger.consensus()),
        Some((2, LedgerError::InvalidPreviousHash))
    );
}

#[test]
fn stale_authority_signature_is_detected() {
    let mut ledger = Ledger::new().unwrap();
    ledger.generate_block(&vec![]).unwrap();
    ledger.block_chain[1].time = stamp("1999-01-01T00:00:00Z");
    assert!(!ledger.verify_chain());
    assert_eq!(
        first_invalid_block(&ledger.block_chain, &ledger.consensus()),
        Some((1, LedgerError::InvalidSignature))
    );
}

#[test]
fn unsigned_transaction_makes_the_chain_invalid() {
    let mut ledger = Ledger::new().unwrap();
    let draft = Transaction {
        sender_address: vec![1],
        receiver_address: vec![2],
        value: amount(0.0),
        sign: vec![],
    };
    assert_eq!(ledger.generate_block(&vec![draft]), Ok(()));
    assert!(!ledger.verify_chain());
    assert_eq!(
        first_invalid_block(&ledger.block_chain, &ledger.consensus()),
        Some((1, LedgerError::EmptySignature))
    );
}

#[test]
fn proof_of_work_scenario() {
    let mut ledger = Ledger::with_difficulty(1);
    let alice = Wallet::new().unwrap();
    let bob = Wallet::new().unwrap();
    let transactions = pair_of_transfers(&alice, &bob);
    assert_eq!(ledger.generate_block(&transactions), Ok(()));
    assert_eq!(ledger.generate_block(&transactions), Ok(()));
    assert_eq!(ledger.block_chain.len(), 3);
    assert_eq!(ledger.block_chain[1].hash()[0], 0);
    assert_eq!(ledger.block_chain[2].hash()[0], 0);
    assert_eq!(ledger.block_chain[2].previous_hash, ledger.block_chain[1].hash());
    assert!(ledger.verify_chain());

    ledger.block_chain[1].transactions[0].value = amount(1.0);
    assert!(!ledger.verify_chain());
}

#[test]
fn stale_nonce_is_detected() {
    let mut ledger = Ledger::with_difficulty(1);
    ledger.generate_block_at(&vec![], stamp(NOON)).unwrap();
    ledger.generate_block_at(&vec![], stamp("2024-05-01T12:34:57Z")).unwrap();
    assert!(ledger.verify_chain());
    let good = nonce_of(&ledger.block_chain[2]);
    let mut other = good + 1;
    loop {
        ledger.block_chain[2].attestation = Attestation::Nonce(other);
        if valid_proof(&ledger.block_chain[2], 1).is_err() {
            break;
        }
        other += 1;
    }
    assert!(!ledger.verify_chain());
    assert_eq!(
        first_invalid_block(&ledger.block_chain, &ledger.consensus()),
        Some((2, LedgerError::InvalidProof))
    );
}

#[test]
fn unreachable_difficulty_leaves_the_ledger_as_it_was() {
    let mut ledger = Ledger::with_difficulty(HASH_LEN + 1);
    assert_eq!(ledger.generate_block(&vec![]), Err(LedgerError::InvalidProof));
    assert_eq!(ledger.block_chain.len(), 1);
    assert!(ledger.verify_chain());
}

#[test]
fn changed_value_changes_the_block_text_and_hash() {
    let t = Transaction {
        sender_address: vec![1],
        receiver_address: vec![2],
        value: amount(5.0),
        sign: vec![4],
    };
    let block = Block {
        time: stamp("2024-05-01T00:00:00Z"),
        transactions: vec![t.clone(), t.clone(), t],
        previous_hash: vec![8, 9],
        attestation: Attestation::Signature(vec![1, 2, 3]),
    };
    let mut tampered = block.clone();
    tampered.transactions[1].value = amount(1.0);
    assert_ne!(block.text(), tampered.text());
    assert_ne!(block.hash(), tampered.hash());
}

#[test]
fn times_are_texts_of_dates() {
    assert!(is_time_text(&NOON.as_bytes().to_vec()));
    assert!(is_time_text(&b"+10000-01-01T00:00:00Z".to_vec()));
    assert!(Timestamp::from_text(vec![]).is_none());
    assert!(Timestamp::from_text(b"2024-05-01 12:00:00Z".to_vec()).is_none());
    assert!(Timestamp::from_text(b"2024\",\"x\":\"".to_vec()).is_none());
    let now = Timestamp::now();
    assert!(is_time_text(now.text()));
    assert_eq!(now.clone().text(), now.text());
    let text = String::from_utf8(now.text().clone()).unwrap();
    assert!(chrono::DateTime::parse_from_rfc3339(&text).is_ok());
}

#[test]
fn fresh_ledger_has_a_neutral_genesis_and_a_key_of_32_bytes() {
    let ledger = Ledger::new().unwrap();
    match &ledger.block_chain[0].attestation {
        Attestation::Signature(s) => assert!(s.is_empty()),
        Attestation::Nonce(_) => panic!("an authority's genesis carries a signature"),
    }
    match ledger.consensus() {
        Consensus::Authority(key) => assert_eq!(key.len(), 32),
        Consensus::ProofOfWork(_) => panic!("the rule changed its kind"),
    }
}
