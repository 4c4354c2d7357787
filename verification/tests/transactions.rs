use signed_ledger::encoding::{copy_bytes, push_byte_array, push_bytes, push_decimal, push_label, same_bytes};
use signed_ledger::error::LedgerError;
use signed_ledger::transaction::{
    is_number_text, transaction_outcome, verify_transaction, Amount, Transaction, Wallet,
};

fn hex(s: &str) -> Vec<u8> {
    let digits: Vec<u32> = s.chars().map(|c| c.to_digit(16).unwrap()).collect();
    digits.chunks(2).map(|p| (p[0] * 16 + p[1]) as u8).collect()
}

fn known_document() -> Vec<u8> {
    let mut doc = hex("3051020101300506032b657004220420");
    doc.extend(hex("9d61b19deffd5a60ba844af492ec2cc44449c5697b326919703bac031cae7f60"));
    doc.extend(hex("812100"));
    doc.extend(hex("d75a980182b10ab7d54bfed3c964073a0ee172f3daa62325af021a68f707511a"));
    doc
}

fn amount(x: f32) -> Amount {
    Amount::from_text(serde_json::to_string(&x).unwrap().into_bytes()).unwrap()
}

fn sample() -> Transaction {
    Transaction {
        sender_address: vec![1, 2],
        receiver_address: vec![3],
        value: amount(5.0),
        sign: vec![9, 9],
    }
}

#[test]
fn decimal_digits_of_small_and_large_numbers() {
    let mut out = Vec::new();
    push_decimal(&mut out, 0);
    out.push(b' ');
    push_decimal(&mut out, 10);
    out.push(b' ');
    push_decimal(&mut out, 255);
    out.push(b' ');
    push_decimal(&mut out, u64::MAX);
    assert_eq!(out, b"0 10 255 18446744073709551615".to_vec());
}

#[test]
fn bytes_are_appended_as_they_stand() {
    let mut out = vec![b'a'];
    push_bytes(&mut out, &b"5.0".to_vec());
    push_bytes(&mut out, &vec![]);
    assert_eq!(out, b"a5.0".to_vec());
}

#[test]
fn amounts_are_texts_of_numbers() {
    assert_eq!(amount(5.0).text(), &b"5.0".to_vec());
    assert_eq!(amount(-0.25).text(), &b"-0.25".to_vec());
    assert_eq!(amount(1e-7).text(), &b"1e-7".to_vec());
    assert_eq!(amount(1.5e30).text(), &b"1.5e+30".to_vec());
    assert!(is_number_text(&b"0123456789.+-eE".to_vec()));
    assert!(Amount::from_text(vec![]).is_none());
    assert!(Amount::from_text(b"null".to_vec()).is_none());
    assert!(Amount::from_text(b"5.0,\"sign\":[]".to_vec()).is_none());
    assert!(Amount::from_text(b"5 ".to_vec()).is_none());
    assert_eq!(amount(7.0).clone().text(), &b"7.0".to_vec());
}

#[test]
fn canonical_text_is_the_serialised_record_with_an_empty_signature() {
    let t = Transaction {
        sender_address: vec![1],
        receiver_address: vec![2],
        value: amount(5.0),
        sign: vec![9, 9],
    };
    assert_eq!(
        t.str_data(),
        b"{\"sender_address\":[1],\"receiver_address\":[2],\"value\":5.0,\"sign\":[]}".to_vec()
    );
}

#[test]
fn byte_arrays_are_bracketed_lists() {
    let mut out = vec![b'x'];
    push_byte_array(&mut out, &vec![]);
    push_byte_array(&mut out, &vec![7]);
    push_byte_array(&mut out, &vec![0, 10, 255]);
    assert_eq!(out, b"x[][7][0,10,255]".to_vec());
}

#[test]
fn labels_are_appended_as_they_stand() {
    let mut out = vec![b'a'];
    push_label(&mut out, "\"k\":");
    assert_eq!(out, b"a\"k\":".to_vec());
}

#[test]
fn copies_and_comparisons_of_bytes() {
    let v = vec![1u8, 2, 3];
    assert_eq!(copy_bytes(&v), v);
    assert!(same_bytes(&v, &vec![1, 2, 3]));
    assert!(!same_bytes(&v, &vec![1, 2, 4]));
    assert!(!same_bytes(&v, &vec![1, 2]));
    assert!(same_bytes(&vec![], &vec![]));
}

#[test]
fn canonical_text_clears_the_signature() {
    let t = sample();
    assert_eq!(
        t.str_data(),
        b"{\"sender_address\":[1,2],\"receiver_address\":[3],\"value\":5.0,\"sign\":[]}".to_vec()
    );
}

#[test]
fn full_text_keeps_the_signature() {
    let t = sample();
    let mut out = Vec::new();
    t.push_text(&mut out);
    assert_eq!(
        out,
        b"{\"sender_address\":[1,2],\"receiver_address\":[3],\"value\":5.0,\"sign\":[9,9]}".to_vec()
    );
}

#[test]
fn digest_is_sha512_of_the_canonical_text() {
    let expected: Vec<u8> = vec![
        126, 132, 39, 152, 54, 111, 192, 247, 249, 163, 143, 137, 134, 63, 141, 32, 111, 252, 220, 216, 30, 163, 217, 193, 33, 156, 33, 139, 69, 234, 198, 46, 255, 224, 71, 104, 136, 197, 222, 119, 199, 209, 86, 36, 100, 169, 107, 195, 108, 11, 134, 241, 225, 183, 114, 219, 79, 36, 231, 52, 168, 75, 144, 204,
    ];
    assert_eq!(sample().digest(), expected);
}

#[test]
fn clone_keeps_every_field() {
    let t = sample();
    let c = t.clone();
    assert_eq!(c.sender_address, t.sender_address);
    assert_eq!(c.receiver_address, t.receiver_address);
    assert_eq!(c.value.text(), t.value.text());
    assert_eq!(c.sign, t.sign);
}

#[test]
fn wallet_address_is_the_public_half_of_the_document() {
    let w = Wallet::from_pkcs8(known_document()).unwrap();
    assert_eq!(
        w.address(),
        &hex("d75a980182b10ab7d54bfed3c964073a0ee172f3daa62325af021a68f707511a")
    );
}

#[test]
fn wallet_signs_as_the_standard_vector_says() {
    let w = Wallet::from_pkcs8(known_document()).unwrap();
    let mut expected = hex("e5564300c360ac729086e2cc806e828a84877f1eb8e5d974d873e06522490155");
    expected.extend(hex("5fb8821590a33bacc61e39701cf9b46bd25bf5f0595bbe24655141438e7a100b"));
    assert_eq!(w.sign(&vec![]), expected);
}

#[test]
fn rejected_document_gives_no_wallet() {
    assert!(Wallet::from_pkcs8(vec![1, 2, 3]).is_none());
    assert!(Wallet::from_pkcs8(vec![]).is_none());
    let mut damaged = known_document();
    damaged[20] ^= 1;
    assert!(Wallet::from_pkcs8(damaged).is_none());
}

#[test]
fn rejected_generated_document_counts_as_random_source_failure() {
    match Wallet::from_generated(vec![0; 10]) {
        Err(e) => assert_eq!(e, LedgerError::RandomSourceUnavailable),
        Ok(_) => panic!("a rejected document gave a wallet"),
    }
    assert!(Wallet::from_generated(known_document()).is_ok());
}

#[test]
fn fresh_wallets_differ() {
    let a = Wallet::new().unwrap();
    let b = Wallet::new().unwrap();
    assert_eq!(a.address().len(), 32);
    assert_ne!(a.address(), b.address());
}

#[test]
fn round_trip_signing() {
    let alice = Wallet::new().unwrap();
    let bob = Wallet::new().unwrap();
    let t = alice.send(bob.address(), &amount(5.0));
    assert_eq!(&t.sender_address, alice.address());
    assert_eq!(&t.receiver_address, bob.address());
    assert_eq!(t.value.text(), &b"5.0".to_vec());
    assert_eq!(t.sign.len(), 64);
    assert_eq!(verify_transaction(&t), Ok(()));
}

#[test]
fn send_signs_the_digest_of_the_canonical_text() {
    let alice = Wallet::from_pkcs8(known_document()).unwrap();
    let t = alice.send(&vec![3], &amount(5.0));
    assert_eq!(t.sign, alice.sign(&t.digest()));
    assert_ne!(t.sign, t.digest());
}

#[test]
fn sign_transaction_keeps_the_fields() {
    let alice = Wallet::new().unwrap();
    let draft = Transaction {
        sender_address: alice.address().clone(),
        receiver_address: vec![1, 2, 3],
        value: amount(7.0),
        sign: vec![],
    };
    let signed = alice.sign_transaction(&draft);
    assert_eq!(signed.sender_address, draft.sender_address);
    assert_eq!(signed.receiver_address, draft.receiver_address);
    assert_eq!(signed.value.text(), draft.value.text());
    assert_eq!(verify_transaction(&signed), Ok(()));
}

#[test]
fn signing_for_another_sender_does_not_verify() {
    let alice = Wallet::new().unwrap();
    let bob = Wallet::new().unwrap();
    let draft = Transaction {
        sender_address: bob.address().clone(),
        receiver_address: alice.address().clone(),
        value: amount(7.0),
        sign: vec![],
    };
    let signed = alice.sign_transaction(&draft);
    assert_eq!(verify_transaction(&signed), Err(LedgerError::InvalidSignature));
}

#[test]
fn tampered_value_is_rejected() {
    let alice = Wallet::new().unwrap();
    let bob = Wallet::new().unwrap();
    let mut t = alice.send(bob.address(), &amount(5.0));
    t.value = amount(7.0);
    assert_eq!(verify_transaction(&t), Err(LedgerError::InvalidSignature));
}

#[test]
fn tampered_receiver_is_rejected() {
    let alice = Wallet::new().unwrap();
    let bob = Wallet::new().unwrap();
    let mut t = alice.send(bob.address(), &amount(5.0));
    t.receiver_address = alice.address().clone();
    assert_eq!(verify_transaction(&t), Err(LedgerError::InvalidSignature));
}

#[test]
fn empty_signature_is_rejected_as_such() {
    let mut t = sample();
    t.sign = vec![];
    assert_eq!(verify_transaction(&t), Err(LedgerError::EmptySignature));
}

#[test]
fn malformed_key_or_signature_is_rejected() {
    assert_eq!(verify_transaction(&sample()), Err(LedgerError::InvalidSignature));
    let alice = Wallet::new().unwrap();
    let mut short = alice.send(&vec![3], &amount(5.0));
    short.sign.pop();
    assert_eq!(verify_transaction(&short), Err(LedgerError::InvalidSignature));
    let mut long_key = alice.send(&vec![3], &amount(5.0));
    long_key.sender_address.push(0);
    assert_eq!(verify_transaction(&long_key), Err(LedgerError::InvalidSignature));
}

#[test]
fn outcome_follows_the_signature_and_the_answer() {
    let signed = sample();
    let mut unsigned = sample();
    unsigned.sign = vec![];
    assert_eq!(transaction_outcome(&signed, true), Ok(()));
    assert_eq!(transaction_outcome(&signed, false), Err(LedgerError::InvalidSignature));
    assert_eq!(transaction_outcome(&unsigned, true), Err(LedgerError::EmptySignature));
    assert_eq!(transaction_outcome(&unsigned, false), Err(LedgerError::EmptySignature));
}

#[test]
fn every_failure_has_its_message() {
    assert_eq!(LedgerError::EmptySignature.message(), "transaction's sign is empty.");
    assert_eq!(LedgerError::InvalidSignature.message(), "invalid sign.");
    assert_eq!(LedgerError::InvalidPreviousHash.message(), "invalid previous hash.");
    assert_eq!(LedgerError::InvalidProof.message(), "invalid nonce.");
    assert_eq!(LedgerError::RandomSourceUnavailable.message(), "random source unavailable.");
}

#[test]
fn changed_field_changes_the_canonical_text() {
    let t = sample();
    let mut other_value = sample();
    other_value.value = amount(1.0);
    assert_ne!(t.str_data(), other_value.str_data());
    let mut other_sender = sample();
    other_sender.sender_address = vec![12];
    assert_ne!(t.str_data(), other_sender.str_data());
    let mut other_receiver = sample();
    other_receiver.receiver_address = vec![];
    assert_ne!(t.str_data(), other_receiver.str_data());
    let mut other_sign = sample();
    other_sign.sign = vec![1];
    assert_eq!(t.str_data(), other_sign.str_data());
    assert_ne!(t.digest(), other_value.digest());
}

#[test]
fn lists_that_differ_only_in_grouping_have_different_texts() {
    let mut one = Vec::new();
    push_byte_array(&mut one, &vec![12]);
    let mut two = Vec::new();
    push_byte_array(&mut two, &vec![1, 2]);
    assert_eq!(one, b"[12]".to_vec());
    assert_eq!(two, b"[1,2]".to_vec());
}
