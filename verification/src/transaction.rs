//! Key pairs, and the transfers they sign.

use vstd::prelude::*;
use vstd::string::StringSliceAdditionalSpecFns;
use crate::crypto::{ed25519_accepts, ed25519_public_key, ed25519_signature, sha512};
use crate::encoding::{
    copy_bytes, lemma_byte_array_then, lemma_middle_cancels, lemma_prefix_cancels,
    lemma_suffix_cancels, lemma_then_byte_array, push_byte_array, push_bytes, push_label,
    spec_byte_array, spec_is_digit,
};
use crate::error::LedgerError;

verus! {

/// Whether `b` may stand in the text of a number: a digit, or one of
/// `+ - . E e`.
pub open spec fn spec_is_number_char(b: u8) -> bool {
    spec_is_digit(b) || b == 43 || b == 45 || b == 46 || b == 69 || b == 101
}

/// Whether `s` can be the text of a number: not empty, and written with the
/// characters of a decimal number alone.
pub open spec fn spec_is_number_text(s: Seq<u8>) -> bool {
    s.len() > 0 && forall|i: int| 0 <= i < s.len() ==> spec_is_number_char(#[trigger] s[i])
}

/// Whether `b` may stand in the text of a number.
pub fn is_number_char(b: u8) -> (r: bool)
    ensures
        r == spec_is_number_char(b),
{
    (48 <= b && b <= 57) || b == 43 || b == 45 || b == 46 || b == 69 || b == 101
}

/// Whether `text` can be the text of a number.
pub fn is_number_text(text: &Vec<u8>) -> (r: bool)
    ensures
        r == spec_is_number_text(text@),
{
    if text.len() == 0 {
        return false;
    }
    let mut i: usize = 0;
    while i < text.len()
        invariant
            i <= text.len(),
            forall|j: int| 0 <= j < i ==> spec_is_number_char(#[trigger] text@[j]),
        decreases text.len() - i,
    {
        if !is_number_char(text[i]) {
            return false;
        }
        i += 1;
    }
    true
}

/// An amount, held as the text that stands in a transaction's canonical
/// text: a decimal number such as `5.0` or `1e-7`. The ledger never
/// computes with it, so two texts of one number are two amounts.
#[derive(Debug)]
pub struct Amount {
    text: Vec<u8>,
}

impl View for Amount {
    type V = Seq<u8>;

    closed spec fn view(&self) -> Seq<u8> {
        self.text@
    }
}

impl Clone for Amount {
    fn clone(&self) -> (r: Self)
        ensures
            r@ == self@,
    {
        proof {
            use_type_invariant(self);
        }
        Amount { text: copy_bytes(&self.text) }
    }
}

impl Amount {
    #[verifier::type_invariant]
    spec fn well_formed(self) -> bool {
        spec_is_number_text(self.text@)
    }

    /// The amount that `text` writes, or `None` where `text` cannot be the
    /// text of a number.
    pub fn from_text(text: Vec<u8>) -> (r: Option<Amount>)
        ensures
            match r {
                Some(a) => a@ == text@ && spec_is_number_text(text@),
                None => !spec_is_number_text(text@),
            },
    {
        if is_number_text(&text) {
            Some(Amount { text })
        } else {
            None
        }
    }

    /// The text of this amount.
    pub fn text(&self) -> (r: &Vec<u8>)
        ensures
            r@ == self@,
            spec_is_number_text(self@),
    {
        proof {
            use_type_invariant(self);
        }
        &self.text
    }
}

/// A transfer of `value` from one address to another.
///
/// An address is the raw public key of its owner. `value` is the amount as
/// the text of a number, which stands in the canonical text as it is.
/// `sign` is empty until the sender signs.
#[derive(Debug)]
pub struct Transaction {
    pub sender_address: Vec<u8>,
    pub receiver_address: Vec<u8>,
    pub value: Amount,
    pub sign: Vec<u8>,
}

/// What a `Transaction` holds, as mathematical values.
pub struct TransactionData {
    pub sender_address: Seq<u8>,
    pub receiver_address: Seq<u8>,
    pub value: Seq<u8>,
    pub sign: Seq<u8>,
}

impl View for Transaction {
    type V = TransactionData;

    open spec fn view(&self) -> TransactionData {
        TransactionData {
            sender_address: self.sender_address@,
            receiver_address: self.receiver_address@,
            value: self.value@,
            sign: self.sign@,
        }
    }
}

/// The full text of a transaction: its fields in a fixed order, each list
/// of bytes as a bracketed list of decimal numbers.
pub open spec fn spec_transaction_text(t: TransactionData) -> Seq<u8> {
    "{\"sender_address\":".spec_bytes() + spec_byte_array(t.sender_address)
        + ",\"receiver_address\":".spec_bytes() + spec_byte_array(t.receiver_address)
        + ",\"value\":".spec_bytes() + t.value + ",\"sign\":".spec_bytes()
        + spec_byte_array(t.sign) + "}".spec_bytes()
}

/// `t` with its signature cleared.
pub open spec fn spec_unsigned(t: TransactionData) -> TransactionData {
    TransactionData { sign: Seq::empty(), ..t }
}

/// The canonical text of a transaction, over which it is signed: its full
/// text with the signature cleared, whatever it holds.
pub open spec fn spec_str_data(t: TransactionData) -> Seq<u8> {
    spec_transaction_text(spec_unsigned(t))
}

/// The message that a transaction's signature covers: the digest of its
/// canonical text.
pub open spec fn spec_transaction_digest(t: TransactionData) -> Seq<u8> {
    sha512(spec_str_data(t))
}

/// `t` with the signature that the key pair in `pkcs8` gives it.
pub open spec fn spec_sign_transaction(pkcs8: Seq<u8>, t: TransactionData) -> TransactionData {
    TransactionData { sign: ed25519_signature(pkcs8, spec_transaction_digest(t)), ..t }
}

/// The verdict on a transaction, given whether its sender's key accepts its
/// signature.
pub open spec fn spec_transaction_outcome(t: TransactionData, accepted: bool) -> Result<
    (),
    LedgerError,
> {
    if t.sign.len() == 0 {
        Err(LedgerError::EmptySignature)
    } else if accepted {
        Ok(())
    } else {
        Err(LedgerError::InvalidSignature)
    }
}

/// The verdict on a transaction: an empty signature is refused as such;
/// otherwise the sender's key must accept the signature for the digest of
/// the canonical text.
pub open spec fn spec_verify_transaction(t: TransactionData) -> Result<(), LedgerError> {
    spec_transaction_outcome(
        t,
        ed25519_accepts(t.sender_address, spec_transaction_digest(t), t.sign),
    )
}

/// The part of a transaction's full text that stands before its value.
pub open spec fn spec_text_before_value(t: TransactionData) -> Seq<u8> {
    "{\"sender_address\":".spec_bytes() + spec_byte_array(t.sender_address)
        + ",\"receiver_address\":".spec_bytes() + spec_byte_array(t.receiver_address)
        + ",\"value\":".spec_bytes()
}

/// The part of a transaction's full text that stands after its value.
pub open spec fn spec_text_after_value(t: TransactionData) -> Seq<u8> {
    ",\"sign\":".spec_bytes() + spec_byte_array(t.sign) + "}".spec_bytes()
}

/// The full text of a transaction is its value's text between two parts
/// that do not depend on the value.
pub proof fn lemma_text_around_value(t: TransactionData)
    ensures
        spec_transaction_text(t) == spec_text_before_value(t) + t.value
            + spec_text_after_value(t),
{
    assert(spec_transaction_text(t) =~= spec_text_before_value(t) + t.value
        + spec_text_after_value(t));
}

/// What follows the receiver in a transaction's full text.
pub open spec fn spec_text_after_receiver(t: TransactionData) -> Seq<u8> {
    (",\"value\":".spec_bytes() + t.value + ",\"sign\":".spec_bytes())
        + spec_byte_array(t.sign) + "}".spec_bytes()
}

/// What follows the sender in a transaction's full text.
pub open spec fn spec_text_after_sender(t: TransactionData) -> Seq<u8> {
    ",\"receiver_address\":".spec_bytes() + (spec_byte_array(t.receiver_address)
        + spec_text_after_receiver(t))
}

/// The full text of a transaction, read from the front: a label, the
/// sender, and what follows the sender.
pub proof fn lemma_text_from_the_front(t: TransactionData)
    ensures
        spec_transaction_text(t) == "{\"sender_address\":".spec_bytes() + (spec_byte_array(
            t.sender_address,
        ) + spec_text_after_sender(t)),
{
    assert(spec_transaction_text(t) =~= "{\"sender_address\":".spec_bytes() + (spec_byte_array(
        t.sender_address,
    ) + spec_text_after_sender(t)));
}

/// Two transactions with the same full text are the same transaction.
pub proof fn lemma_transaction_text_injective(a: TransactionData, b: TransactionData)
    requires
        spec_transaction_text(a) == spec_transaction_text(b),
    ensures
        a == b,
{
    lemma_text_from_the_front(a);
    lemma_text_from_the_front(b);
    lemma_prefix_cancels(
        "{\"sender_address\":".spec_bytes(),
        spec_byte_array(a.sender_address) + spec_text_after_sender(a),
        spec_byte_array(b.sender_address) + spec_text_after_sender(b),
    );
    lemma_byte_array_then(
        a.sender_address,
        spec_text_after_sender(a),
        b.sender_address,
        spec_text_after_sender(b),
    );
    lemma_prefix_cancels(
        ",\"receiver_address\":".spec_bytes(),
        spec_byte_array(a.receiver_address) + spec_text_after_receiver(a),
        spec_byte_array(b.receiver_address) + spec_text_after_receiver(b),
    );
    lemma_byte_array_then(
        a.receiver_address,
        spec_text_after_receiver(a),
        b.receiver_address,
        spec_text_after_receiver(b),
    );
    let middle_a = ",\"value\":".spec_bytes() + a.value
        + ",\"sign\":".spec_bytes();
    let middle_b = ",\"value\":".spec_bytes() + b.value
        + ",\"sign\":".spec_bytes();
    lemma_suffix_cancels(
        middle_a + spec_byte_array(a.sign),
        middle_b + spec_byte_array(b.sign),
        "}".spec_bytes(),
    );
    lemma_then_byte_array(middle_a, a.sign, middle_b, b.sign);
    lemma_middle_cancels(
        ",\"value\":".spec_bytes(),
        a.value,
        b.value,
        ",\"sign\":".spec_bytes(),
    );
}

/// Two transactions with the same canonical text have the same sender,
/// the same receiver and the same value: a signature covers all three.
pub proof fn lemma_str_data_injective(a: TransactionData, b: TransactionData)
    requires
        spec_str_data(a) == spec_str_data(b),
    ensures
        a.sender_address == b.sender_address,
        a.receiver_address == b.receiver_address,
        a.value == b.value,
{
    lemma_transaction_text_injective(spec_unsigned(a), spec_unsigned(b));
}

/// A transaction whose value is changed has another text, in full and as
/// it is signed: a signature over the old text does not cover the new one.
pub proof fn lemma_value_change_changes_text(t: TransactionData, value: Seq<u8>)
    requires
        value != t.value,
    ensures
        spec_str_data(TransactionData { value: value, ..t }) != spec_str_data(t),
        spec_transaction_text(TransactionData { value: value, ..t }) != spec_transaction_text(t),
{
    let changed = TransactionData { value: value, ..t };
    if spec_transaction_text(changed) == spec_transaction_text(t) {
        lemma_transaction_text_injective(changed, t);
    }
    if spec_str_data(changed) == spec_str_data(t) {
        lemma_str_data_injective(changed, t);
    }
}

impl Clone for Transaction {
    fn clone(&self) -> (r: Self)
        ensures
            r@ == self@,
    {
        Transaction {
            sender_address: copy_bytes(&self.sender_address),
            receiver_address: copy_bytes(&self.receiver_address),
            value: self.value.clone(),
            sign: copy_bytes(&self.sign),
        }
    }
}

/// Appends the text of a transaction with the given fields to `out`.
fn push_fields(
    out: &mut Vec<u8>,
    sender_address: &Vec<u8>,
    receiver_address: &Vec<u8>,
    value: &Amount,
    sign: &Vec<u8>,
)
    ensures
        final(out)@ == old(out)@ + spec_transaction_text(
            TransactionData {
                sender_address: sender_address@,
                receiver_address: receiver_address@,
                value: value@,
                sign: sign@,
            },
        ),
{
    push_label(out, "{\"sender_address\":");
    push_byte_array(out, sender_address);
    push_label(out, ",\"receiver_address\":");
    push_byte_array(out, receiver_address);
    push_label(out, ",\"value\":");
    push_bytes(out, value.text());
    push_label(out, ",\"sign\":");
    push_byte_array(out, sign);
    push_label(out, "}");
    proof {
        assert(final(out)@ =~= old(out)@ + spec_transaction_text(
            TransactionData {
                sender_address: sender_address@,
                receiver_address: receiver_address@,
                value: value@,
                sign: sign@,
            },
        ));
    }
}

impl Transaction {
    /// Appends the full text of this transaction, signature included, to
    /// `out`.
    pub fn push_text(&self, out: &mut Vec<u8>)
        ensures
            final(out)@ == old(out)@ + spec_transaction_text(self@),
    {
        push_fields(out, &self.sender_address, &self.receiver_address, &self.value, &self.sign);
    }

    /// The canonical text of this transaction.
    pub fn str_data(&self) -> (r: Vec<u8>)
        ensures
            r@ == spec_str_data(self@),
    {
        let mut out: Vec<u8> = Vec::new();
        let cleared: Vec<u8> = Vec::new();
        push_fields(&mut out, &self.sender_address, &self.receiver_address, &self.value, &cleared);
        proof {
            assert(cleared@ =~= Seq::<u8>::empty());
            assert(out@ =~= spec_str_data(self@));
        }
        out
    }

    /// The digest of the canonical text: the message that is signed.
    pub fn digest(&self) -> (r: Vec<u8>)
        ensures
            r@ == spec_transaction_digest(self@),
            r@.len() == 64,
    {
        let text = self.str_data();
        crate::crypto::digest(&text)
    }
}

/// The verdict on `t` once it is known whether the sender's key accepts the
/// signature.
pub fn transaction_outcome(t: &Transaction, accepted: bool) -> (r: Result<(), LedgerError>)
    ensures
        r == spec_transaction_outcome(t@, accepted),
{
    if t.sign.len() == 0 {
        Err(LedgerError::EmptySignature)
    } else if accepted {
        Ok(())
    } else {
        Err(LedgerError::InvalidSignature)
    }
}

/// Checks that `t` was signed by its sender and not changed since.
pub fn verify_transaction(t: &Transaction) -> (r: Result<(), LedgerError>)
    ensures
        r == spec_verify_transaction(t@),
        t@.sign.len() > 0 && (t@.sender_address.len() != 32 || t@.sign.len() != 64) ==> r == Err::<
            (),
            LedgerError,
        >(LedgerError::InvalidSignature),
{
    if t.sign.len() == 0 {
        return transaction_outcome(t, false);
    }
    let message = t.digest();
    let accepted = crate::crypto::accepts(&t.sender_address, &message, &t.sign);
    transaction_outcome(t, accepted)
}

/// An Ed25519 key pair: the private key material as a PKCS#8 document, and
/// the public key, which serves as the owner's address.
///
/// The address is always the public half of the private key material.
#[derive(Debug)]
pub struct Wallet {
    private_key: Vec<u8>,
    address: Vec<u8>,
}

impl Wallet {
    #[verifier::type_invariant]
    spec fn well_formed(self) -> bool {
        ed25519_public_key(self.private_key@) == Some(self.address@) && self.address@.len() == 32
    }

    /// The private key material.
    pub closed spec fn spec_private_key(&self) -> Seq<u8> {
        self.private_key@
    }

    /// The public key.
    pub closed spec fn spec_address(&self) -> Seq<u8> {
        self.address@
    }

    /// The key pair that the PKCS#8 document `private_key` holds, or `None`
    /// where the document is rejected.
    pub fn from_pkcs8(private_key: Vec<u8>) -> (r: Option<Wallet>)
        ensures
            match r {
                Some(w) => w.spec_private_key() == private_key@ && ed25519_public_key(
                    private_key@,
                ) == Some(w.spec_address()) && w.spec_address().len() == 32,
                None => ed25519_public_key(private_key@) is None,
            },
    {
        match crate::crypto::public_key(&private_key) {
            Some(address) => Some(Wallet { private_key, address }),
            None => None,
        }
    }

    /// A fresh key pair from the system's random source.
    ///
    /// Whether one comes back is for the random source to decide; one that
    /// does is a pair whose address is the public half of its key material.
    pub fn new() -> (r: Result<Wallet, LedgerError>)
        ensures
            match r {
                Ok(w) => ed25519_public_key(w.spec_private_key()) == Some(w.spec_address())
                    && w.spec_address().len() == 32,
                Err(e) => e == LedgerError::RandomSourceUnavailable,
            },
    {
        match crate::crypto::generate_pkcs8() {
            Some(document) => Self::from_generated(document),
            None => Err(LedgerError::RandomSourceUnavailable),
        }
    }

    /// The key pair of a freshly generated document; a document that is
    /// rejected counts as a failure of the source it came from.
    pub fn from_generated(document: Vec<u8>) -> (r: Result<Wallet, LedgerError>)
        ensures
            match r {
                Ok(w) => w.spec_private_key() == document@ && ed25519_public_key(document@)
                    == Some(w.spec_address()) && w.spec_address().len() == 32,
                Err(e) => e == LedgerError::RandomSourceUnavailable && ed25519_public_key(
                    document@,
                ) is None,
            },
    {
        match Self::from_pkcs8(document) {
            Some(w) => Ok(w),
            None => Err(LedgerError::RandomSourceUnavailable),
        }
    }

    /// The public key, which is this wallet's address.
    pub fn address(&self) -> (r: &Vec<u8>)
        ensures
            r@ == self.spec_address(),
            r@.len() == 32,
            ed25519_public_key(self.spec_private_key()) == Some(self.spec_address()),
    {
        proof {
            use_type_invariant(self);
        }
        &self.address
    }

    /// Signs `message` with the private key.
    pub fn sign(&self, message: &Vec<u8>) -> (r: Vec<u8>)
        ensures
            r@ == ed25519_signature(self.spec_private_key(), message@),
            r@.len() == 64,
            ed25519_accepts(self.spec_address(), message@, r@),
    {
        proof {
            use_type_invariant(self);
        }
        crate::crypto::sign(&self.private_key, message)
    }

    /// A copy of `transaction` that carries this wallet's signature over
    /// the digest of its canonical text. Where this wallet is the sender,
    /// the copy verifies.
    pub fn sign_transaction(&self, transaction: &Transaction) -> (r: Transaction)
        ensures
            r@ == spec_sign_transaction(self.spec_private_key(), transaction@),
            r@.sign.len() == 64,
            transaction@.sender_address == self.spec_address() ==> spec_verify_transaction(r@)
                is Ok,
    {
        let message = transaction.digest();
        let sign = self.sign(&message);
        let r = Transaction {
            sender_address: copy_bytes(&transaction.sender_address),
            receiver_address: copy_bytes(&transaction.receiver_address),
            value: transaction.value.clone(),
            sign,
        };
        proof {
            assert(spec_unsigned(r@) == spec_unsigned(transaction@));
        }
        r
    }

    /// A signed transfer of `value` from this wallet to `receiver_address`.
    /// It always verifies.
    pub fn send(&self, receiver_address: &Vec<u8>, value: &Amount) -> (r: Transaction)
        ensures
            r@ == spec_sign_transaction(
                self.spec_private_key(),
                TransactionData {
                    sender_address: self.spec_address(),
                    receiver_address: receiver_address@,
                    value: value@,
                    sign: Seq::empty(),
                },
            ),
            r@.sign.len() == 64,
            spec_verify_transaction(r@) is Ok,
    {
        let t = Transaction {
            sender_address: copy_bytes(&self.address),
            receiver_address: copy_bytes(receiver_address),
            value: value.clone(),
            sign: Vec::new(),
        };
        self.sign_transaction(&t)
    }
}

} // verus!
