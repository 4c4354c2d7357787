//! Canonical text of numbers and byte strings.
//!
//! Every record is hashed and signed over a compact, JSON-shaped text with a
//! fixed field order. This module holds the pieces of that text that do not
//! depend on a record type: decimal numbers, lists of bytes and fixed labels.

use vstd::prelude::*;
use vstd::string::StringSliceAdditionalSpecFns;

verus! {

/// The decimal digits of `n` in ASCII, most significant first, without
/// leading zeros (`0` is the single digit `0`).
pub open spec fn spec_decimal(n: nat) -> Seq<u8>
    decreases n,
{
    if n < 10 {
        seq![(48 + n) as u8]
    } else {
        spec_decimal(n / 10).push((48 + n % 10) as u8)
    }
}

/// The bytes of `s` as decimal numbers separated by commas.
pub open spec fn spec_byte_list(s: Seq<u8>) -> Seq<u8>
    decreases s.len(),
{
    if s.len() == 0 {
        Seq::empty()
    } else if s.len() == 1 {
        spec_decimal(s[0] as nat)
    } else {
        spec_byte_list(s.drop_last()) + seq![44u8] + spec_decimal(s.last() as nat)
    }
}

/// The bytes of `s` as a bracketed list: `[1,2,3]`.
pub open spec fn spec_byte_array(s: Seq<u8>) -> Seq<u8> {
    seq![91u8] + spec_byte_list(s) + seq![93u8]
}

/// The digits of a number are at least one, and exactly one for a number
/// below ten.
pub proof fn lemma_decimal_len(n: nat)
    ensures
        spec_decimal(n).len() >= 1,
        n < 10 <==> spec_decimal(n).len() == 1,
    decreases n,
{
    if n >= 10 {
        lemma_decimal_len(n / 10);
    }
}

/// Two numbers with the same digits are the same number.
pub proof fn lemma_decimal_injective(a: nat, b: nat)
    requires
        spec_decimal(a) == spec_decimal(b),
    ensures
        a == b,
    decreases a,
{
    lemma_decimal_len(a);
    lemma_decimal_len(b);
    if a < 10 {
        assert(spec_decimal(a)[0] == (48 + a) as u8);
        assert(spec_decimal(b)[0] == (48 + b) as u8);
    } else {
        let high_a = spec_decimal(a / 10);
        let high_b = spec_decimal(b / 10);
        assert(spec_decimal(a).drop_last() =~= high_a);
        assert(spec_decimal(b).drop_last() =~= high_b);
        lemma_decimal_injective(a / 10, b / 10);
        assert(spec_decimal(a).last() == (48 + a % 10) as u8);
        assert(spec_decimal(b).last() == (48 + b % 10) as u8);
    }
}

/// Texts that agree before and after a middle part agree in the middle
/// part too, where they are equal as wholes.
pub proof fn lemma_middle_cancels(before: Seq<u8>, a: Seq<u8>, b: Seq<u8>, after: Seq<u8>)
    requires
        before + a + after == before + b + after,
    ensures
        a == b,
{
    let left = before + a + after;
    let right = before + b + after;
    assert(left.len() == right.len());
    assert(a.len() == b.len());
    assert forall|i: int| 0 <= i < a.len() implies a[i] == b[i] by {
        assert(left[before.len() + i] == a[i]);
        assert(right[before.len() + i] == b[i]);
    }
    assert(a =~= b);
}

/// Whether `b` is an ASCII digit.
pub open spec fn spec_is_digit(b: u8) -> bool {
    48 <= b <= 57
}

/// The digits of a number are digits.
pub proof fn lemma_decimal_digits(n: nat)
    ensures
        forall|i: int|
            0 <= i < spec_decimal(n).len() ==> spec_is_digit(#[trigger] spec_decimal(n)[i]),
    decreases n,
{
    if n >= 10 {
        lemma_decimal_digits(n / 10);
        let high = spec_decimal(n / 10);
        assert forall|i: int| 0 <= i < spec_decimal(n).len() implies spec_is_digit(
            #[trigger] spec_decimal(n)[i],
        ) by {
            if i < high.len() {
                assert(spec_decimal(n)[i] == high[i]);
            }
        }
    }
}

/// A list of bytes is written with digits and commas alone.
pub proof fn lemma_byte_list_chars(s: Seq<u8>)
    ensures
        forall|i: int|
            0 <= i < spec_byte_list(s).len() ==> spec_is_digit(#[trigger] spec_byte_list(s)[i])
                || spec_byte_list(s)[i] == 44,
    decreases s.len(),
{
    if s.len() == 1 {
        lemma_decimal_digits(s[0] as nat);
    } else if s.len() > 1 {
        lemma_byte_list_chars(s.drop_last());
        lemma_decimal_digits(s.last() as nat);
        let front = spec_byte_list(s.drop_last());
        let digits = spec_decimal(s.last() as nat);
        assert forall|i: int| 0 <= i < spec_byte_list(s).len() implies spec_is_digit(
            #[trigger] spec_byte_list(s)[i],
        ) || spec_byte_list(s)[i] == 44 by {
            if i < front.len() {
                assert(spec_byte_list(s)[i] == front[i]);
            } else if i > front.len() {
                assert(spec_byte_list(s)[i] == digits[i - front.len() - 1]);
            }
        }
    }
}

/// Texts that begin alike and are equal as wholes end alike.
pub proof fn lemma_prefix_cancels(before: Seq<u8>, a: Seq<u8>, b: Seq<u8>)
    requires
        before + a == before + b,
    ensures
        a == b,
{
    assert(before + a + Seq::<u8>::empty() =~= before + a);
    assert(before + b + Seq::<u8>::empty() =~= before + b);
    lemma_middle_cancels(before, a, b, Seq::empty());
}

/// Texts that end alike and are equal as wholes begin alike.
pub proof fn lemma_suffix_cancels(a: Seq<u8>, b: Seq<u8>, after: Seq<u8>)
    requires
        a + after == b + after,
    ensures
        a == b,
{
    assert(Seq::<u8>::empty() + a + after =~= a + after);
    assert(Seq::<u8>::empty() + b + after =~= b + after);
    lemma_middle_cancels(Seq::empty(), a, b, after);
}

/// A text splits in one way only at its last occurrence of a byte.
pub proof fn lemma_split_at_last(
    front_a: Seq<u8>,
    back_a: Seq<u8>,
    front_b: Seq<u8>,
    back_b: Seq<u8>,
    mark: u8,
)
    requires
        front_a + seq![mark] + back_a == front_b + seq![mark] + back_b,
        forall|i: int| 0 <= i < back_a.len() ==> back_a[i] != mark,
        forall|i: int| 0 <= i < back_b.len() ==> back_b[i] != mark,
    ensures
        front_a == front_b,
        back_a == back_b,
{
    let a = front_a + seq![mark] + back_a;
    let b = front_b + seq![mark] + back_b;
    assert(a.len() == b.len());
    if back_a.len() < back_b.len() {
        assert(a[front_a.len() as int] == mark);
        assert(b[front_a.len() as int] == back_b[front_a.len() - front_b.len() - 1]);
        assert(false);
    }
    if back_b.len() < back_a.len() {
        assert(b[front_b.len() as int] == mark);
        assert(a[front_b.len() as int] == back_a[front_b.len() - front_a.len() - 1]);
        assert(false);
    }
    assert forall|i: int| 0 <= i < front_a.len() implies front_a[i] == front_b[i] by {
        assert(a[i] == front_a[i]);
        assert(b[i] == front_b[i]);
    }
    assert(front_a =~= front_b);
    assert forall|i: int| 0 <= i < back_a.len() implies back_a[i] == back_b[i] by {
        assert(a[front_a.len() + 1 + i] == back_a[i]);
        assert(b[front_b.len() + 1 + i] == back_b[i]);
    }
    assert(back_a =~= back_b);
}

/// A text splits in one way only at its first occurrence of a byte.
pub proof fn lemma_split_at_first(
    front_a: Seq<u8>,
    back_a: Seq<u8>,
    front_b: Seq<u8>,
    back_b: Seq<u8>,
    mark: u8,
)
    requires
        front_a + seq![mark] + back_a == front_b + seq![mark] + back_b,
        forall|i: int| 0 <= i < front_a.len() ==> front_a[i] != mark,
        forall|i: int| 0 <= i < front_b.len() ==> front_b[i] != mark,
    ensures
        front_a == front_b,
        back_a == back_b,
{
    let a = front_a + seq![mark] + back_a;
    let b = front_b + seq![mark] + back_b;
    assert(a.len() == b.len());
    if front_a.len() < front_b.len() {
        assert(a[front_a.len() as int] == mark);
        assert(b[front_a.len() as int] == front_b[front_a.len() as int]);
        assert(false);
    }
    if front_b.len() < front_a.len() {
        assert(b[front_b.len() as int] == mark);
        assert(a[front_b.len() as int] == front_a[front_b.len() as int]);
        assert(false);
    }
    assert forall|i: int| 0 <= i < front_a.len() implies front_a[i] == front_b[i] by {
        assert(a[i] == front_a[i]);
        assert(b[i] == front_b[i]);
    }
    assert(front_a =~= front_b);
    assert forall|i: int| 0 <= i < back_a.len() implies back_a[i] == back_b[i] by {
        assert(a[front_a.len() + 1 + i] == back_a[i]);
        assert(b[front_b.len() + 1 + i] == back_b[i]);
    }
    assert(back_a =~= back_b);
}

/// Two lists of bytes with the same text hold the same bytes.
pub proof fn lemma_byte_list_injective(a: Seq<u8>, b: Seq<u8>)
    requires
        spec_byte_list(a) == spec_byte_list(b),
    ensures
        a == b,
    decreases a.len(),
{
    if a.len() == 0 || b.len() == 0 {
        if a.len() > 0 {
            lemma_decimal_len(a.last() as nat);
        }
        if b.len() > 0 {
            lemma_decimal_len(b.last() as nat);
        }
        assert(a =~= b);
    } else if a.len() == 1 && b.len() == 1 {
        lemma_decimal_injective(a[0] as nat, b[0] as nat);
        assert(a =~= b);
    } else if a.len() == 1 {
        lemma_decimal_digits(a[0] as nat);
        let i = spec_byte_list(b.drop_last()).len() as int;
        assert(spec_byte_list(b)[i] == 44);
        assert(spec_is_digit(spec_decimal(a[0] as nat)[i]));
        assert(false);
    } else if b.len() == 1 {
        lemma_decimal_digits(b[0] as nat);
        let i = spec_byte_list(a.drop_last()).len() as int;
        assert(spec_byte_list(a)[i] == 44);
        assert(spec_is_digit(spec_decimal(b[0] as nat)[i]));
        assert(false);
    } else {
        lemma_decimal_digits(a.last() as nat);
        lemma_decimal_digits(b.last() as nat);
        lemma_split_at_last(
            spec_byte_list(a.drop_last()),
            spec_decimal(a.last() as nat),
            spec_byte_list(b.drop_last()),
            spec_decimal(b.last() as nat),
            44,
        );
        lemma_decimal_injective(a.last() as nat, b.last() as nat);
        lemma_byte_list_injective(a.drop_last(), b.drop_last());
        assert(a =~= a.drop_last().push(a.last()));
        assert(b =~= b.drop_last().push(b.last()));
    }
}

/// Where two texts begin with bracketed lists and are equal as wholes, the
/// lists hold the same bytes and the texts go on alike.
pub proof fn lemma_byte_array_then(a: Seq<u8>, after_a: Seq<u8>, b: Seq<u8>, after_b: Seq<u8>)
    requires
        spec_byte_array(a) + after_a == spec_byte_array(b) + after_b,
    ensures
        a == b,
        after_a == after_b,
{
    let open_a = seq![91u8] + spec_byte_list(a);
    let open_b = seq![91u8] + spec_byte_list(b);
    lemma_byte_list_chars(a);
    lemma_byte_list_chars(b);
    assert(spec_byte_array(a) + after_a =~= open_a + seq![93u8] + after_a);
    assert(spec_byte_array(b) + after_b =~= open_b + seq![93u8] + after_b);
    assert forall|i: int| 0 <= i < open_a.len() implies open_a[i] != 93 by {
        if i > 0 {
            assert(open_a[i] == spec_byte_list(a)[i - 1]);
        }
    }
    assert forall|i: int| 0 <= i < open_b.len() implies open_b[i] != 93 by {
        if i > 0 {
            assert(open_b[i] == spec_byte_list(b)[i - 1]);
        }
    }
    lemma_split_at_first(open_a, after_a, open_b, after_b, 93);
    lemma_prefix_cancels(seq![91u8], spec_byte_list(a), spec_byte_list(b));
    lemma_byte_list_injective(a, b);
}

/// Where two texts end with bracketed lists and are equal as wholes, the
/// lists hold the same bytes and the texts begin alike.
pub proof fn lemma_then_byte_array(before_a: Seq<u8>, a: Seq<u8>, before_b: Seq<u8>, b: Seq<u8>)
    requires
        before_a + spec_byte_array(a) == before_b + spec_byte_array(b),
    ensures
        a == b,
        before_a == before_b,
{
    let close_a = spec_byte_list(a) + seq![93u8];
    let close_b = spec_byte_list(b) + seq![93u8];
    lemma_byte_list_chars(a);
    lemma_byte_list_chars(b);
    assert(before_a + spec_byte_array(a) =~= before_a + seq![91u8] + close_a);
    assert(before_b + spec_byte_array(b) =~= before_b + seq![91u8] + close_b);
    assert forall|i: int| 0 <= i < close_a.len() implies close_a[i] != 91 by {
        if i < spec_byte_list(a).len() {
            assert(close_a[i] == spec_byte_list(a)[i]);
        }
    }
    assert forall|i: int| 0 <= i < close_b.len() implies close_b[i] != 91 by {
        if i < spec_byte_list(b).len() {
            assert(close_b[i] == spec_byte_list(b)[i]);
        }
    }
    lemma_split_at_last(before_a, close_a, before_b, close_b, 91);
    lemma_suffix_cancels(spec_byte_list(a), spec_byte_list(b), seq![93u8]);
    lemma_byte_list_injective(a, b);
}

/// A text that stands in the middle of a text that itself stands in the
/// middle of a third stands in the middle of the third.
pub proof fn lemma_middle_of_middle(
    outer_before: Seq<u8>,
    before: Seq<u8>,
    middle: Seq<u8>,
    after: Seq<u8>,
    outer_after: Seq<u8>,
)
    ensures
        outer_before + (before + middle + after) + outer_after == (outer_before + before)
            + middle + (after + outer_after),
{
    assert(outer_before + (before + middle + after) + outer_after =~= (outer_before + before)
        + middle + (after + outer_after));
}

/// Appends the decimal digits of `n` to `out`.
pub fn push_decimal(out: &mut Vec<u8>, n: u64)
    ensures
        final(out)@ == old(out)@ + spec_decimal(n as nat),
    decreases n,
{
    if n >= 10 {
        push_decimal(out, n / 10);
    }
    let digit: u8 = (n % 10) as u8;
    out.push(48 + digit);
    proof {
        if n >= 10 {
            assert(final(out)@ =~= old(out)@ + spec_decimal((n / 10) as nat).push((48 + n % 10) as u8));
        } else {
            assert(final(out)@ =~= old(out)@ + seq![(48 + n) as u8]);
        }
    }
}

/// Appends the bracketed list of the bytes of `bytes` to `out`.
pub fn push_byte_array(out: &mut Vec<u8>, bytes: &Vec<u8>)
    ensures
        final(out)@ == old(out)@ + spec_byte_array(bytes@),
{
    out.push(91u8);
    let mut i: usize = 0;
    while i < bytes.len()
        invariant
            i <= bytes.len(),
            out@ == old(out)@ + seq![91u8] + spec_byte_list(bytes@.take(i as int)),
        decreases bytes.len() - i,
    {
        let ghost before = out@;
        if i > 0 {
            out.push(44u8);
        }
        push_decimal(out, bytes[i] as u64);
        proof {
            let prefix = bytes@.take(i + 1);
            assert(prefix.drop_last() =~= bytes@.take(i as int));
            assert(prefix.last() == bytes@[i as int]);
            if i > 0 {
                assert(out@ =~= old(out)@ + seq![91u8] + spec_byte_list(prefix));
            } else {
                assert(spec_byte_list(bytes@.take(0)) =~= Seq::<u8>::empty());
                assert(out@ =~= old(out)@ + seq![91u8] + spec_byte_list(prefix));
            }
        }
        i += 1;
    }
    out.push(93u8);
    proof {
        assert(bytes@.take(bytes.len() as int) =~= bytes@);
        assert(final(out)@ =~= old(out)@ + spec_byte_array(bytes@));
    }
}

/// Appends the bytes of the fixed label `text` to `out`.
pub fn push_label(out: &mut Vec<u8>, text: &str)
    ensures
        final(out)@ == old(out)@ + text.spec_bytes(),
{
    let bytes = text.as_bytes();
    let mut i: usize = 0;
    while i < bytes.len()
        invariant
            i <= bytes.len(),
            bytes@ == text.spec_bytes(),
            out@ == old(out)@ + bytes@.take(i as int),
        decreases bytes.len() - i,
    {
        out.push(bytes[i]);
        proof {
            assert(out@ =~= old(out)@ + bytes@.take(i + 1));
        }
        i += 1;
    }
    proof {
        assert(bytes@.take(bytes.len() as int) =~= bytes@);
    }
}

/// Appends `bytes` to `out`.
pub fn push_bytes(out: &mut Vec<u8>, bytes: &Vec<u8>)
    ensures
        final(out)@ == old(out)@ + bytes@,
{
    let mut i: usize = 0;
    proof {
        assert(out@ =~= old(out)@ + bytes@.take(0));
    }
    while i < bytes.len()
        invariant
            i <= bytes.len(),
            out@ == old(out)@ + bytes@.take(i as int),
        decreases bytes.len() - i,
    {
        out.push(bytes[i]);
        proof {
            assert(out@ =~= old(out)@ + bytes@.take(i + 1));
        }
        i += 1;
    }
    proof {
        assert(bytes@.take(bytes.len() as int) =~= bytes@);
    }
}

/// A copy of `bytes`.
pub fn copy_bytes(bytes: &Vec<u8>) -> (r: Vec<u8>)
    ensures
        r@ == bytes@,
{
    let mut r: Vec<u8> = Vec::new();
    let mut i: usize = 0;
    while i < bytes.len()
        invariant
            i <= bytes.len(),
            r@ == bytes@.take(i as int),
        decreases bytes.len() - i,
    {
        r.push(bytes[i]);
        proof {
            assert(r@ =~= bytes@.take(i + 1));
        }
        i += 1;
    }
    proof {
        assert(bytes@.take(bytes.len() as int) =~= bytes@);
    }
    r
}

/// Whether `a` and `b` hold the same bytes.
pub fn same_bytes(a: &Vec<u8>, b: &Vec<u8>) -> (r: bool)
    ensures
        r == (a@ == b@),
{
    if a.len() != b.len() {
        return false;
    }
    let mut i: usize = 0;
    while i < a.len()
        invariant
            i <= a.len(),
            a.len() == b.len(),
            a@.take(i as int) == b@.take(i as int),
        decreases a.len() - i,
    {
        if a[i] != b[i] {
            return false;
        }
        proof {
            assert(a@.take(i + 1) =~= a@.take(i as int).push(a@[i as int]));
            assert(b@.take(i + 1) =~= b@.take(i as int).push(b@[i as int]));
        }
        i += 1;
    }
    proof {
        assert(a@.take(a.len() as int) =~= a@);
        assert(b@.take(b.len() as int) =~= b@);
    }
    true
}

} // verus!
