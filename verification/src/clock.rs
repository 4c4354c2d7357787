//! Times as text, and the wall clock as the `chrono` crate reads it.

use vstd::prelude::*;
use crate::encoding::{copy_bytes, spec_is_digit};

verus! {

/// Whether `b` may stand in the text of a time: a digit, or one of
/// `+ - . : T Z`.
pub open spec fn spec_is_time_char(b: u8) -> bool {
    spec_is_digit(b) || b == 43 || b == 45 || b == 46 || b == 58 || b == 84 || b == 90
}

/// Whether `s` can be the text of a time: not empty, and written with the
/// characters of an RFC 3339 date and time in UTC alone.
pub open spec fn spec_is_time_text(s: Seq<u8>) -> bool {
    s.len() > 0 && forall|i: int| 0 <= i < s.len() ==> spec_is_time_char(#[trigger] s[i])
}

/// Whether `b` may stand in the text of a time.
pub fn is_time_char(b: u8) -> (r: bool)
    ensures
        r == spec_is_time_char(b),
{
    (48 <= b && b <= 57) || b == 43 || b == 45 || b == 46 || b == 58 || b == 84 || b == 90
}

/// Whether `text` can be the text of a time.
pub fn is_time_text(text: &Vec<u8>) -> (r: bool)
    ensures
        r == spec_is_time_text(text@),
{
    if text.len() == 0 {
        return false;
    }
    let mut i: usize = 0;
    while i < text.len()
        invariant
            i <= text.len(),
            forall|j: int| 0 <= j < i ==> spec_is_time_char(#[trigger] text@[j]),
        decreases text.len() - i,
    {
        if !is_time_char(text[i]) {
            return false;
        }
        i += 1;
    }
    true
}

/// A point in time, held as the text that stands in a block's canonical
/// text: an RFC 3339 date and time in UTC, such as
/// `2024-05-01T12:34:56.789012345Z`. The ledger never reads it as a time.
#[derive(Debug)]
pub struct Timestamp {
    text: Vec<u8>,
}

impl View for Timestamp {
    type V = Seq<u8>;

    closed spec fn view(&self) -> Seq<u8> {
        self.text@
    }
}

impl Clone for Timestamp {
    fn clone(&self) -> (r: Self)
        ensures
            r@ == self@,
    {
        proof {
            use_type_invariant(self);
        }
        Timestamp { text: copy_bytes(&self.text) }
    }
}

impl Timestamp {
    #[verifier::type_invariant]
    spec fn well_formed(self) -> bool {
        spec_is_time_text(self.text@)
    }

    /// The time that `text` writes, or `None` where `text` cannot be the
    /// text of a time.
    pub fn from_text(text: Vec<u8>) -> (r: Option<Timestamp>)
        ensures
            match r {
                Some(t) => t@ == text@ && spec_is_time_text(text@),
                None => !spec_is_time_text(text@),
            },
    {
        if is_time_text(&text) {
            Some(Timestamp { text })
        } else {
            None
        }
    }

    /// The text of this time.
    pub fn text(&self) -> (r: &Vec<u8>)
        ensures
            r@ == self@,
            spec_is_time_text(self@),
    {
        proof {
            use_type_invariant(self);
        }
        &self.text
    }

    /// The current time, to the precision of the clock. Nothing is known
    /// of it but that it is the text of a time.
    pub fn now() -> (r: Timestamp)
        ensures
            spec_is_time_text(r@),
    {
        let text = current_time_text();
        Timestamp { text }
    }
}

/// Calls `chrono::Utc::now` and `chrono::DateTime::to_rfc3339_opts` with
/// `chrono::SecondsFormat::AutoSi` and `Z` for the offset, which is the
/// text that chrono's serialisation of a UTC time holds between its quotes.
///
/// Trusted: the text is not empty and is written with digits and
/// `+ - . : T Z` alone. Nothing else is claimed: two calls may differ.
#[verifier::external_body]
pub(crate) fn current_time_text() -> (r: Vec<u8>)
    ensures
        spec_is_time_text(r@),
{
    chrono::Utc::now().to_rfc3339_opts(chrono::SecondsFormat::AutoSi, true).into_bytes()
}

} // verus!
