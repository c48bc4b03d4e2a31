//! Reading the store's report of a failed compare-and-swap.
//!
//! The store says in words which value it holds. The wording is matched with a
//! regular expression; the digits found are then read as a number here.

use crate::message::text_view;
use vstd::prelude::*;

verus! {

/// The wording of the store's report that the expected value was stale.
pub const ERROR_MSG: &'static str = r"current value (?P<current>\d+) is not (?P<expected>\d+)";

/// The group of [`ERROR_MSG`] that holds the value the store has.
pub const CURRENT: &'static str = "current";

#[verifier::external_type_specification]
#[verifier::external_body]
pub struct ExRegexError(regex::Error);

/// What the first match of the regular expression `pattern` in `text` captured
/// in the group named `group`: `None` where `pattern` is no regular expression
/// that the engine accepts, `Some(None)` where it matches nowhere in `text` or
/// the match has no such group, else the captured part of `text`.
pub uninterp spec fn first_capture(pattern: Seq<char>, group: Seq<char>, text: Seq<char>) -> Option<
    Option<Seq<char>>,
>;

/// Compiles `pattern` with `regex::Regex::new`, searches `text` with
/// `Regex::captures` and picks the group `group` with `Captures::name`. The
/// result is a function of the three texts alone, and that is all the
/// contract claims: it gives the result its name, [`first_capture`].
#[verifier::external_body]
fn capture_named(pattern: &str, group: &str, text: &str) -> (r: Result<Option<String>, regex::Error>)
    ensures
        match r {
            Ok(found) => first_capture(pattern@, group@, text@) == Some(text_view(found)),
            Err(_) => first_capture(pattern@, group@, text@) is None,
        },
{
    let re = regex::Regex::new(pattern)?;
    Ok(re.captures(text).and_then(|c| c.name(group)).map(|m| m.as_str().to_string()))
}

/// The digits that a report `text` gives for the store's current value, if
/// `text` is such a report.
pub open spec fn reported_current(text: Seq<char>) -> Option<Seq<char>> {
    match first_capture(ERROR_MSG@, CURRENT@, text) {
        Some(found) => found,
        None => None,
    }
}

/// Finds in `text` the store's report of a stale expectation and hands out the
/// digits of the value that the store holds.
pub fn current_value_text(text: &str) -> (r: Option<String>)
    ensures
        text_view(r) == reported_current(text@),
{
    match capture_named(ERROR_MSG, CURRENT, text) {
        Ok(found) => found,
        Err(_) => None,
    }
}

/// Whether `c` is one of the ten digits `0` to `9`.
pub open spec fn is_digit(c: char) -> bool {
    '0' <= c <= '9'
}

/// The number that a digit stands for.
pub open spec fn digit_value(c: char) -> nat {
    (c as u32 - '0' as u32) as nat
}

/// Whether `s` holds digits only.
pub open spec fn all_digits(s: Seq<char>) -> bool {
    forall|i: int| 0 <= i < s.len() ==> is_digit(#[trigger] s[i])
}

/// The number that a sequence of digits writes in base ten.
pub open spec fn decimal_value(s: Seq<char>) -> nat
    decreases s.len(),
{
    if s.len() == 0 {
        0
    } else {
        10 * decimal_value(s.drop_last()) + digit_value(s.last())
    }
}

/// The machine integer that `s` writes: `s` is not empty, holds digits only,
/// and its number fits.
pub open spec fn parse_decimal_spec(s: Seq<char>) -> Option<usize> {
    if s.len() > 0 && all_digits(s) && decimal_value(s) <= usize::MAX {
        Some(decimal_value(s) as usize)
    } else {
        None
    }
}

/// A prefix of a sequence of digits writes a number that is not larger.
proof fn lemma_decimal_prefix(s: Seq<char>, n: int)
    requires
        0 <= n <= s.len(),
    ensures
        decimal_value(s.take(n)) <= decimal_value(s),
    decreases s.len() - n,
{
    if n < s.len() {
        lemma_decimal_prefix(s, n + 1);
        assert(s.take(n + 1).drop_last() == s.take(n));
    } else {
        assert(s.take(n) == s);
    }
}

/// Reads a non-empty run of the digits `0` to `9` as a number in base ten.
/// Any other character, the empty text and a number beyond the machine's
/// integers give `None`.
pub fn parse_decimal(s: &str) -> (r: Option<usize>)
    ensures
        r == parse_decimal_spec(s@),
{
    let mut value: usize = 0;
    let mut empty: bool = true;
    for c in it: s.chars()
        invariant
            it.seq() == s@,
            empty == (it.index() == 0),
            all_digits(s@.take(it.index() as int)),
            value == decimal_value(s@.take(it.index() as int)),
    {
        let ghost k = it.index() as int;
        proof {
            assert(s@.take(k + 1).drop_last() == s@.take(k));
            lemma_decimal_prefix(s@, k + 1);
        }
        if !('0' <= c && c <= '9') {
            return None;
        }
        let digit: usize = (c as u32 - '0' as u32) as usize;
        let Some(tens) = value.checked_mul(10) else {
            return None;
        };
        let Some(next) = tens.checked_add(digit) else {
            return None;
        };
        value = next;
        empty = false;
    }
    assert(s@.take(s@.len() as int) == s@);
    if empty {
        None
    } else {
        Some(value)
    }
}

/// What a report of a stale expectation says of the store: the value it holds,
/// where the digits could be read.
#[derive(Debug, Clone, Copy, PartialEq, Eq, Structural)]
pub struct ConflictDetail {
    pub current: Option<usize>,
}

/// The detail that the captured digits give, if a report was found.
pub open spec fn conflict_detail_spec(captured: Option<Seq<char>>) -> Option<ConflictDetail> {
    match captured {
        Some(digits) => Some(ConflictDetail { current: parse_decimal_spec(digits) }),
        None => None,
    }
}

/// Reads the digits captured from a report, if there are any.
pub fn conflict_detail_of(captured: Option<String>) -> (r: Option<ConflictDetail>)
    ensures
        r == conflict_detail_spec(text_view(captured)),
{
    match captured {
        Some(digits) => Some(ConflictDetail { current: parse_decimal(digits.as_str()) }),
        None => None,
    }
}

/// Extracts from the text of a store error what it says of the store's
/// current value: `None` where the text is no report of a stale expectation.
pub fn conflict_detail(text: &str) -> (r: Option<ConflictDetail>)
    ensures
        r == conflict_detail_spec(reported_current(text@)),
{
    conflict_detail_of(current_value_text(text))
}

} // verus!
