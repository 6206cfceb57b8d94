//! Regular expressions, as the `regex` crate compiles and matches them.
//!
//! A pattern is kept as text and compiled where it is used. What the crate
//! answers depends on the pattern and the text alone, so each answer has a
//! name in contracts; nothing here says what a given pattern matches.

use vstd::prelude::*;
use crate::text::occurs_in;

verus! {

/// Whether `regex::Regex::new` accepts the pattern.
pub uninterp spec fn pattern_compiles(pattern: Seq<char>) -> bool;

/// What `regex::Regex::is_match` answers for a pattern that compiles.
pub uninterp spec fn pattern_is_match(pattern: Seq<char>, text: Seq<char>) -> bool;

/// What `regex::Regex::captures_iter` yields for a pattern that compiles:
/// for each match, from left to right, the matched text and the text of the
/// first capture group where that group took part in the match.
pub uninterp spec fn pattern_finds(pattern: Seq<char>, text: Seq<char>) -> Seq<(Seq<char>, Option<Seq<char>>)>;

/// The pattern compiles and matches somewhere in the text.
pub open spec fn hits(pattern: Seq<char>, text: Seq<char>) -> bool {
    pattern_compiles(pattern) && pattern_is_match(pattern, text)
}

/// The matches of the pattern in the text; none where it does not compile.
pub open spec fn finds(pattern: Seq<char>, text: Seq<char>) -> Seq<(Seq<char>, Option<Seq<char>>)> {
    if pattern_compiles(pattern) {
        pattern_finds(pattern, text)
    } else {
        Seq::empty()
    }
}

/// One match of a pattern in a text.
#[derive(Debug)]
pub struct Found {
    /// The text that the whole pattern matched.
    pub whole: String,
    /// The text of the first capture group, if the pattern has one and it
    /// took part in the match.
    pub group: Option<String>,
}

impl View for Found {
    type V = (Seq<char>, Option<Seq<char>>);

    open spec fn view(&self) -> (Seq<char>, Option<Seq<char>>) {
        (
            self.whole@,
            match self.group {
                Some(g) => Some(g@),
                None => None,
            },
        )
    }
}

/// The values of a sequence of matches.
pub open spec fn found_views(founds: Seq<Found>) -> Seq<(Seq<char>, Option<Seq<char>>)> {
    Seq::new(founds.len(), |i: int| founds[i]@)
}

/// Every matched text, and every group's text, is a part of `text`.
pub open spec fn found_within(founds: Seq<(Seq<char>, Option<Seq<char>>)>, text: Seq<char>) -> bool {
    forall|j: int|
        0 <= j < founds.len() ==> {
            &&& occurs_in((#[trigger] founds[j]).0, text)
            &&& founds[j].1 matches Some(g) ==> occurs_in(g, text)
        }
}

/// Calls `regex::Regex::new` and tells whether it gave a regex.
#[verifier::external_body]
fn try_compile(pattern: &str) -> (ok: bool)
    ensures
        ok == pattern_compiles(pattern@),
{
    regex::Regex::new(pattern).is_ok()
}

/// Calls `regex::Regex::new` and, on the regex it gives,
/// `regex::Regex::is_match`. `None` stands for a pattern that does not
/// compile.
#[verifier::external_body]
fn try_is_match(pattern: &str, text: &str) -> (answer: Option<bool>)
    ensures
        answer.is_some() == pattern_compiles(pattern@),
        answer matches Some(b) ==> b == pattern_is_match(pattern@, text@),
{
    let re = regex::Regex::new(pattern).ok()?;
    Some(re.is_match(text))
}

/// Calls `regex::Regex::new` and, on the regex it gives,
/// `regex::Regex::captures_iter`, and copies from each `Captures` the text
/// of the match and of group 1. `None` stands for a pattern that does not
/// compile. A `Match` is a slice of the text that was searched, which is all
/// that the contract says of what was found.
#[verifier::external_body]
fn try_find(pattern: &str, text: &str) -> (answer: Option<Vec<Found>>)
    ensures
        answer.is_some() == pattern_compiles(pattern@),
        answer matches Some(v) ==> found_views(v@) == pattern_finds(pattern@, text@),
        answer matches Some(v) ==> found_within(found_views(v@), text@),
{
    let re = regex::Regex::new(pattern).ok()?;
    Some(re.captures_iter(text).map(|c| Found {
        whole: c.get_match().as_str().to_string(),
        group: c.get(1).map(|m| m.as_str().to_string()),
    }).collect())
}

/// Whether the pattern is a regular expression that can be used.
pub fn is_valid(pattern: &str) -> (ok: bool)
    ensures
        ok == pattern_compiles(pattern@),
{
    try_compile(pattern)
}

/// Whether the pattern matches somewhere in the text. A pattern that does
/// not compile matches nothing.
pub fn is_match(pattern: &str, text: &str) -> (hit: bool)
    ensures
        hit == hits(pattern@, text@),
{
    match try_is_match(pattern, text) {
        Some(b) => b,
        None => false,
    }
}

/// The matches of the pattern in the text, from left to right. A pattern
/// that does not compile matches nothing.
pub fn find(pattern: &str, text: &str) -> (founds: Vec<Found>)
    ensures
        found_views(founds@) == finds(pattern@, text@),
        found_within(found_views(founds@), text@),
{
    match try_find(pattern, text) {
        Some(v) => v,
        None => {
            let v: Vec<Found> = Vec::new();
            assert(found_views(v@) =~= Seq::empty());
            v
        },
    }
}

} // verus!
