//! What an allowlist suppresses: files by their path, commits by their id,
//! and single matches by a regular expression or a stopword.

use vstd::prelude::*;
use crate::models::{Allowlist, AllowlistView};
use crate::pattern::{hits, is_match};
use crate::text::{contains, lowercase, occurs_in, texts, to_lowercase};

verus! {

/// One of the patterns matches somewhere in the text.
pub open spec fn any_hit(patterns: Seq<Seq<char>>, text: Seq<char>) -> bool {
    exists|i: int| 0 <= i < patterns.len() && hits(#[trigger] patterns[i], text)
}

/// One of the entries is exactly this text.
pub open spec fn any_equal(entries: Seq<Seq<char>>, text: Seq<char>) -> bool {
    exists|i: int| 0 <= i < entries.len() && #[trigger] entries[i] == text
}

/// The text contains one of the words, letter case set aside.
pub open spec fn any_word_in(words: Seq<Seq<char>>, text: Seq<char>) -> bool {
    exists|i: int| 0 <= i < words.len() && occurs_in(lowercase(#[trigger] words[i]), lowercase(text))
}

/// The path of the file matches one of the allowlist's path patterns.
pub open spec fn path_listed(a: AllowlistView, path: Seq<char>) -> bool {
    any_hit(a.paths, path)
}

/// The commit is one of the allowlist's commits.
pub open spec fn commit_listed(a: AllowlistView, commit: Seq<char>) -> bool {
    any_equal(a.commits, commit)
}

/// The text that the allowlist's regular expressions and stopwords are held
/// against: the whole line where the allowlist says "line", else the match.
pub open spec fn target_text(a: AllowlistView, line: Seq<char>, offender: Seq<char>) -> Seq<char> {
    if a.regex_target == "line"@ {
        line
    } else {
        offender
    }
}

/// A regular expression or a stopword of the allowlist covers the match.
pub open spec fn text_listed(a: AllowlistView, line: Seq<char>, offender: Seq<char>) -> bool {
    ||| any_hit(a.regexes, target_text(a, line, offender))
    ||| any_word_in(a.stopwords, target_text(a, line, offender))
}

/// The allowlist suppresses a match of `offender` in `line` of the file at
/// `path` in `commit`: one of its four lists covers it.
pub open spec fn suppressed_by(
    a: AllowlistView,
    path: Seq<char>,
    commit: Seq<char>,
    line: Seq<char>,
    offender: Seq<char>,
) -> bool {
    ||| path_listed(a, path)
    ||| commit_listed(a, commit)
    ||| text_listed(a, line, offender)
}

/// Every list of `b` holds the entries of the same list of `a`, and both are
/// held against the same text: `b` is `a` with entries added.
pub open spec fn extends(a: AllowlistView, b: AllowlistView) -> bool {
    &&& a.regex_target == b.regex_target
    &&& forall|i: int| 0 <= i < a.paths.len() ==> b.paths.contains(#[trigger] a.paths[i])
    &&& forall|i: int| 0 <= i < a.commits.len() ==> b.commits.contains(#[trigger] a.commits[i])
    &&& forall|i: int| 0 <= i < a.regexes.len() ==> b.regexes.contains(#[trigger] a.regexes[i])
    &&& forall|i: int| 0 <= i < a.stopwords.len() ==> b.stopwords.contains(#[trigger] a.stopwords[i])
}

/// None of the four lists has an entry.
pub open spec fn has_no_entry(a: AllowlistView) -> bool {
    &&& a.paths.len() == 0
    &&& a.commits.len() == 0
    &&& a.regexes.len() == 0
    &&& a.stopwords.len() == 0
}

/// An allowlist whose lists are all empty suppresses nothing.
pub proof fn lemma_no_entry_suppresses_nothing(
    a: AllowlistView,
    path: Seq<char>,
    commit: Seq<char>,
    line: Seq<char>,
    offender: Seq<char>,
)
    requires
        has_no_entry(a),
    ensures
        !suppressed_by(a, path, commit, line, offender),
{
}

/// What an allowlist suppresses, it still suppresses after entries were
/// added to its lists.
pub proof fn lemma_more_entries_suppress_more(
    a: AllowlistView,
    b: AllowlistView,
    path: Seq<char>,
    commit: Seq<char>,
    line: Seq<char>,
    offender: Seq<char>,
)
    requires
        extends(a, b),
        suppressed_by(a, path, commit, line, offender),
    ensures
        suppressed_by(b, path, commit, line, offender),
{
    let target = target_text(a, line, offender);
    assert(target == target_text(b, line, offender));
    if path_listed(a, path) {
        let i = choose|i: int| 0 <= i < a.paths.len() && hits(#[trigger] a.paths[i], path);
        let j = choose|j: int| 0 <= j < b.paths.len() && b.paths[j] == a.paths[i];
        assert(hits(b.paths[j], path));
    } else if commit_listed(a, commit) {
        let i = choose|i: int| 0 <= i < a.commits.len() && #[trigger] a.commits[i] == commit;
        let j = choose|j: int| 0 <= j < b.commits.len() && b.commits[j] == a.commits[i];
        assert(b.commits[j] == commit);
    } else if any_hit(a.regexes, target) {
        let i = choose|i: int| 0 <= i < a.regexes.len() && hits(#[trigger] a.regexes[i], target);
        let j = choose|j: int| 0 <= j < b.regexes.len() && b.regexes[j] == a.regexes[i];
        assert(hits(b.regexes[j], target));
    } else {
        let i = choose|i: int|
            0 <= i < a.stopwords.len() && occurs_in(
                lowercase(#[trigger] a.stopwords[i]),
                lowercase(target),
            );
        let j = choose|j: int| 0 <= j < b.stopwords.len() && b.stopwords[j] == a.stopwords[i];
        assert(occurs_in(lowercase(b.stopwords[j]), lowercase(target)));
    }
}

/// Whether one of the patterns matches somewhere in the text.
fn any_pattern_hits(patterns: &Vec<String>, text: &str) -> (hit: bool)
    ensures
        hit == any_hit(texts(patterns@), text@),
{
    let mut i: usize = 0;
    while i < patterns.len()
        invariant
            i <= patterns.len(),
            forall|j: int| 0 <= j < i ==> !hits(#[trigger] texts(patterns@)[j], text@),
        decreases patterns.len() - i,
    {
        if is_match(patterns[i].as_str(), text) {
            assert(hits(texts(patterns@)[i as int], text@));
            return true;
        }
        i += 1;
    }
    false
}

/// Whether one of the entries is exactly this text.
fn any_entry_equals(entries: &Vec<String>, text: &String) -> (hit: bool)
    ensures
        hit == any_equal(texts(entries@), text@),
{
    let mut i: usize = 0;
    while i < entries.len()
        invariant
            i <= entries.len(),
            forall|j: int| 0 <= j < i ==> #[trigger] texts(entries@)[j] != text@,
        decreases entries.len() - i,
    {
        if entries[i] == *text {
            assert(texts(entries@)[i as int] == text@);
            return true;
        }
        i += 1;
    }
    false
}

/// Whether the text contains one of the words, letter case set aside.
fn any_word_within(words: &Vec<String>, text: &str) -> (hit: bool)
    ensures
        hit == any_word_in(texts(words@), text@),
{
    let low_text = to_lowercase(text);
    let mut i: usize = 0;
    while i < words.len()
        invariant
            i <= words.len(),
            low_text@ == lowercase(text@),
            forall|j: int|
                0 <= j < i ==> !occurs_in(lowercase(#[trigger] texts(words@)[j]), lowercase(text@)),
        decreases words.len() - i,
    {
        let low_word = to_lowercase(words[i].as_str());
        if contains(low_text.as_str(), low_word.as_str()) {
            assert(occurs_in(lowercase(texts(words@)[i as int]), lowercase(text@)));
            return true;
        }
        i += 1;
    }
    false
}

impl Allowlist {
    /// Whether the file at `path` is skipped as a whole.
    pub fn skips_path(&self, path: &str) -> (skip: bool)
        ensures
            skip == path_listed(self@, path@),
    {
        any_pattern_hits(&self.paths, path)
    }

    /// Whether the commit is skipped as a whole.
    pub fn skips_commit(&self, commit: &String) -> (skip: bool)
        ensures
            skip == commit_listed(self@, commit@),
    {
        any_entry_equals(&self.commits, commit)
    }

    /// Whether a regular expression or a stopword covers the match of
    /// `offender` in `line`.
    pub fn skips_text(&self, line: &str, offender: &str) -> (skip: bool)
        ensures
            skip == text_listed(self@, line@, offender@),
    {
        let whole_line = "line".to_owned();
        let target = if self.regex_target == whole_line {
            line
        } else {
            offender
        };
        any_pattern_hits(&self.regexes, target) || any_word_within(&self.stopwords, target)
    }

    /// Whether the allowlist suppresses the match of `offender` in `line` of
    /// the file at `path` in `commit`.
    pub fn suppresses(&self, path: &str, commit: &String, line: &str, offender: &str) -> (skip: bool)
        ensures
            skip == suppressed_by(self@, path@, commit@, line@, offender@),
    {
        self.skips_path(path) || self.skips_commit(commit) || self.skips_text(line, offender)
    }
}

} // verus!
