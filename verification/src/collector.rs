//! From raw matches to leaks: what the allowlists let through, and what a
//! leak takes over from its commit.

use vstd::prelude::*;
use vstd::string::StringExecFns;
use crate::allowlist::suppressed_by;
use crate::dates::date_text;
use crate::matcher::{MatchCandidate, MatchView, match_views, matches_within};
use crate::models::{AllowlistView, CommitInfo, CommitView, Leak, LeakView, empty_allowlist, leak_views};
use crate::ruleset::{Scan, ScanView};
use crate::seqs::{flat_map, lemma_flat_map_take};
use crate::text::{occurs_in, texts};

verus! {

/// The tags of a commit in one text, with a comma between two tags.
pub open spec fn joined(tags: Seq<Seq<char>>) -> Seq<char>
    decreases tags.len(),
{
    if tags.len() == 0 {
        Seq::empty()
    } else if tags.len() == 1 {
        tags[0]
    } else {
        joined(tags.drop_last()) + seq![','] + tags.last()
    }
}

/// The allowlist of the rule at `r`; one without entries where the rule has
/// none or there is no such rule.
pub open spec fn own_allowlist(scan: ScanView, r: int) -> AllowlistView {
    if 0 <= r < scan.rules.len() {
        match scan.rules[r].allowlist {
            Some(own) => own,
            None => empty_allowlist(),
        }
    } else {
        empty_allowlist()
    }
}

/// Neither the global allowlist nor that of the match's rule suppresses the
/// match.
pub open spec fn survives(scan: ScanView, commit: Seq<char>, path: Seq<char>, line: Seq<char>, m: MatchView) -> bool {
    &&& !suppressed_by(scan.allowlist, path, commit, line, m.offender)
    &&& !suppressed_by(own_allowlist(scan, m.rule), path, commit, line, m.offender)
}

/// The leak that a match in `line` of the file at `path` in `commit` gives.
pub open spec fn leak_of(commit: CommitView, path: Seq<char>, line: Seq<char>, m: MatchView) -> LeakView {
    LeakView {
        line,
        line_number: m.line_number,
        offender: m.offender,
        commit: commit.commit,
        repo: commit.repo,
        rule: m.rule_id,
        commit_message: commit.commit_message,
        author: commit.author,
        email: commit.email,
        file: path,
        date: date_text(commit.date),
        tags: joined(commit.tags),
        operation: commit.operation,
    }
}

/// For each raw match, its leak if it survives the allowlists.
pub open spec fn leak_per_match(scan: ScanView, commit: CommitView, path: Seq<char>, line: Seq<char>) -> spec_fn(
    MatchView,
) -> Seq<LeakView> {
    |m: MatchView|
        if survives(scan, commit.commit, path, line, m) {
            seq![leak_of(commit, path, line, m)]
        } else {
            Seq::empty()
        }
}

/// The leaks that raw matches give, in the order of the matches.
pub open spec fn leaks_of_matches(
    scan: ScanView,
    commit: CommitView,
    path: Seq<char>,
    line: Seq<char>,
    found: Seq<MatchView>,
) -> Seq<LeakView> {
    flat_map(found, leak_per_match(scan, commit, path, line))
}

/// From position `from` on, the secret of every leak is a part of the
/// leak's line.
pub open spec fn offenders_within(leaks: Seq<LeakView>, from: int) -> bool {
    forall|i: int| from <= i < leaks.len() ==> occurs_in((#[trigger] leaks[i]).offender, leaks[i].line)
}

/// The tags of a commit in one text.
pub fn join_tags(tags: &Vec<String>) -> (text: String)
    ensures
        text@ == joined(texts(tags@)),
{
    let ghost all = texts(tags@);
    let mut text = String::new();
    let mut i: usize = 0;
    assert(all.take(0) =~= Seq::empty());
    while i < tags.len()
        invariant
            i <= tags.len(),
            all == texts(tags@),
            text@ == joined(all.take(i as int)),
        decreases tags.len() - i,
    {
        proof {
            reveal_strlit(",");
            assert(all.take(i + 1).drop_last() =~= all.take(i as int));
            assert(all.take(i + 1).last() == tags[i as int]@);
            assert(","@ =~= seq![',']);
        }
        if i > 0 {
            text.append(",");
        }
        text.append(tags[i].as_str());
        proof {
            if i == 0 {
                assert(text@ =~= tags[i as int]@);
                assert(all.take(i + 1)[0] == tags[i as int]@);
            }
        }
        i += 1;
    }
    assert(all.take(i as int) =~= all);
    text
}

/// What a leak takes over from its commit and is the same for all leaks of
/// the commit.
pub struct Stamp {
    /// The date as it stands in a leak.
    pub date: String,
    /// The tags in one text.
    pub tags: String,
}

impl Stamp {
    /// The stamp is that of `commit`.
    pub open spec fn is_of(&self, commit: CommitView) -> bool {
        &&& self.date@ == date_text(commit.date)
        &&& self.tags@ == joined(commit.tags)
    }

    /// The stamp of a commit.
    pub fn of(commit: &CommitInfo) -> (stamp: Stamp)
        ensures
            stamp.is_of(commit@),
    {
        Stamp { date: commit.date.text(), tags: join_tags(&commit.tags) }
    }
}

impl Scan {
    /// Whether a raw match in `line` of the file at `path` in `commit` is
    /// reported: neither the global allowlist nor that of its rule
    /// suppresses it.
    pub fn lets_through(&self, commit: &String, path: &str, line: &str, found: &MatchCandidate) -> (kept: bool)
        ensures
            kept == survives(self@, commit@, path@, line@, found@),
    {
        if self.allowlist.suppresses(path, commit, line, found.offender.as_str()) {
            return false;
        }
        if found.rule < self.ruleslist.len() {
            assert(self@.rules[found.rule as int] == self.ruleslist[found.rule as int]@);
            match &self.ruleslist[found.rule].allowlist {
                Some(own) => !own.suppresses(path, commit, line, found.offender.as_str()),
                None => true,
            }
        } else {
            true
        }
    }
}

/// The leak that a match gives.
pub fn make_leak(commit: &CommitInfo, stamp: &Stamp, path: &str, line: &str, found: &MatchCandidate) -> (leak: Leak)
    requires
        stamp.is_of(commit@),
    ensures
        leak@ == leak_of(commit@, path@, line@, found@),
{
    Leak {
        line: line.to_owned(),
        line_number: found.line_number,
        offender: found.offender.clone(),
        commit: commit.commit.clone(),
        repo: commit.repo.clone(),
        rule: found.rule_id.clone(),
        commit_message: commit.commit_message.clone(),
        author: commit.author.clone(),
        email: commit.email.clone(),
        file: path.to_owned(),
        date: stamp.date.clone(),
        tags: stamp.tags.clone(),
        operation: commit.operation.clone(),
    }
}

/// Appends to `out` the leaks of the raw matches that the allowlists let
/// through, in the order of the matches.
pub fn collect_matches(
    scan: &Scan,
    commit: &CommitInfo,
    stamp: &Stamp,
    path: &str,
    line: &str,
    found: &Vec<MatchCandidate>,
    out: &mut Vec<Leak>,
)
    requires
        stamp.is_of(commit@),
        matches_within(match_views(found@), line@),
    ensures
        leak_views(final(out)@) == leak_views(old(out)@) + leaks_of_matches(
            scan@,
            commit@,
            path@,
            line@,
            match_views(found@),
        ),
        offenders_within(leak_views(final(out)@), old(out)@.len() as int),
{
    let ghost per_match = leak_per_match(scan@, commit@, path@, line@);
    let ghost all = match_views(found@);
    let ghost start = leak_views(out@);
    let mut j: usize = 0;
    assert(all.take(0) =~= Seq::empty());
    assert(leak_views(out@) =~= start + Seq::<LeakView>::empty());
    while j < found.len()
        invariant
            j <= found.len(),
            stamp.is_of(commit@),
            all == match_views(found@),
            per_match == leak_per_match(scan@, commit@, path@, line@),
            leak_views(out@) == start + flat_map(all.take(j as int), per_match),
            matches_within(all, line@),
            offenders_within(leak_views(out@), start.len() as int),
        decreases found.len() - j,
    {
        proof {
            lemma_flat_map_take(all, j as int, per_match);
            assert(all[j as int] == found[j as int]@);
        }
        if scan.lets_through(&commit.commit, path, line, &found[j]) {
            let leak = make_leak(commit, stamp, path, line, &found[j]);
            let ghost before = leak_views(out@);
            out.push(leak);
            assert(leak_views(out@) =~= before.push(leak@));
            assert(occurs_in(leak@.offender, leak@.line));
            assert forall|i: int| start.len() <= i < out.len() implies occurs_in(
                (#[trigger] leak_views(out@)[i]).offender,
                leak_views(out@)[i].line,
            ) by {
                if i < before.len() {
                    assert(leak_views(out@)[i] == before[i]);
                }
            }
            assert(leak_views(out@) =~= start + flat_map(all.take(j + 1), per_match));
        } else {
            assert(leak_views(out@) =~= start + flat_map(all.take(j + 1), per_match));
        }
        j += 1;
    }
    assert(all.take(j as int) =~= all);
}

} // verus!
