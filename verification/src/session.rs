//! A scan: commit after commit, file after file, line after line, rule
//! after rule.
//!
//! The spec functions take a flag `gated`. With it the rules tried
//! on a line are those that keyword gating picks, which is what the
//! functions of this module do; without it every rule is tried on every
//! line, which is what gating is measured against.

use vstd::prelude::*;
use crate::allowlist::{commit_listed, path_listed};
use crate::collector::{Stamp, collect_matches, leaks_of_matches, offenders_within};
use crate::keywords::{all_indices, candidate_indices};
use crate::matcher::{line_matches, match_views, scan_line};
use crate::models::{
    Allowlist,
    CommitInfo,
    CommitView,
    FileView,
    Leak,
    LeakView,
    Results,
    Rule,
    RuleView,
    commit_views,
    leak_views,
    rule_views,
};
use crate::ruleset::{ConfigError, Scan, ScanView, ids_unique, invalid_pattern};
use crate::seqs::{flat_map, lemma_flat_map_take};
use crate::text::{lines_of, occurs_in, split_lines, texts};

verus! {

/// The positions of the rules that are tried on a line.
pub open spec fn tried_rules(rules: Seq<RuleView>, line: Seq<char>, gated: bool) -> Seq<usize> {
    if gated {
        candidate_indices(rules, line)
    } else {
        all_indices(rules.len())
    }
}

/// The leaks of one line, in the order of the rules and, for one rule, from
/// left to right.
pub open spec fn line_leaks(
    scan: ScanView,
    commit: CommitView,
    path: Seq<char>,
    line_number: nat,
    line: Seq<char>,
    gated: bool,
) -> Seq<LeakView> {
    leaks_of_matches(
        scan,
        commit,
        path,
        line,
        line_matches(scan.rules, tried_rules(scan.rules, line, gated), line, line_number),
    )
}

/// The largest number that a line can have.
pub open spec fn last_line_number() -> nat {
    0xffff_ffff
}

/// The lines with their numbers, counted from 1. Lines beyond the largest
/// number are left out.
pub open spec fn numbered(lines: Seq<Seq<char>>) -> Seq<(nat, Seq<char>)> {
    Seq::new(
        if lines.len() <= last_line_number() {
            lines.len()
        } else {
            last_line_number()
        },
        |i: int| ((i + 1) as nat, lines[i]),
    )
}

/// For each numbered line of a file, its leaks.
pub open spec fn leaks_per_line(scan: ScanView, commit: CommitView, path: Seq<char>, gated: bool) -> spec_fn(
    (nat, Seq<char>),
) -> Seq<LeakView> {
    |numbered_line: (nat, Seq<char>)| line_leaks(scan, commit, path, numbered_line.0, numbered_line.1, gated)
}

/// The leaks of one file in the order of its lines; none where the global
/// allowlist lists its path.
pub open spec fn file_leaks(scan: ScanView, commit: CommitView, file: FileView, gated: bool) -> Seq<LeakView> {
    if path_listed(scan.allowlist, file.path) {
        Seq::empty()
    } else {
        flat_map(numbered(lines_of(file.content)), leaks_per_line(scan, commit, file.path, gated))
    }
}

/// For each file of a commit, its leaks.
pub open spec fn leaks_per_file(scan: ScanView, commit: CommitView, gated: bool) -> spec_fn(FileView) -> Seq<
    LeakView,
> {
    |file: FileView| file_leaks(scan, commit, file, gated)
}

/// The leaks of one commit in the order of its files; none where the global
/// allowlist lists the commit.
pub open spec fn commit_leaks(scan: ScanView, commit: CommitView, gated: bool) -> Seq<LeakView> {
    if commit_listed(scan.allowlist, commit.commit) {
        Seq::empty()
    } else {
        flat_map(commit.files, leaks_per_file(scan, commit, gated))
    }
}

/// For each commit, its leaks.
pub open spec fn leaks_per_commit(scan: ScanView, gated: bool) -> spec_fn(CommitView) -> Seq<LeakView> {
    |commit: CommitView| commit_leaks(scan, commit, gated)
}

/// The leaks of a sequence of commits, in the order of the commits.
pub open spec fn scan_leaks(scan: ScanView, commits: Seq<CommitView>, gated: bool) -> Seq<LeakView> {
    flat_map(commits, leaks_per_commit(scan, gated))
}

/// Leaks that were appended keep what held before and add what holds of
/// the new ones.
proof fn lemma_within_grows(before: Seq<LeakView>, added: Seq<LeakView>, after: Seq<LeakView>, from: int)
    requires
        0 <= from <= before.len(),
        after == before + added,
        offenders_within(before, from),
        offenders_within(after, before.len() as int),
    ensures
        offenders_within(after, from),
{
    assert forall|i: int| from <= i < after.len() implies occurs_in(
        (#[trigger] after[i]).offender,
        after[i].line,
    ) by {
        if i < before.len() {
            assert(after[i] == before[i]);
        }
    }
}

/// Appends to `out` the leaks of one file of a commit.
pub fn scan_file(scan: &Scan, commit: &CommitInfo, stamp: &Stamp, file: &(String, String), out: &mut Vec<Leak>)
    requires
        scan.wf(),
        stamp.is_of(commit@),
    ensures
        leak_views(final(out)@) == leak_views(old(out)@) + file_leaks(
            scan@,
            commit@,
            FileView { path: file.0@, content: file.1@ },
            true,
        ),
        offenders_within(leak_views(final(out)@), old(out)@.len() as int),
{
    let ghost start = leak_views(out@);
    let path = file.0.as_str();
    if scan.allowlist.skips_path(path) {
        assert(leak_views(out@) =~= start + Seq::<LeakView>::empty());
        return;
    }
    let lines = split_lines(file.1.as_str());
    let ghost all = numbered(lines_of(file.1@));
    let ghost per_line = leaks_per_line(scan@, commit@, file.0@, true);
    let count: usize = if lines.len() <= 0xffff_ffff {
        lines.len()
    } else {
        0xffff_ffff
    };
    let mut i: usize = 0;
    assert(all.take(0) =~= Seq::empty());
    assert(leak_views(out@) =~= start + Seq::<LeakView>::empty());
    while i < count
        invariant
            i <= count <= lines.len(),
            count <= 0xffff_ffff,
            count == all.len(),
            scan.wf(),
            stamp.is_of(commit@),
            path@ == file.0@,
            texts(lines@) == lines_of(file.1@),
            all == numbered(lines_of(file.1@)),
            per_line == leaks_per_line(scan@, commit@, file.0@, true),
            leak_views(out@) == start + flat_map(all.take(i as int), per_line),
            offenders_within(leak_views(out@), start.len() as int),
        decreases count - i,
    {
        let line = lines[i].as_str();
        let line_number: u32 = (i + 1) as u32;
        proof {
            lemma_flat_map_take(all, i as int, per_line);
            assert(texts(lines@)[i as int] == line@);
            assert(all[i as int] == ((i + 1) as nat, line@));
        }
        let tried = scan.candidate_rules(line);
        let found = scan_line(line, line_number, &scan.ruleslist, &tried);
        let ghost before = leak_views(out@);
        collect_matches(scan, commit, stamp, path, line, &found, out);
        assert(leak_views(out@) =~= start + flat_map(all.take(i + 1), per_line));
        proof {
            lemma_within_grows(
                before,
                leaks_of_matches(scan@, commit@, path@, line@, match_views(found@)),
                leak_views(out@),
                start.len() as int,
            );
        }
        i += 1;
    }
    assert(all.take(i as int) =~= all);
}

/// Visits one commit: counts it, and appends its leaks to the results. A
/// commit that the global allowlist lists is counted and gives no leak.
pub fn scan_commit(scan: &Scan, commit: &CommitInfo, results: &mut Results)
    requires
        scan.wf(),
        old(results).commits_number < usize::MAX,
    ensures
        final(results)@.commits_number == old(results)@.commits_number + 1,
        final(results)@.outputs == old(results)@.outputs + commit_leaks(scan@, commit@, true),
        offenders_within(final(results)@.outputs, old(results)@.outputs.len() as int),
{
    let ghost start = leak_views(results.outputs@);
    results.commits_number = results.commits_number + 1;
    if scan.allowlist.skips_commit(&commit.commit) {
        assert(leak_views(results.outputs@) =~= start + Seq::<LeakView>::empty());
        return;
    }
    let stamp = Stamp::of(commit);
    let ghost all = commit@.files;
    let ghost per_file = leaks_per_file(scan@, commit@, true);
    let mut i: usize = 0;
    assert(all.take(0) =~= Seq::empty());
    assert(leak_views(results.outputs@) =~= start + Seq::<LeakView>::empty());
    while i < commit.files.len()
        invariant
            i <= commit.files.len(),
            scan.wf(),
            stamp.is_of(commit@),
            all == commit@.files,
            per_file == leaks_per_file(scan@, commit@, true),
            results.commits_number == old(results).commits_number + 1,
            leak_views(results.outputs@) == start + flat_map(all.take(i as int), per_file),
            offenders_within(leak_views(results.outputs@), start.len() as int),
        decreases commit.files.len() - i,
    {
        proof {
            lemma_flat_map_take(all, i as int, per_file);
            assert(all[i as int] == FileView {
                path: commit.files[i as int].0@,
                content: commit.files[i as int].1@,
            });
        }
        let ghost before = leak_views(results.outputs@);
        scan_file(scan, commit, &stamp, &commit.files[i], &mut results.outputs);
        assert(leak_views(results.outputs@) =~= start + flat_map(all.take(i + 1), per_file));
        proof {
            lemma_within_grows(
                before,
                file_leaks(scan@, commit@, all[i as int], true),
                leak_views(results.outputs@),
                start.len() as int,
            );
        }
        i += 1;
    }
    assert(all.take(i as int) =~= all);
}

/// Scans the commits in their order: the number of commits visited, and
/// their leaks in the order of commits, files, lines and rules.
pub fn scan_commits(scan: &Scan, commits: &Vec<CommitInfo>) -> (results: Results)
    requires
        scan.wf(),
    ensures
        results@.commits_number == commits.len(),
        results@.outputs == scan_leaks(scan@, commit_views(commits@), true),
        offenders_within(results@.outputs, 0),
{
    let ghost all = commit_views(commits@);
    let ghost per_commit = leaks_per_commit(scan@, true);
    let mut results = Results::new();
    let mut i: usize = 0;
    assert(all.take(0) =~= Seq::empty());
    while i < commits.len()
        invariant
            i <= commits.len(),
            scan.wf(),
            all == commit_views(commits@),
            per_commit == leaks_per_commit(scan@, true),
            results.commits_number == i,
            results@.outputs == flat_map(all.take(i as int), per_commit),
            offenders_within(results@.outputs, 0),
        decreases commits.len() - i,
    {
        proof {
            lemma_flat_map_take(all, i as int, per_commit);
            assert(all[i as int] == commits[i as int]@);
        }
        let ghost before = results@.outputs;
        scan_commit(scan, &commits[i], &mut results);
        proof {
            lemma_within_grows(before, commit_leaks(scan@, all[i as int], true), results@.outputs, 0);
        }
        i += 1;
    }
    assert(all.take(i as int) =~= all);
    results
}

/// Checks a configuration and scans the commits with it. A configuration
/// that is refused gives no results at all.
pub fn scan(rules: Vec<Rule>, allowlist: Allowlist, commits: &Vec<CommitInfo>) -> (outcome: Result<
    Results,
    ConfigError,
>)
    ensures
        outcome.is_ok() <==> invalid_pattern(allowlist@, rule_views(rules@)).is_none() && ids_unique(
            rule_views(rules@),
        ),
        outcome matches Ok(results) ==> {
            &&& results@.commits_number == commits.len()
            &&& results@.outputs == scan_leaks(
                ScanView { allowlist: allowlist@, rules: rule_views(rules@) },
                commit_views(commits@),
                true,
            )
            &&& offenders_within(results@.outputs, 0)
        },
        outcome matches Err(e) ==> e.explains(allowlist@, rule_views(rules@)),
{
    match Scan::build(rules, allowlist) {
        Ok(built) => Ok(scan_commits(&built, commits)),
        Err(e) => Err(e),
    }
}

/// A file or a commit that could not be read. It ends nothing: what
/// could not be read is left out, and the scan goes on.
#[derive(Debug)]
pub struct ReadError {
    /// The id of the commit.
    pub commit: String,
    /// The path of the file; empty where the commit itself could not be
    /// read.
    pub path: String,
    /// Why it could not be read.
    pub reason: String,
}

/// A scan under way: what was found so far, and beside it what could not
/// be read.
#[derive(Debug)]
pub struct Progress {
    /// The commits visited and the leaks found.
    pub results: Results,
    /// What could not be read, in the order in which it was met.
    pub warnings: Vec<ReadError>,
}

/// What the walk through the history hands to the scan.
#[derive(Debug)]
pub enum Step {
    /// A commit with the files that could be read.
    Visit { commit: CommitInfo },
    /// Something that could not be read.
    Skip { error: ReadError },
}

impl Progress {
    /// Nothing visited, nothing found, no warning.
    pub fn new() -> (progress: Progress)
        ensures
            progress.results@.commits_number == 0,
            progress.results@.outputs == Seq::<LeakView>::empty(),
            progress.warnings@ == Seq::<ReadError>::empty(),
    {
        Progress { results: Results::new(), warnings: Vec::new() }
    }

    /// Takes one step of the walk. A commit is visited: it is counted and
    /// its leaks are appended, and the warnings stay. What could not be read
    /// becomes a warning, and the results stay.
    pub fn advance(&mut self, scan: &Scan, step: Step)
        requires
            scan.wf(),
            old(self).results.commits_number < usize::MAX,
        ensures
            match step {
                Step::Visit { commit } => {
                    &&& final(self).results@.commits_number == old(self).results@.commits_number + 1
                    &&& final(self).results@.outputs == old(self).results@.outputs + commit_leaks(
                        scan@,
                        commit@,
                        true,
                    )
                    &&& final(self).warnings@ == old(self).warnings@
                },
                Step::Skip { error } => {
                    &&& final(self).results@ == old(self).results@
                    &&& final(self).warnings@ == old(self).warnings@.push(error)
                },
            },
    {
        match step {
            Step::Visit { commit } => {
                scan_commit(scan, &commit, &mut self.results);
            },
            Step::Skip { error } => {
                self.warnings.push(error);
            },
        }
    }
}

} // verus!
