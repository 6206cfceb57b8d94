//! What holds of every scan.

use vstd::prelude::*;
use vstd::seq_lib::seq_to_set_is_finite;
use vstd::set_lib::lemma_len_subset;
use crate::allowlist::{
    commit_listed,
    extends,
    lemma_more_entries_suppress_more,
    path_listed,
    suppressed_by,
};
use crate::collector::{leak_of, leak_per_match, leaks_of_matches, own_allowlist, survives};
use crate::keywords::{all_indices, candidates_upto, is_candidate};
use crate::matcher::{MatchView, line_matches, matches_by_rule, offender_of, rule_matches};
use crate::models::{CommitView, LeakView, ResultsView, RuleView};
use crate::pattern::{finds, hits};
use crate::ruleset::ScanView;
use crate::seqs::{
    flat_map,
    lemma_flat_map_agree,
    lemma_flat_map_concat,
    lemma_flat_map_empty,
    lemma_flat_map_holds,
    lemma_flat_map_member,
    lemma_flat_map_push,
};
use crate::session::{
    commit_leaks,
    file_leaks,
    leaks_per_commit,
    leaks_per_file,
    leaks_per_line,
    line_leaks,
    numbered,
    scan_leaks,
    tried_rules,
};
use crate::text::{lines_of, lowercase};

verus! {

/// The line at position `l` of the file at position `f` of a commit.
pub open spec fn line_at(commit: CommitView, f: int, l: int) -> Seq<char> {
    lines_of(commit.files[f].content)[l]
}

/// What the rule at `r` matches in a line of a file of a commit.
pub open spec fn finds_at(scan: ScanView, commit: CommitView, f: int, l: int, r: int) -> Seq<
    (Seq<char>, Option<Seq<char>>),
> {
    finds(scan.rules[r].regex, line_at(commit, f, l))
}

/// No rule matches anywhere in the files of the commit.
pub open spec fn no_rule_matches(scan: ScanView, commit: CommitView) -> bool {
    forall|f: int, l: int, r: int|
        0 <= f < commit.files.len() && 0 <= l < lines_of(commit.files[f].content).len() && 0 <= r
            < scan.rules.len() ==> (#[trigger] finds_at(scan, commit, f, l, r)).len() == 0
}

proof fn lemma_line_without_match(
    scan: ScanView,
    commit: CommitView,
    path: Seq<char>,
    line_number: nat,
    line: Seq<char>,
    gated: bool,
)
    requires
        forall|r: int| 0 <= r < scan.rules.len() ==> (#[trigger] finds(scan.rules[r].regex, line)).len() == 0,
    ensures
        line_leaks(scan, commit, path, line_number, line, gated) == Seq::<LeakView>::empty(),
{
    let tried = tried_rules(scan.rules, line, gated);
    let by_rule = matches_by_rule(scan.rules, line, line_number);
    assert forall|k: int| 0 <= k < tried.len() implies (#[trigger] by_rule(tried[k])).len() == 0 by {
        let r = tried[k] as int;
        if 0 <= r < scan.rules.len() {
            assert(finds(scan.rules[r].regex, line).len() == 0);
        }
    }
    lemma_flat_map_empty(tried, by_rule);
}

proof fn lemma_file_without_match(scan: ScanView, commit: CommitView, f: int, gated: bool)
    requires
        no_rule_matches(scan, commit),
        0 <= f < commit.files.len(),
    ensures
        file_leaks(scan, commit, commit.files[f], gated) == Seq::<LeakView>::empty(),
{
    let file = commit.files[f];
    let lines = lines_of(file.content);
    let all = numbered(lines);
    let per_line = leaks_per_line(scan, commit, file.path, gated);
    if !path_listed(scan.allowlist, file.path) {
        assert forall|l: int| 0 <= l < all.len() implies (#[trigger] per_line(all[l])).len() == 0 by {
            assert forall|r: int| 0 <= r < scan.rules.len() implies (#[trigger] finds(
                scan.rules[r].regex,
                lines[l],
            )).len() == 0 by {
                assert(finds_at(scan, commit, f, l, r).len() == 0);
            }
            lemma_line_without_match(scan, commit, file.path, (l + 1) as nat, lines[l], gated);
        }
        lemma_flat_map_empty(all, per_line);
    }
}

/// A commit in whose files no rule matches gives no leak.
pub proof fn commit_without_match_gives_no_leak(scan: ScanView, commit: CommitView, gated: bool)
    requires
        no_rule_matches(scan, commit),
    ensures
        commit_leaks(scan, commit, gated) == Seq::<LeakView>::empty(),
{
    let per_file = leaks_per_file(scan, commit, gated);
    if !commit_listed(scan.allowlist, commit.commit) {
        assert forall|f: int| 0 <= f < commit.files.len() implies (#[trigger] per_file(commit.files[f])).len()
            == 0 by {
            lemma_file_without_match(scan, commit, f, gated);
        }
        lemma_flat_map_empty(commit.files, per_file);
    }
}

/// Visiting a commit in whose files no rule matches adds one to the number
/// of commits and leaves the leaks as they were.
pub proof fn visit_without_match_keeps_leaks(
    scan: ScanView,
    commit: CommitView,
    before: ResultsView,
    after: ResultsView,
)
    requires
        no_rule_matches(scan, commit),
        after.commits_number == before.commits_number + 1,
        after.outputs == before.outputs + commit_leaks(scan, commit, true),
    ensures
        after.commits_number == before.commits_number + 1,
        after.outputs == before.outputs,
{
    commit_without_match_gives_no_leak(scan, commit, true);
    assert(before.outputs + Seq::<LeakView>::empty() =~= before.outputs);
}

/// The leak comes from match `j` of the rule at `r` in line `l` of file `f`
/// of the commit at `c`.
pub open spec fn found_by(
    scan: ScanView,
    commits: Seq<CommitView>,
    leak: LeakView,
    c: int,
    f: int,
    l: int,
    r: int,
    j: int,
) -> bool {
    &&& 0 <= c < commits.len()
    &&& 0 <= f < commits[c].files.len()
    &&& 0 <= l < lines_of(commits[c].files[f].content).len()
    &&& 0 <= r < scan.rules.len()
    &&& 0 <= j < finds_at(scan, commits[c], f, l, r).len()
    &&& leak.commit == commits[c].commit
    &&& leak.file == commits[c].files[f].path
    &&& leak.line == line_at(commits[c], f, l)
    &&& leak.line_number == l + 1
    &&& leak.rule == scan.rules[r].id
    &&& leak.offender == offender_of(finds_at(scan, commits[c], f, l, r)[j])
}

/// The leak names a rule of the scan and a line of a file of one of the
/// commits, by its number, and its secret is what the rule's regular
/// expression matches in that line.
pub open spec fn is_genuine(scan: ScanView, commits: Seq<CommitView>, leak: LeakView) -> bool {
    exists|c: int, f: int, l: int, r: int, j: int| found_by(scan, commits, leak, c, f, l, r, j)
}

/// Every leak of a scan is genuine.
pub proof fn every_leak_is_genuine(scan: ScanView, commits: Seq<CommitView>, gated: bool, leak: LeakView)
    requires
        scan_leaks(scan, commits, gated).contains(leak),
    ensures
        is_genuine(scan, commits, leak),
{
    let c = lemma_flat_map_member(commits, leaks_per_commit(scan, gated), leak);
    let commit = commits[c];
    assert(commit_leaks(scan, commit, gated).contains(leak));
    let f = lemma_flat_map_member(commit.files, leaks_per_file(scan, commit, gated), leak);
    let file = commit.files[f];
    assert(file_leaks(scan, commit, file, gated).contains(leak));
    let lines = lines_of(file.content);
    let l = lemma_flat_map_member(numbered(lines), leaks_per_line(scan, commit, file.path, gated), leak);
    let line = lines[l];
    let number = (l + 1) as nat;
    assert(numbered(lines)[l] == (number, line));
    assert(line_leaks(scan, commit, file.path, number, line, gated).contains(leak));
    let tried = tried_rules(scan.rules, line, gated);
    let found = line_matches(scan.rules, tried, line, number);
    let mi = lemma_flat_map_member(found, leak_per_match(scan, commit, file.path, line), leak);
    let m = found[mi];
    assert(seq![leak_of(commit, file.path, line, m)].contains(leak));
    assert(leak == leak_of(commit, file.path, line, m));
    assert(found.contains(m));
    let k = lemma_flat_map_member(tried, matches_by_rule(scan.rules, line, number), m);
    let r = tried[k] as int;
    let of_rule = rule_matches(scan.rules, line, number, r);
    assert(of_rule.contains(m));
    let j = choose|j: int| 0 <= j < of_rule.len() && of_rule[j] == m;
    assert(finds_at(scan, commit, f, l, r) == finds(scan.rules[r].regex, line));
    assert(found_by(scan, commits, leak, c, f, l, r, j));
}

/// The ids of the commits that leaks name.
pub open spec fn commits_named(leaks: Seq<LeakView>) -> Set<Seq<char>> {
    Set::new(|id: Seq<char>| exists|i: int| 0 <= i < leaks.len() && (#[trigger] leaks[i]).commit == id)
}

/// The leaks of a scan name no more distinct commits than were visited.
pub proof fn leaks_name_visited_commits(scan: ScanView, commits: Seq<CommitView>, gated: bool)
    ensures
        commits_named(scan_leaks(scan, commits, gated)).finite(),
        commits_named(scan_leaks(scan, commits, gated)).len() <= commits.len(),
{
    let leaks = scan_leaks(scan, commits, gated);
    let visited = Seq::new(commits.len(), |c: int| commits[c].commit);
    assert forall|id: Seq<char>| commits_named(leaks).contains(id) implies visited.to_set().contains(id) by {
        let i = choose|i: int| 0 <= i < leaks.len() && (#[trigger] leaks[i]).commit == id;
        every_leak_is_genuine(scan, commits, gated, leaks[i]);
        let (c, f, l, r, j) = choose|c: int, f: int, l: int, r: int, j: int|
            found_by(scan, commits, leaks[i], c, f, l, r, j);
        assert(visited[c] == id);
    }
    seq_to_set_is_finite(visited);
    visited.lemma_cardinality_of_set();
    lemma_len_subset(commits_named(leaks), visited.to_set());
}

/// Two scans of the same commits with the same rules and allowlists give the
/// same number of commits and the same leaks in the same order.
pub proof fn same_scan_same_results(
    scan: ScanView,
    commits: Seq<CommitView>,
    first: ResultsView,
    second: ResultsView,
)
    requires
        first.commits_number == commits.len(),
        first.outputs == scan_leaks(scan, commits, true),
        second.commits_number == commits.len(),
        second.outputs == scan_leaks(scan, commits, true),
    ensures
        first == second,
{
}

/// Skipping a commit or a file as a whole loses nothing: where the global
/// allowlist lists the commit or the path, no match there would survive.
pub proof fn skipped_whole_loses_nothing(
    scan: ScanView,
    commit: Seq<char>,
    path: Seq<char>,
    line: Seq<char>,
    m: MatchView,
)
    requires
        commit_listed(scan.allowlist, commit) || path_listed(scan.allowlist, path),
    ensures
        !survives(scan, commit, path, line, m),
{
}

/// The second rule is the first but for its allowlist, which is that of the
/// first with entries added; a rule that had no allowlist may have got one.
pub open spec fn rule_tightened(a: RuleView, b: RuleView) -> bool {
    &&& a.description == b.description
    &&& a.id == b.id
    &&& a.regex == b.regex
    &&& a.keywords == b.keywords
    &&& match a.allowlist {
        Some(before) => b.allowlist matches Some(after) && extends(before, after),
        None => true,
    }
}

/// The second scan is the first with entries added to allowlists: to the
/// global one, or to those of rules.
pub open spec fn tightened(a: ScanView, b: ScanView) -> bool {
    &&& extends(a.allowlist, b.allowlist)
    &&& a.rules.len() == b.rules.len()
    &&& forall|r: int| 0 <= r < a.rules.len() ==> rule_tightened(#[trigger] a.rules[r], b.rules[r])
}

proof fn lemma_same_candidates(a: Seq<RuleView>, b: Seq<RuleView>, low_line: Seq<char>, n: nat)
    requires
        n <= a.len() == b.len(),
        forall|r: int| 0 <= r < a.len() ==> (#[trigger] a[r]).keywords == b[r].keywords,
    ensures
        candidates_upto(a, low_line, n) == candidates_upto(b, low_line, n),
    decreases n,
{
    if n > 0 {
        lemma_same_candidates(a, b, low_line, (n - 1) as nat);
        assert(a[n - 1].keywords == b[n - 1].keywords);
    }
}

proof fn lemma_same_matches(a: ScanView, b: ScanView, line: Seq<char>, line_number: nat, gated: bool)
    requires
        tightened(a, b),
    ensures
        tried_rules(a.rules, line, gated) == tried_rules(b.rules, line, gated),
        line_matches(a.rules, tried_rules(a.rules, line, gated), line, line_number) == line_matches(
            b.rules,
            tried_rules(b.rules, line, gated),
            line,
            line_number,
        ),
{
    assert forall|r: int| 0 <= r < a.rules.len() implies (#[trigger] a.rules[r]).keywords
        == b.rules[r].keywords by {
        assert(rule_tightened(a.rules[r], b.rules[r]));
    }
    lemma_same_candidates(a.rules, b.rules, lowercase(line), a.rules.len());
    let tried = tried_rules(a.rules, line, gated);
    let by_a = matches_by_rule(a.rules, line, line_number);
    let by_b = matches_by_rule(b.rules, line, line_number);
    assert forall|k: int| 0 <= k < tried.len() implies #[trigger] by_a(tried[k]) == by_b(tried[k]) by {
        let r = tried[k] as int;
        if 0 <= r < a.rules.len() {
            assert(rule_tightened(a.rules[r], b.rules[r]));
        }
        assert(rule_matches(a.rules, line, line_number, r) =~= rule_matches(b.rules, line, line_number, r));
    }
    lemma_flat_map_agree(tried, by_a, by_b);
}

proof fn lemma_survives_the_looser(
    a: ScanView,
    b: ScanView,
    commit: Seq<char>,
    path: Seq<char>,
    line: Seq<char>,
    m: MatchView,
)
    requires
        tightened(a, b),
        survives(b, commit, path, line, m),
    ensures
        survives(a, commit, path, line, m),
{
    if suppressed_by(a.allowlist, path, commit, line, m.offender) {
        lemma_more_entries_suppress_more(a.allowlist, b.allowlist, path, commit, line, m.offender);
    }
    let own = own_allowlist(a, m.rule);
    if suppressed_by(own, path, commit, line, m.offender) {
        assert(rule_tightened(a.rules[m.rule], b.rules[m.rule]));
        lemma_more_entries_suppress_more(own, own_allowlist(b, m.rule), path, commit, line, m.offender);
    }
}

/// Adding entries to allowlists adds no leak: what a scan reports after
/// entries were added to the global allowlist or to allowlists of rules, it
/// reported before.
pub proof fn more_entries_add_no_leak(
    before: ScanView,
    after: ScanView,
    commits: Seq<CommitView>,
    gated: bool,
    leak: LeakView,
)
    requires
        tightened(before, after),
        scan_leaks(after, commits, gated).contains(leak),
    ensures
        scan_leaks(before, commits, gated).contains(leak),
{
    let c = lemma_flat_map_member(commits, leaks_per_commit(after, gated), leak);
    let commit = commits[c];
    assert(commit_leaks(after, commit, gated).contains(leak));
    let f = lemma_flat_map_member(commit.files, leaks_per_file(after, commit, gated), leak);
    let file = commit.files[f];
    assert(file_leaks(after, commit, file, gated).contains(leak));
    let lines = lines_of(file.content);
    let l = lemma_flat_map_member(numbered(lines), leaks_per_line(after, commit, file.path, gated), leak);
    let line = lines[l];
    let number = (l + 1) as nat;
    assert(numbered(lines)[l] == (number, line));
    assert(line_leaks(after, commit, file.path, number, line, gated).contains(leak));
    let found = line_matches(after.rules, tried_rules(after.rules, line, gated), line, number);
    let mi = lemma_flat_map_member(found, leak_per_match(after, commit, file.path, line), leak);
    let m = found[mi];
    assert(seq![leak_of(commit, file.path, line, m)].contains(leak));
    assert(survives(after, commit.commit, file.path, line, m));

    lemma_same_matches(before, after, line, number, gated);
    lemma_survives_the_looser(before, after, commit.commit, file.path, line, m);
    assert(leak_per_match(before, commit, file.path, line)(found[mi]) == seq![leak]);
    assert(seq![leak][0] == leak);
    lemma_flat_map_holds(found, leak_per_match(before, commit, file.path, line), mi, leak);
    assert(leaks_per_line(before, commit, file.path, gated)(numbered(lines)[l]).contains(leak));
    lemma_flat_map_holds(numbered(lines), leaks_per_line(before, commit, file.path, gated), l, leak);
    if path_listed(before.allowlist, file.path) {
        let i = choose|i: int|
            0 <= i < before.allowlist.paths.len() && hits(#[trigger] before.allowlist.paths[i], file.path);
        let k = choose|k: int|
            0 <= k < after.allowlist.paths.len() && after.allowlist.paths[k] == before.allowlist.paths[i];
        assert(hits(after.allowlist.paths[k], file.path));
    }
    assert(leaks_per_file(before, commit, gated)(commit.files[f]).contains(leak));
    lemma_flat_map_holds(commit.files, leaks_per_file(before, commit, gated), f, leak);
    if commit_listed(before.allowlist, commit.commit) {
        let i = choose|i: int|
            0 <= i < before.allowlist.commits.len() && #[trigger] before.allowlist.commits[i] == commit.commit;
        let k = choose|k: int|
            0 <= k < after.allowlist.commits.len() && after.allowlist.commits[k]
                == before.allowlist.commits[i];
        assert(after.allowlist.commits[k] == commit.commit);
    }
    assert(leaks_per_commit(before, gated)(commits[c]).contains(leak));
    lemma_flat_map_holds(commits, leaks_per_commit(before, gated), c, leak);
}

/// The leaks that the rule at `r` gives in line `l` of file `f` of a commit.
pub open spec fn rule_leaks_at(scan: ScanView, commit: CommitView, f: int, l: int, r: int) -> Seq<LeakView> {
    leaks_of_matches(
        scan,
        commit,
        commit.files[f].path,
        line_at(commit, f, l),
        rule_matches(scan.rules, line_at(commit, f, l), (l + 1) as nat, r),
    )
}

/// Keyword gating costs no leak: wherever a line is scanned and a rule is
/// not tried on it for want of a keyword, that rule would have given no
/// leak there.
pub open spec fn gating_costs_nothing(scan: ScanView, commits: Seq<CommitView>) -> bool {
    forall|c: int, f: int, l: int, r: int|
        0 <= c < commits.len() && 0 <= f < commits[c].files.len() && 0 <= l < numbered(
            lines_of(commits[c].files[f].content),
        ).len() && 0 <= r < scan.rules.len() && !commit_listed(scan.allowlist, commits[c].commit)
            && !path_listed(scan.allowlist, commits[c].files[f].path) && !is_candidate(
            scan.rules[r],
            lowercase(line_at(commits[c], f, l)),
        ) ==> (#[trigger] rule_leaks_at(scan, commits[c], f, l, r)).len() == 0
}

proof fn lemma_gating_upto(
    scan: ScanView,
    commit: CommitView,
    path: Seq<char>,
    line_number: nat,
    line: Seq<char>,
    n: nat,
)
    requires
        n <= scan.rules.len() <= usize::MAX,
        forall|r: int|
            0 <= r < scan.rules.len() && !is_candidate(scan.rules[r], lowercase(line)) ==> leaks_of_matches(
                scan,
                commit,
                path,
                line,
                #[trigger] rule_matches(scan.rules, line, line_number, r),
            ).len() == 0,
    ensures
        leaks_of_matches(
            scan,
            commit,
            path,
            line,
            flat_map(candidates_upto(scan.rules, lowercase(line), n), matches_by_rule(scan.rules, line, line_number)),
        ) == leaks_of_matches(
            scan,
            commit,
            path,
            line,
            flat_map(all_indices(n), matches_by_rule(scan.rules, line, line_number)),
        ),
    decreases n,
{
    let by_rule = matches_by_rule(scan.rules, line, line_number);
    let per_match = leak_per_match(scan, commit, path, line);
    if n == 0 {
        assert(all_indices(0) =~= Seq::<usize>::empty());
    } else {
        let m = (n - 1) as nat;
        let last = m as usize;
        lemma_gating_upto(scan, commit, path, line_number, line, m);
        assert(all_indices(n) =~= all_indices(m).push(last));
        lemma_flat_map_push(all_indices(m), last, by_rule);
        lemma_flat_map_concat(flat_map(all_indices(m), by_rule), by_rule(last), per_match);
        assert(by_rule(last) == rule_matches(scan.rules, line, line_number, m as int));
        if is_candidate(scan.rules[m as int], lowercase(line)) {
            let gated = candidates_upto(scan.rules, lowercase(line), m);
            lemma_flat_map_push(gated, last, by_rule);
            lemma_flat_map_concat(flat_map(gated, by_rule), by_rule(last), per_match);
        } else {
            assert(flat_map(by_rule(last), per_match).len() == 0);
            assert(flat_map(flat_map(all_indices(m), by_rule), per_match) + flat_map(by_rule(last), per_match)
                =~= flat_map(flat_map(all_indices(m), by_rule), per_match));
        }
    }
}

/// Keyword gating changes no result: a scan that tries only the rules that
/// gating picks reports what a scan reports that tries every rule on every
/// line, in the same order, wherever gating costs no leak.
pub proof fn gating_changes_no_result(scan: ScanView, commits: Seq<CommitView>)
    requires
        scan.rules.len() <= usize::MAX,
        gating_costs_nothing(scan, commits),
    ensures
        scan_leaks(scan, commits, true) == scan_leaks(scan, commits, false),
{
    let gated = leaks_per_commit(scan, true);
    let plain = leaks_per_commit(scan, false);
    assert forall|c: int| 0 <= c < commits.len() implies #[trigger] gated(commits[c]) == plain(commits[c]) by {
        let commit = commits[c];
        if !commit_listed(scan.allowlist, commit.commit) {
            let gated_files = leaks_per_file(scan, commit, true);
            let plain_files = leaks_per_file(scan, commit, false);
            assert forall|f: int| 0 <= f < commit.files.len() implies #[trigger] gated_files(commit.files[f])
                == plain_files(commit.files[f]) by {
                let file = commit.files[f];
                if !path_listed(scan.allowlist, file.path) {
                    let all = numbered(lines_of(file.content));
                    let gated_lines = leaks_per_line(scan, commit, file.path, true);
                    let plain_lines = leaks_per_line(scan, commit, file.path, false);
                    assert forall|l: int| 0 <= l < all.len() implies #[trigger] gated_lines(all[l])
                        == plain_lines(all[l]) by {
                        let line = line_at(commit, f, l);
                        let number = (l + 1) as nat;
                        assert(all[l] == (number, line));
                        assert forall|r: int|
                            0 <= r < scan.rules.len() && !is_candidate(
                                scan.rules[r],
                                lowercase(line),
                            ) implies leaks_of_matches(
                            scan,
                            commit,
                            file.path,
                            line,
                            #[trigger] rule_matches(scan.rules, line, number, r),
                        ).len() == 0 by {
                            assert(rule_leaks_at(scan, commits[c], f, l, r).len() == 0);
                        }
                        lemma_gating_upto(scan, commit, file.path, number, line, scan.rules.len());
                    }
                    lemma_flat_map_agree(all, gated_lines, plain_lines);
                }
            }
            lemma_flat_map_agree(commit.files, gated_files, plain_files);
        }
    }
    lemma_flat_map_agree(commits, gated, plain);
}

/// Where no rule has a keyword, gating has nothing to decide: every rule is
/// tried on every line, and the scan reports what it reports without
/// gating.
pub proof fn gating_is_idle_without_keywords(scan: ScanView, commits: Seq<CommitView>)
    requires
        scan.rules.len() <= usize::MAX,
        forall|r: int| 0 <= r < scan.rules.len() ==> (#[trigger] scan.rules[r]).keywords.len() == 0,
    ensures
        scan_leaks(scan, commits, true) == scan_leaks(scan, commits, false),
{
    assert forall|c: int, f: int, l: int, r: int|
        0 <= c < commits.len() && 0 <= r < scan.rules.len() && !is_candidate(
            scan.rules[r],
            lowercase(line_at(commits[c], f, l)),
        ) implies (#[trigger] rule_leaks_at(scan, commits[c], f, l, r)).len() == 0 by {
        assert(scan.rules[r].keywords.len() == 0);
    }
    gating_changes_no_result(scan, commits);
}

} // verus!
