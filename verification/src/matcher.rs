//! Applying rules to a line of text.

use vstd::prelude::*;
use crate::models::{Rule, RuleView, rule_views};
use crate::pattern::{Found, find, finds, found_views, found_within};
use crate::text::occurs_in;
use crate::seqs::{flat_map, lemma_flat_map_take};

verus! {

/// What a raw match holds, as plain values.
pub struct MatchView {
    pub rule: int,
    pub rule_id: Seq<char>,
    pub offender: Seq<char>,
    pub line_number: nat,
}

/// A match of a rule in a line, before any allowlist was asked.
#[derive(Debug)]
pub struct MatchCandidate {
    /// The position of the rule among the rules of the scan.
    pub rule: usize,
    /// The id of the rule.
    pub rule_id: String,
    /// The secret: the text of the first capture group where it took part
    /// in the match, else the whole matched text.
    pub offender: String,
    /// The number of the line, counted from 1.
    pub line_number: u32,
}

impl View for MatchCandidate {
    type V = MatchView;

    open spec fn view(&self) -> MatchView {
        MatchView {
            rule: self.rule as int,
            rule_id: self.rule_id@,
            offender: self.offender@,
            line_number: self.line_number as nat,
        }
    }
}

/// The values of a sequence of raw matches.
pub open spec fn match_views(found: Seq<MatchCandidate>) -> Seq<MatchView> {
    Seq::new(found.len(), |i: int| found[i]@)
}

/// The secret of a match: the first capture group where it took part in the
/// match, else the whole matched text.
pub open spec fn offender_of(found: (Seq<char>, Option<Seq<char>>)) -> Seq<char> {
    match found.1 {
        Some(group) => group,
        None => found.0,
    }
}

/// The raw matches of the rule at `r` in a line, from left to right; none
/// where there is no such rule.
pub open spec fn rule_matches(rules: Seq<RuleView>, line: Seq<char>, line_number: nat, r: int) -> Seq<MatchView> {
    if 0 <= r < rules.len() {
        let founds = finds(rules[r].regex, line);
        Seq::new(
            founds.len(),
            |j: int|
                MatchView { rule: r, rule_id: rules[r].id, offender: offender_of(founds[j]), line_number },
        )
    } else {
        Seq::empty()
    }
}

/// For each position of a rule, the raw matches of that rule in a line.
pub open spec fn matches_by_rule(rules: Seq<RuleView>, line: Seq<char>, line_number: nat) -> spec_fn(usize) -> Seq<MatchView> {
    |r: usize| rule_matches(rules, line, line_number, r as int)
}

/// The raw matches in a line of the rules at `candidates`: rule after rule
/// in the order of `candidates`, and for each rule from left to right.
pub open spec fn line_matches(
    rules: Seq<RuleView>,
    candidates: Seq<usize>,
    line: Seq<char>,
    line_number: nat,
) -> Seq<MatchView> {
    flat_map(candidates, matches_by_rule(rules, line, line_number))
}

/// The secret of every match is a part of the line.
pub open spec fn matches_within(found: Seq<MatchView>, line: Seq<char>) -> bool {
    forall|j: int| 0 <= j < found.len() ==> occurs_in((#[trigger] found[j]).offender, line)
}

/// The secret of a match.
pub fn offender(found: &Found) -> (secret: String)
    ensures
        secret@ == offender_of(found@),
{
    match &found.group {
        Some(group) => group.clone(),
        None => found.whole.clone(),
    }
}

/// The raw matches in a line of the rule at `r`.
pub fn scan_rule(line: &str, line_number: u32, rules: &Vec<Rule>, r: usize) -> (found: Vec<MatchCandidate>)
    ensures
        match_views(found@) == rule_matches(rule_views(rules@), line@, line_number as nat, r as int),
        matches_within(match_views(found@), line@),
{
    let mut found: Vec<MatchCandidate> = Vec::new();
    if r >= rules.len() {
        assert(match_views(found@) =~= Seq::empty());
        return found;
    }
    let rule = &rules[r];
    assert(rule_views(rules@)[r as int] == rule@);
    let founds = find(rule.regex.as_str(), line);
    let ghost expected = rule_matches(rule_views(rules@), line@, line_number as nat, r as int);
    let mut j: usize = 0;
    while j < founds.len()
        invariant
            j <= founds.len(),
            r < rules.len(),
            rule == &rules[r as int],
            found_views(founds@) == finds(rule@.regex, line@),
            found_within(found_views(founds@), line@),
            matches_within(match_views(found@), line@),
            expected == rule_matches(rule_views(rules@), line@, line_number as nat, r as int),
            match_views(found@) == expected.take(j as int),
        decreases founds.len() - j,
    {
        let candidate = MatchCandidate {
            rule: r,
            rule_id: rule.id.clone(),
            offender: offender(&founds[j]),
            line_number,
        };
        proof {
            assert(found_views(founds@)[j as int] == founds[j as int]@);
            assert(candidate@ == expected[j as int]);
            assert(occurs_in(candidate@.offender, line@));
        }
        let ghost earlier = match_views(found@);
        found.push(candidate);
        assert(match_views(found@) =~= earlier.push(expected[j as int]));
        assert forall|i: int| 0 <= i < found.len() implies occurs_in(
            (#[trigger] match_views(found@)[i]).offender,
            line@,
        ) by {
            if i < j {
                assert(match_views(found@)[i] == earlier[i]);
            }
        }
        assert(match_views(found@) =~= expected.take(j as int).push(expected[j as int]));
        assert(expected.take(j + 1) =~= expected.take(j as int).push(expected[j as int]));
        j += 1;
    }
    assert(expected.take(j as int) =~= expected);
    found
}

/// The raw matches in a line of the rules at `candidates`, rule after rule.
/// A position that names no rule gives nothing.
pub fn scan_line(line: &str, line_number: u32, rules: &Vec<Rule>, candidates: &Vec<usize>) -> (found: Vec<
    MatchCandidate,
>)
    ensures
        match_views(found@) == line_matches(rule_views(rules@), candidates@, line@, line_number as nat),
        matches_within(match_views(found@), line@),
{
    let ghost per_rule = matches_by_rule(rule_views(rules@), line@, line_number as nat);
    let mut found: Vec<MatchCandidate> = Vec::new();
    let mut k: usize = 0;
    assert(candidates@.take(0) =~= Seq::empty());
    assert(match_views(found@) =~= Seq::empty());
    while k < candidates.len()
        invariant
            k <= candidates.len(),
            per_rule == matches_by_rule(rule_views(rules@), line@, line_number as nat),
            match_views(found@) == flat_map(candidates@.take(k as int), per_rule),
            matches_within(match_views(found@), line@),
        decreases candidates.len() - k,
    {
        let mut more = scan_rule(line, line_number, rules, candidates[k]);
        let ghost before = match_views(found@);
        let ghost added = match_views(more@);
        found.append(&mut more);
        proof {
            lemma_flat_map_take(candidates@, k as int, per_rule);
            assert(match_views(found@) =~= before + added);
            assert forall|i: int| 0 <= i < found.len() implies occurs_in(
                (#[trigger] match_views(found@)[i]).offender,
                line@,
            ) by {
                if i < before.len() {
                    assert(match_views(found@)[i] == before[i]);
                } else {
                    assert(match_views(found@)[i] == added[i - before.len()]);
                }
            }
        }
        k += 1;
    }
    assert(candidates@.take(k as int) =~= candidates@);
    found
}

} // verus!
