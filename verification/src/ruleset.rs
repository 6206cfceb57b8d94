//! The rules of a scan with the global allowlist and the keyword index, and
//! the checks that a configuration must pass before anything is scanned.

use vstd::prelude::*;
use vstd::string::StringExecFns;
use crate::keywords::{KeywordIndex, candidate_indices};
use crate::models::{Allowlist, AllowlistView, Rule, RuleView, empty_allowlist, rule_views};
use crate::pattern::{is_valid, pattern_compiles};
use crate::text::texts;

verus! {

/// Why a configuration is refused.
#[derive(Debug)]
pub enum ConfigError {
    /// A regular expression does not compile.
    InvalidRegex { pattern: String },
    /// Two rules have the same id.
    DuplicateRuleId { id: String },
}

/// The first of the patterns that does not compile.
pub open spec fn first_invalid(patterns: Seq<Seq<char>>) -> Option<Seq<char>>
    decreases patterns.len(),
{
    if patterns.len() == 0 {
        None
    } else {
        match first_invalid(patterns.drop_last()) {
            Some(p) => Some(p),
            None => if pattern_compiles(patterns.last()) {
                None
            } else {
                Some(patterns.last())
            },
        }
    }
}

/// The first pattern of an allowlist that does not compile: the patterns for
/// paths come before those for secrets.
pub open spec fn invalid_in_allowlist(a: AllowlistView) -> Option<Seq<char>> {
    match first_invalid(a.paths) {
        Some(p) => Some(p),
        None => first_invalid(a.regexes),
    }
}

/// The first pattern of a rule that does not compile: its own regular
/// expression comes before those of its allowlist.
pub open spec fn invalid_in_rule(rule: RuleView) -> Option<Seq<char>> {
    if !pattern_compiles(rule.regex) {
        Some(rule.regex)
    } else {
        match rule.allowlist {
            Some(a) => invalid_in_allowlist(a),
            None => None,
        }
    }
}

/// The first pattern of the first `n` rules that does not compile.
pub open spec fn invalid_in_rules(rules: Seq<RuleView>, n: nat) -> Option<Seq<char>>
    decreases n,
{
    if n == 0 {
        None
    } else {
        match invalid_in_rules(rules, (n - 1) as nat) {
            Some(p) => Some(p),
            None => invalid_in_rule(rules[n - 1]),
        }
    }
}

/// The first pattern of a configuration that does not compile: the global
/// allowlist comes before the rules.
pub open spec fn invalid_pattern(allowlist: AllowlistView, rules: Seq<RuleView>) -> Option<Seq<char>> {
    match invalid_in_allowlist(allowlist) {
        Some(p) => Some(p),
        None => invalid_in_rules(rules, rules.len()),
    }
}

/// The rule at `i` has the id of a rule before it.
pub open spec fn repeats_id(rules: Seq<RuleView>, i: int) -> bool {
    exists|j: int| 0 <= j < i && (#[trigger] rules[j]).id == rules[i].id
}

/// The id of the first of the first `n` rules that has the id of a rule
/// before it.
pub open spec fn repeated_id(rules: Seq<RuleView>, n: nat) -> Option<Seq<char>>
    decreases n,
{
    if n == 0 {
        None
    } else {
        match repeated_id(rules, (n - 1) as nat) {
            Some(id) => Some(id),
            None => if repeats_id(rules, n - 1) {
                Some(rules[n - 1].id)
            } else {
                None
            },
        }
    }
}

/// No two rules have the same id.
pub open spec fn ids_unique(rules: Seq<RuleView>) -> bool {
    forall|i: int, j: int| 0 <= i < j < rules.len() ==> (#[trigger] rules[i]).id != (#[trigger] rules[j]).id
}

impl ConfigError {
    /// The error names what is wrong with the configuration: the first
    /// pattern that does not compile; or, where all compile, the first id
    /// that a rule shares with a rule before it.
    pub open spec fn explains(&self, allowlist: AllowlistView, rules: Seq<RuleView>) -> bool {
        match self {
            ConfigError::InvalidRegex { pattern } => invalid_pattern(allowlist, rules) == Some(pattern@),
            ConfigError::DuplicateRuleId { id } => invalid_pattern(allowlist, rules).is_none() && repeated_id(
                rules,
                rules.len(),
            ) == Some(id@),
        }
    }
}

impl ConfigError {
    /// What `message` says.
    pub open spec fn message_text(&self) -> Seq<char> {
        match self {
            ConfigError::InvalidRegex { pattern } => "the regular expression `"@ + pattern@
                + "` does not compile"@,
            ConfigError::DuplicateRuleId { id } => "two rules have the id `"@ + id@ + "`"@,
        }
    }

    /// The error in words, with the pattern or the id that it is about.
    pub fn message(&self) -> (text: String)
        ensures
            text@ == self.message_text(),
    {
        match self {
            ConfigError::InvalidRegex { pattern } => {
                let mut text = "the regular expression `".to_owned();
                text.append(pattern.as_str());
                text.append("` does not compile");
                text
            },
            ConfigError::DuplicateRuleId { id } => {
                let mut text = "two rules have the id `".to_owned();
                text.append(id.as_str());
                text.append("`");
                text
            },
        }
    }
}

/// The rules and the global allowlist of a scan.
pub struct ScanView {
    pub allowlist: AllowlistView,
    pub rules: Seq<RuleView>,
}

/// What a scan runs with: the global allowlist, the rules, and the index of
/// their keywords.
#[derive(Debug)]
pub struct Scan {
    /// The allowlist that holds for every rule.
    pub allowlist: Allowlist,
    /// The rules, in the order in which their matches are reported.
    pub ruleslist: Vec<Rule>,
    /// The keywords of the rules in lower case, each once: a line that
    /// holds none of them is tried only on the rules without keywords.
    pub keywords: Vec<String>,
    /// For each keyword the rules that have it, and the rules without
    /// keywords.
    pub index: KeywordIndex,
}

impl View for Scan {
    type V = ScanView;

    open spec fn view(&self) -> ScanView {
        ScanView { allowlist: self.allowlist@, rules: rule_views(self.ruleslist@) }
    }
}

/// The first of the patterns that does not compile, if there is one.
fn find_invalid(patterns: &Vec<String>) -> (found: Option<String>)
    ensures
        match found {
            Some(p) => first_invalid(texts(patterns@)) == Some(p@),
            None => first_invalid(texts(patterns@)).is_none(),
        },
{
    let mut i: usize = 0;
    assert(texts(patterns@).take(0) == Seq::<Seq<char>>::empty());
    while i < patterns.len()
        invariant
            i <= patterns.len(),
            first_invalid(texts(patterns@).take(i as int)).is_none(),
        decreases patterns.len() - i,
    {
        let ghost all = texts(patterns@);
        assert(all.take(i + 1).drop_last() == all.take(i as int));
        assert(all.take(i + 1).last() == patterns[i as int]@);
        if !is_valid(patterns[i].as_str()) {
            proof {
                lemma_first_invalid_stays(all, i + 1);
            }
            return Some(patterns[i].clone());
        }
        i += 1;
    }
    assert(texts(patterns@).take(i as int) == texts(patterns@));
    None
}

/// What is found among the first `k` patterns is found among all.
proof fn lemma_first_invalid_stays(patterns: Seq<Seq<char>>, k: int)
    requires
        0 <= k <= patterns.len(),
        first_invalid(patterns.take(k)).is_some(),
    ensures
        first_invalid(patterns) == first_invalid(patterns.take(k)),
    decreases patterns.len() - k,
{
    if k < patterns.len() {
        assert(patterns.take(k + 1).drop_last() == patterns.take(k));
        lemma_first_invalid_stays(patterns, k + 1);
    } else {
        assert(patterns.take(k) == patterns);
    }
}

/// What is found among the first `k` rules is found among the first `n`.
proof fn lemma_invalid_in_rules_stays(rules: Seq<RuleView>, k: nat, n: nat)
    requires
        k <= n,
        invalid_in_rules(rules, k).is_some(),
    ensures
        invalid_in_rules(rules, n) == invalid_in_rules(rules, k),
    decreases n - k,
{
    if k < n {
        lemma_invalid_in_rules_stays(rules, k + 1, n);
    }
}

/// An id that repeats among the first `k` rules repeats among the first `n`.
proof fn lemma_repeated_id_stays(rules: Seq<RuleView>, k: nat, n: nat)
    requires
        k <= n,
        repeated_id(rules, k).is_some(),
    ensures
        repeated_id(rules, n) == repeated_id(rules, k),
    decreases n - k,
{
    if k < n {
        lemma_repeated_id_stays(rules, k + 1, n);
    }
}

/// Where no id repeats among the first `n` rules, their ids differ.
proof fn lemma_no_repeat_is_unique(rules: Seq<RuleView>, n: nat)
    requires
        n <= rules.len(),
        repeated_id(rules, n).is_none(),
    ensures
        forall|i: int, j: int| 0 <= i < j < n ==> (#[trigger] rules[i]).id != (#[trigger] rules[j]).id,
    decreases n,
{
    if n > 0 {
        lemma_no_repeat_is_unique(rules, (n - 1) as nat);
        assert(!repeats_id(rules, n - 1));
    }
}

/// Where the ids of the first `n` rules differ, none repeats among them.
proof fn lemma_unique_has_no_repeat(rules: Seq<RuleView>, n: nat)
    requires
        n <= rules.len(),
        ids_unique(rules),
    ensures
        repeated_id(rules, n).is_none(),
    decreases n,
{
    if n > 0 {
        lemma_unique_has_no_repeat(rules, (n - 1) as nat);
    }
}

impl Allowlist {
    /// The first pattern of the allowlist that does not compile, if there
    /// is one.
    pub fn find_invalid_pattern(&self) -> (found: Option<String>)
        ensures
            match found {
                Some(p) => invalid_in_allowlist(self@) == Some(p@),
                None => invalid_in_allowlist(self@).is_none(),
            },
    {
        match find_invalid(&self.paths) {
            Some(p) => Some(p),
            None => find_invalid(&self.regexes),
        }
    }
}

impl Rule {
    /// The first pattern of the rule that does not compile, if there is one.
    pub fn find_invalid_pattern(&self) -> (found: Option<String>)
        ensures
            match found {
                Some(p) => invalid_in_rule(self@) == Some(p@),
                None => invalid_in_rule(self@).is_none(),
            },
    {
        if !is_valid(self.regex.as_str()) {
            return Some(self.regex.clone());
        }
        match &self.allowlist {
            Some(a) => a.find_invalid_pattern(),
            None => None,
        }
    }
}

impl Scan {
    /// The scan is one that can be run: the keywords and their index fit the
    /// rules, no two rules have the same id, and every pattern compiles.
    pub open spec fn wf(&self) -> bool {
        &&& self.index.describes(self.keywords@, self@.rules)
        &&& ids_unique(self@.rules)
        &&& invalid_pattern(self@.allowlist, self@.rules).is_none()
    }

    /// A scan without rules and with an allowlist without entries. It has
    /// no keywords, and its index holds nothing.
    pub fn new() -> (scan: Scan)
        ensures
            scan.wf(),
            scan@.allowlist == empty_allowlist(),
            scan@.rules == Seq::<RuleView>::empty(),
            scan.keywords@.len() == 0,
            scan.index.rules@.len() == 0,
            scan.index.always@.len() == 0,
    {
        let scan = Scan {
            allowlist: Allowlist::new(),
            ruleslist: Vec::new(),
            keywords: Vec::new(),
            index: KeywordIndex::new(),
        };
        assert(scan@.rules =~= Seq::empty());
        scan
    }

    /// The scan for these rules and this global allowlist.
    ///
    /// A configuration is refused if one of its regular expressions does not
    /// compile, and otherwise if two of its rules have the same id; the
    /// error names the first such pattern or id.
    pub fn build(rules: Vec<Rule>, allowlist: Allowlist) -> (built: Result<Scan, ConfigError>)
        ensures
            built.is_ok() <==> invalid_pattern(allowlist@, rule_views(rules@)).is_none() && ids_unique(
                rule_views(rules@),
            ),
            built matches Ok(scan) ==> scan.wf() && scan@.allowlist == allowlist@ && scan@.rules == rule_views(
                rules@,
            ),
            built matches Err(e) ==> e.explains(allowlist@, rule_views(rules@)),
    {
        let ghost views = rule_views(rules@);
        if let Some(pattern) = allowlist.find_invalid_pattern() {
            return Err(ConfigError::InvalidRegex { pattern });
        }
        let mut i: usize = 0;
        while i < rules.len()
            invariant
                i <= rules.len(),
                views == rule_views(rules@),
                invalid_in_allowlist(allowlist@).is_none(),
                invalid_in_rules(views, i as nat).is_none(),
            decreases rules.len() - i,
        {
            assert(views[i as int] == rules[i as int]@);
            if let Some(pattern) = rules[i].find_invalid_pattern() {
                proof {
                    lemma_invalid_in_rules_stays(views, (i + 1) as nat, views.len());
                }
                return Err(ConfigError::InvalidRegex { pattern });
            }
            i += 1;
        }
        let mut i: usize = 0;
        while i < rules.len()
            invariant
                i <= rules.len(),
                views == rule_views(rules@),
                invalid_pattern(allowlist@, views).is_none(),
                repeated_id(views, i as nat).is_none(),
            decreases rules.len() - i,
        {
            let mut j: usize = 0;
            while j < i
                invariant
                    j <= i < rules.len(),
                    views == rule_views(rules@),
                    invalid_pattern(allowlist@, views).is_none(),
                    repeated_id(views, i as nat).is_none(),
                    forall|d: int| 0 <= d < j ==> (#[trigger] views[d]).id != views[i as int].id,
                decreases i - j,
            {
                if rules[j].id == rules[i].id {
                    proof {
                        assert(views[j as int].id == views[i as int].id);
                        assert(repeats_id(views, i as int));
                        lemma_repeated_id_stays(views, (i + 1) as nat, views.len());
                        if ids_unique(views) {
                            lemma_unique_has_no_repeat(views, views.len());
                        }
                    }
                    return Err(ConfigError::DuplicateRuleId { id: rules[i].id.clone() });
                }
                j += 1;
            }
            i += 1;
        }
        proof {
            lemma_no_repeat_is_unique(views, views.len());
        }
        let (keywords, index) = KeywordIndex::for_rules(&rules);
        Ok(Scan { allowlist, ruleslist: rules, keywords, index })
    }

    /// The positions of the rules that are tried on `line`, in ascending
    /// order: the rules without keywords, and those of which the line
    /// contains a keyword, letter case set aside.
    pub fn candidate_rules(&self, line: &str) -> (cands: Vec<usize>)
        requires
            self.wf(),
        ensures
            cands@ == candidate_indices(self@.rules, line@),
    {
        self.index.candidate_rules(&self.keywords, &self.ruleslist, line)
    }
}

impl Default for Scan {
    fn default() -> (scan: Scan)
        ensures
            scan.wf(),
            scan@.allowlist == empty_allowlist(),
            scan@.rules == Seq::<RuleView>::empty(),
            scan.keywords@.len() == 0,
            scan.index.rules@.len() == 0,
            scan.index.always@.len() == 0,
    {
        Scan::new()
    }
}

} // verus!
