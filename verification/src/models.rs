//! The data that a scan reads and gives: configuration, rules, allowlists,
//! commits, leaks and results, each with the mathematical value that the
//! contracts of the library speak of.

use vstd::prelude::*;
use crate::text::texts;

verus! {

/// The options of a run.
#[derive(Debug)]
pub struct Config {
    /// Target repository.
    pub repo: String,
    /// Path of the file that holds the rules.
    pub config: String,
    /// Path to write the report to.
    pub report: String,
    /// Format of the report: json, csv or sarif.
    pub report_format: String,
    /// Show verbose output from the scan.
    pub verbose: bool,
    /// Pretty print json if leaks are present.
    pub pretty: bool,
    /// Id of the commit to scan, or "latest" for the last commit.
    pub commit: Option<String>,
    /// Comma separated list of commits to scan.
    pub commits: Option<String>,
    /// File with a list of commits to scan, one on each line.
    pub commits_file: Option<String>,
    /// Scan commits more recent than this date.
    pub commit_since: Option<String>,
    /// Scan commits older than this date.
    pub commit_until: Option<String>,
    /// Commit to start the scan from.
    pub commit_from: Option<String>,
    /// Commit to stop the scan at.
    pub commit_to: Option<String>,
    /// Branch to scan.
    pub branch: Option<String>,
    /// Scan the uncommitted changes of the working tree.
    pub uncommitted: Option<bool>,
    /// Scan only the commits of this author.
    pub user: Option<String>,
    /// Load the rules from the target repository.
    pub repo_config: bool,
    /// Log debug messages.
    pub debug: bool,
    /// Directory to clone the repository to.
    pub disk: Option<String>,
}

/// What an allowlist holds, as plain text.
pub struct AllowlistView {
    pub paths: Seq<Seq<char>>,
    pub commits: Seq<Seq<char>>,
    pub regex_target: Seq<char>,
    pub regexes: Seq<Seq<char>>,
    pub stopwords: Seq<Seq<char>>,
}

/// A policy that removes matches which would otherwise be reported.
#[derive(Debug)]
pub struct Allowlist {
    /// Regular expressions; a file whose path matches one is skipped.
    pub paths: Vec<String>,
    /// Commit ids; a commit named here is skipped.
    pub commits: Vec<String>,
    /// What `regexes` and `stopwords` are held against: "match" for the
    /// matched text, "line" for the whole line.
    pub regex_target: String,
    /// Regular expressions; a secret that matches one is skipped.
    pub regexes: Vec<String>,
    /// Words; a secret that contains one, in any letter case, is skipped.
    pub stopwords: Vec<String>,
}

impl View for Allowlist {
    type V = AllowlistView;

    open spec fn view(&self) -> AllowlistView {
        AllowlistView {
            paths: texts(self.paths@),
            commits: texts(self.commits@),
            regex_target: self.regex_target@,
            regexes: texts(self.regexes@),
            stopwords: texts(self.stopwords@),
        }
    }
}

/// The allowlist without entries, held against the matched text.
pub open spec fn empty_allowlist() -> AllowlistView {
    AllowlistView {
        paths: Seq::empty(),
        commits: Seq::empty(),
        regex_target: "match"@,
        regexes: Seq::empty(),
        stopwords: Seq::empty(),
    }
}

impl Allowlist {
    /// An allowlist without entries.
    pub fn new() -> (a: Allowlist)
        ensures
            a@ == empty_allowlist(),
    {
        let a = Allowlist {
            paths: Vec::new(),
            commits: Vec::new(),
            regex_target: "match".to_owned(),
            regexes: Vec::new(),
            stopwords: Vec::new(),
        };
        assert(a@.paths =~= Seq::empty());
        assert(a@.commits =~= Seq::empty());
        assert(a@.regexes =~= Seq::empty());
        assert(a@.stopwords =~= Seq::empty());
        a
    }
}

impl Default for Allowlist {
    fn default() -> (a: Allowlist)
        ensures
            a@ == empty_allowlist(),
    {
        Allowlist::new()
    }
}

/// What a rule holds, as plain text.
pub struct RuleView {
    pub description: Seq<char>,
    pub id: Seq<char>,
    pub regex: Seq<char>,
    pub keywords: Seq<Seq<char>>,
    pub allowlist: Option<AllowlistView>,
}

/// A named detector: a regular expression, the keywords that make a line
/// worth trying it on, and an allowlist of its own if it has one.
#[derive(Debug)]
pub struct Rule {
    /// Short description for readers.
    pub description: String,
    /// Identifier, unique among the rules of a scan.
    pub id: String,
    /// Regular expression that detects the secret.
    pub regex: String,
    /// Words of which a line must contain one, in any letter case, for the
    /// rule to be tried on it. A rule without keywords is tried on every line.
    pub keywords: Vec<String>,
    /// Matches of this rule that are not reported.
    pub allowlist: Option<Allowlist>,
}

impl View for Rule {
    type V = RuleView;

    open spec fn view(&self) -> RuleView {
        RuleView {
            description: self.description@,
            id: self.id@,
            regex: self.regex@,
            keywords: texts(self.keywords@),
            allowlist: match self.allowlist {
                Some(a) => Some(a@),
                None => None,
            },
        }
    }
}

/// The values of a sequence of rules.
pub open spec fn rule_views(rules: Seq<Rule>) -> Seq<RuleView> {
    Seq::new(rules.len(), |i: int| rules[i]@)
}

/// The rule that `Rule::new` gives.
pub open spec fn sample_rule() -> RuleView {
    RuleView {
        description: "11"@,
        id: "11"@,
        regex: "(?i)(?:key|api|token|secret|client|passwd|password|auth|access)"@,
        keywords: Seq::empty(),
        allowlist: None,
    }
}

impl Rule {
    /// A rule for the words that commonly stand beside a secret, without
    /// keywords and without an allowlist.
    pub fn new() -> (r: Rule)
        ensures
            r@ == sample_rule(),
    {
        let r = Rule {
            description: "11".to_owned(),
            id: "11".to_owned(),
            regex: "(?i)(?:key|api|token|secret|client|passwd|password|auth|access)".to_owned(),
            keywords: Vec::new(),
            allowlist: None,
        };
        assert(r@.keywords =~= Seq::empty());
        r
    }
}

impl Default for Rule {
    fn default() -> (r: Rule)
        ensures
            r@ == sample_rule(),
    {
        Rule::new()
    }
}

/// What a leak holds, as plain text.
pub struct LeakView {
    pub line: Seq<char>,
    pub line_number: nat,
    pub offender: Seq<char>,
    pub commit: Seq<char>,
    pub repo: Seq<char>,
    pub rule: Seq<char>,
    pub commit_message: Seq<char>,
    pub author: Seq<char>,
    pub email: Seq<char>,
    pub file: Seq<char>,
    pub date: Seq<char>,
    pub tags: Seq<char>,
    pub operation: Seq<char>,
}

/// One reported occurrence of a secret.
#[derive(Debug)]
pub struct Leak {
    /// The line that holds the secret.
    pub line: String,
    /// The number of that line in its file, counted from 1.
    pub line_number: u32,
    /// The secret: the text that the rule matched.
    pub offender: String,
    /// The id of the commit.
    pub commit: String,
    /// The repository.
    pub repo: String,
    /// The id of the rule that matched.
    pub rule: String,
    /// The message of the commit.
    pub commit_message: String,
    /// The author of the commit.
    pub author: String,
    /// The email address of the author.
    pub email: String,
    /// The path of the file.
    pub file: String,
    /// The date of the commit.
    pub date: String,
    /// The tags of the commit.
    pub tags: String,
    /// How the content came to be scanned.
    pub operation: String,
}

impl View for Leak {
    type V = LeakView;

    open spec fn view(&self) -> LeakView {
        LeakView {
            line: self.line@,
            line_number: self.line_number as nat,
            offender: self.offender@,
            commit: self.commit@,
            repo: self.repo@,
            rule: self.rule@,
            commit_message: self.commit_message@,
            author: self.author@,
            email: self.email@,
            file: self.file@,
            date: self.date@,
            tags: self.tags@,
            operation: self.operation@,
        }
    }
}

/// The values of a sequence of leaks.
pub open spec fn leak_views(leaks: Seq<Leak>) -> Seq<LeakView> {
    Seq::new(leaks.len(), |i: int| leaks[i]@)
}

/// The moment of a commit: seconds since 1970-01-01 00:00:00 UTC, and the
/// offset of the author's clock from UTC in seconds, east positive.
#[derive(Debug, Clone, Copy)]
pub struct CommitDate {
    pub seconds: i64,
    pub offset: i32,
}

/// A changed file of a commit: its path and its content.
pub struct FileView {
    pub path: Seq<char>,
    pub content: Seq<char>,
}

/// What a commit holds, as plain values.
pub struct CommitView {
    pub repo: Seq<char>,
    pub commit: Seq<char>,
    pub author: Seq<char>,
    pub email: Seq<char>,
    pub commit_message: Seq<char>,
    pub date: CommitDate,
    pub files: Seq<FileView>,
    pub tags: Seq<Seq<char>>,
    pub operation: Seq<char>,
}

/// A commit as the scan sees it: who made it and when, and the files that it
/// changed against its parent.
#[derive(Debug)]
pub struct CommitInfo {
    /// The repository.
    pub repo: String,
    /// The id of the commit, in hexadecimal.
    pub commit: String,
    /// The name of the author.
    pub author: String,
    /// The email address of the author.
    pub email: String,
    /// The message.
    pub commit_message: String,
    /// The date.
    pub date: CommitDate,
    /// Path and content of each changed file, in the order of the diff.
    pub files: Vec<(String, String)>,
    /// The tags that point to the commit.
    pub tags: Vec<String>,
    /// How the content came to be scanned.
    pub operation: String,
}

/// The values of a sequence of files.
pub open spec fn file_views(files: Seq<(String, String)>) -> Seq<FileView> {
    Seq::new(files.len(), |i: int| FileView { path: files[i].0@, content: files[i].1@ })
}

impl View for CommitInfo {
    type V = CommitView;

    open spec fn view(&self) -> CommitView {
        CommitView {
            repo: self.repo@,
            commit: self.commit@,
            author: self.author@,
            email: self.email@,
            commit_message: self.commit_message@,
            date: self.date,
            files: file_views(self.files@),
            tags: texts(self.tags@),
            operation: self.operation@,
        }
    }
}

/// The values of a sequence of commits.
pub open spec fn commit_views(commits: Seq<CommitInfo>) -> Seq<CommitView> {
    Seq::new(commits.len(), |i: int| commits[i]@)
}

/// What a scan has found so far, as plain values.
pub struct ResultsView {
    pub commits_number: nat,
    pub outputs: Seq<LeakView>,
}

/// The outcome of a scan.
#[derive(Debug)]
pub struct Results {
    /// The number of commits that were visited.
    pub commits_number: usize,
    /// The leaks, in the order in which they were found.
    pub outputs: Vec<Leak>,
}

impl View for Results {
    type V = ResultsView;

    open spec fn view(&self) -> ResultsView {
        ResultsView {
            commits_number: self.commits_number as nat,
            outputs: leak_views(self.outputs@),
        }
    }
}

impl Results {
    /// No commit visited, nothing found.
    pub fn new() -> (r: Results)
        ensures
            r@.commits_number == 0,
            r@.outputs == Seq::<LeakView>::empty(),
    {
        let r = Results { commits_number: 0, outputs: Vec::new() };
        assert(r@.outputs =~= Seq::empty());
        r
    }
}

impl Default for Results {
    fn default() -> (r: Results)
        ensures
            r@.commits_number == 0,
            r@.outputs == Seq::<LeakView>::empty(),
    {
        Results::new()
    }
}

/// A leak as a row of a table.
#[derive(Debug)]
pub struct CsvResult {
    /// The line that holds the secret.
    pub line: String,
    /// The number of that line in its file, counted from 1.
    pub line_number: u32,
    /// The secret: the text that the rule matched.
    pub offender: String,
    /// The id of the commit.
    pub commit: String,
    /// The repository.
    pub repo: String,
    /// The id of the rule that matched.
    pub rule: String,
    /// The message of the commit.
    pub commit_message: String,
    /// The author of the commit.
    pub author: String,
    /// The email address of the author.
    pub email: String,
    /// The path of the file.
    pub file: String,
    /// The date of the commit.
    pub date: String,
}

impl CsvResult {
    /// The row of a leak: the leak without its tags and its operation.
    pub fn of(leak: &Leak) -> (row: CsvResult)
        ensures
            row.line@ == leak.line@,
            row.line_number == leak.line_number,
            row.offender@ == leak.offender@,
            row.commit@ == leak.commit@,
            row.repo@ == leak.repo@,
            row.rule@ == leak.rule@,
            row.commit_message@ == leak.commit_message@,
            row.author@ == leak.author@,
            row.email@ == leak.email@,
            row.file@ == leak.file@,
            row.date@ == leak.date@,
    {
        CsvResult {
            line: leak.line.clone(),
            line_number: leak.line_number,
            offender: leak.offender.clone(),
            commit: leak.commit.clone(),
            repo: leak.repo.clone(),
            rule: leak.rule.clone(),
            commit_message: leak.commit_message.clone(),
            author: leak.author.clone(),
            email: leak.email.clone(),
            file: leak.file.clone(),
            date: leak.date.clone(),
        }
    }
}

} // verus!
