use sensleak::models::{Allowlist, CommitDate, CommitInfo, Results, Rule};
use sensleak::ruleset::{ConfigError, Scan};
use sensleak::collector::{collect_matches, make_leak, Stamp};
use sensleak::matcher::{scan_line, MatchCandidate};
use sensleak::session::{scan, scan_commit, scan_commits, scan_file, Progress, ReadError, Step};

fn api_key_rule() -> Rule {
    Rule {
        description: String::from("Generic API key"),
        id: String::from("generic-api-key"),
        regex: String::from(r#"(?i)api_key\s*=\s*['"]([a-z0-9]{16,})['"]"#),
        keywords: vec![String::from("api_key")],
        allowlist: None,
    }
}

fn commit_with(path: &str, content: &str) -> CommitInfo {
    CommitInfo {
        repo: String::from("demo"),
        commit: String::from("deadbeef"),
        author: String::from("Ada"),
        email: String::from("ada@example.org"),
        commit_message: String::from("add config"),
        date: CommitDate { seconds: 1_672_697_045, offset: -25_200 },
        files: vec![(String::from(path), String::from(content))],
        tags: vec![String::from("v1"), String::from("stable")],
        operation: String::from("addition"),
    }
}

const CONFIG_PY: &str = "import os\n\n# settings\nDEBUG = False\nAPI_KEY = \"abcd1234abcd1234\"\nPORT = 80\n";

#[test]
fn one_leak_for_a_matching_line() {
    let commits = vec![commit_with("config.py", CONFIG_PY)];
    let results = scan(vec![api_key_rule()], Allowlist::new(), &commits).unwrap();
    assert_eq!(results.commits_number, 1);
    assert_eq!(results.outputs.len(), 1);
    let leak = &results.outputs[0];
    assert_eq!(leak.offender, "abcd1234abcd1234");
    assert_eq!(leak.rule, "generic-api-key");
    assert_eq!(leak.line_number, 5);
    assert_eq!(leak.line, "API_KEY = \"abcd1234abcd1234\"");
    assert_eq!(leak.file, "config.py");
    assert_eq!(leak.commit, "deadbeef");
    assert_eq!(leak.repo, "demo");
    assert_eq!(leak.author, "Ada");
    assert_eq!(leak.email, "ada@example.org");
    assert_eq!(leak.commit_message, "add config");
    assert_eq!(leak.date, "2023-01-02T15:04:05-07:00");
    assert_eq!(leak.tags, "v1,stable");
    assert_eq!(leak.operation, "addition");
}

#[test]
fn stopword_on_the_match_suppresses_it() {
    let mut rule = api_key_rule();
    let mut own = Allowlist::new();
    own.stopwords.push(String::from("abcd1234abcd1234"));
    own.regex_target = String::from("match");
    rule.allowlist = Some(own);
    let commits = vec![commit_with("config.py", CONFIG_PY)];
    let results = scan(vec![rule], Allowlist::new(), &commits).unwrap();
    assert_eq!(results.commits_number, 1);
    assert!(results.outputs.is_empty());
}

#[test]
fn listed_path_gives_no_leak() {
    let mut global = Allowlist::new();
    global.paths.push(String::from("^vendor/"));
    let commits = vec![commit_with("vendor/lib.py", CONFIG_PY)];
    let results = scan(vec![api_key_rule()], global, &commits).unwrap();
    assert_eq!(results.commits_number, 1);
    assert!(results.outputs.is_empty());

    let mut global = Allowlist::new();
    global.paths.push(String::from("^vendor/"));
    let commits = vec![commit_with("src/vendor/lib.py", CONFIG_PY)];
    let results = scan(vec![api_key_rule()], global, &commits).unwrap();
    assert_eq!(results.outputs.len(), 1);
}

#[test]
fn commit_without_match_is_counted() {
    let built = Scan::build(vec![api_key_rule()], Allowlist::new()).unwrap();
    let mut results = Results::new();
    scan_commit(&built, &commit_with("config.py", CONFIG_PY), &mut results);
    assert_eq!(results.commits_number, 1);
    assert_eq!(results.outputs.len(), 1);
    scan_commit(&built, &commit_with("readme.md", "nothing to see\nhere\n"), &mut results);
    assert_eq!(results.commits_number, 2);
    assert_eq!(results.outputs.len(), 1);
}

#[test]
fn scanning_twice_gives_the_same() {
    let built = Scan::build(vec![api_key_rule(), Rule::new()], Allowlist::new()).unwrap();
    let commits = vec![commit_with("config.py", CONFIG_PY), commit_with("b.txt", "token here\npassword=1\n")];
    let first = scan_commits(&built, &commits);
    let second = scan_commits(&built, &commits);
    assert_eq!(format!("{:?}", first), format!("{:?}", second));
    assert_eq!(first.commits_number, 2);
    assert_eq!(first.outputs.len(), 5);
}

#[test]
fn invalid_regex_is_refused() {
    let mut rule = api_key_rule();
    rule.regex = String::from("foo(bar");
    match scan(vec![rule], Allowlist::new(), &Vec::new()) {
        Err(ConfigError::InvalidRegex { pattern }) => assert_eq!(pattern, "foo(bar"),
        other => panic!("unexpected: {:?}", other),
    }
}

#[test]
fn duplicate_rule_id_is_refused() {
    let first = api_key_rule();
    let mut second = Rule::new();
    second.id = String::from("generic-api-key");
    match Scan::build(vec![first, Rule::new(), second], Allowlist::new()) {
        Err(ConfigError::DuplicateRuleId { id }) => assert_eq!(id, "generic-api-key"),
        other => panic!("unexpected: {:?}", other),
    }
}

#[test]
fn stamp_holds_date_and_tags() {
    let commit = commit_with("config.py", CONFIG_PY);
    let stamp = Stamp::of(&commit);
    assert_eq!(stamp.date, "2023-01-02T15:04:05-07:00");
    assert_eq!(stamp.tags, "v1,stable");
}

#[test]
fn match_passes_both_allowlists_or_none() {
    let mut rule = api_key_rule();
    let mut own = Allowlist::new();
    own.stopwords.push(String::from("abcd"));
    rule.allowlist = Some(own);
    let mut global = Allowlist::new();
    global.regexes.push(String::from("^zz"));
    let built = Scan::build(vec![rule, Rule::new()], global).unwrap();
    let found = |rule: usize, offender: &str| MatchCandidate {
        rule,
        rule_id: String::from("x"),
        offender: String::from(offender),
        line_number: 1,
    };
    let commit = String::from("deadbeef");
    assert!(!built.lets_through(&commit, "a.py", "line", &found(0, "abcd1234")));
    assert!(built.lets_through(&commit, "a.py", "line", &found(1, "abcd1234")));
    assert!(built.lets_through(&commit, "a.py", "line", &found(0, "1234")));
    assert!(!built.lets_through(&commit, "a.py", "line", &found(0, "zz1234")));
    assert!(!built.lets_through(&commit, "a.py", "line", &found(1, "zz1234")));
    assert!(built.lets_through(&commit, "a.py", "line", &found(7, "abcd1234")));
    assert!(!built.lets_through(&commit, "a.py", "line", &found(7, "zz")));
}

#[test]
fn leaks_are_appended_in_the_order_of_the_matches() {
    let built = Scan::build(vec![api_key_rule(), Rule::new()], Allowlist::new()).unwrap();
    let commit = commit_with("config.py", CONFIG_PY);
    let stamp = Stamp::of(&commit);
    let line = "api_key = 'aaaabbbbccccdddd' # token";
    let found = scan_line(line, 3, &built.ruleslist, &built.candidate_rules(line));
    let mut out = vec![make_leak(&commit, &stamp, "first.py", "earlier", &found[0])];
    collect_matches(&built, &commit, &stamp, "config.py", line, &found, &mut out);
    let seen: Vec<(&str, &str, &str, u32)> =
        out.iter().map(|l| (l.file.as_str(), l.rule.as_str(), l.offender.as_str(), l.line_number)).collect();
    assert_eq!(
        seen,
        vec![
            ("first.py", "generic-api-key", "aaaabbbbccccdddd", 3),
            ("config.py", "generic-api-key", "aaaabbbbccccdddd", 3),
            ("config.py", "11", "api", 3),
            ("config.py", "11", "key", 3),
            ("config.py", "11", "token", 3),
        ]
    );
    assert_eq!(out[0].line, "earlier");
    assert_eq!(out[1].line, line);
}

#[test]
fn file_is_scanned_line_by_line() {
    let built = Scan::build(vec![api_key_rule()], Allowlist::new()).unwrap();
    let commit = commit_with("ignored.py", "");
    let stamp = Stamp::of(&commit);
    let mut out = Vec::new();
    let file = (String::from("k.py"), String::from("x\r\napi_key='0123456789abcdef'\r\n\napi_key=\"aaaaaaaaaaaaaaaa\""));
    scan_file(&built, &commit, &stamp, &file, &mut out);
    let seen: Vec<(&str, u32, &str)> = out.iter().map(|l| (l.file.as_str(), l.line_number, l.line.as_str())).collect();
    assert_eq!(
        seen,
        vec![("k.py", 2, "api_key='0123456789abcdef'"), ("k.py", 4, "api_key=\"aaaaaaaaaaaaaaaa\"")]
    );
}

#[test]
fn what_cannot_be_read_is_a_warning_beside_the_results() {
    let built = Scan::build(vec![api_key_rule()], Allowlist::new()).unwrap();
    let mut progress = Progress::new();
    assert_eq!(progress.results.commits_number, 0);
    assert!(progress.results.outputs.is_empty() && progress.warnings.is_empty());

    progress.advance(&built, Step::Visit { commit: commit_with("config.py", CONFIG_PY) });
    assert_eq!(progress.results.commits_number, 1);
    assert_eq!(progress.results.outputs.len(), 1);
    assert!(progress.warnings.is_empty());

    let error = ReadError {
        commit: String::from("c0ffee"),
        path: String::from("big.bin"),
        reason: String::from("object not found"),
    };
    progress.advance(&built, Step::Skip { error });
    assert_eq!(progress.results.commits_number, 1);
    assert_eq!(progress.results.outputs.len(), 1);
    assert_eq!(progress.warnings.len(), 1);
    assert_eq!(progress.warnings[0].commit, "c0ffee");
    assert_eq!(progress.warnings[0].path, "big.bin");
    assert_eq!(progress.warnings[0].reason, "object not found");

    progress.advance(&built, Step::Visit { commit: commit_with("other.py", CONFIG_PY) });
    assert_eq!(progress.results.commits_number, 2);
    assert_eq!(progress.results.outputs.len(), 2);
    assert_eq!(progress.warnings.len(), 1);
}
