use sensleak::collector::join_tags;
use sensleak::dates::{choose_bound, midnight, midnight_if_any, read_bound, text_or_empty};
use sensleak::matcher::{offender, scan_line, scan_rule};
use sensleak::models::{Allowlist, CommitDate, CsvResult, Leak, Results, Rule};
use sensleak::ruleset::Scan;
use sensleak::pattern::{find, is_match, is_valid, Found};
use sensleak::text::{from_chars, split_lines, split_list, split_paths, to_chars};

fn strings(items: &[&str]) -> Vec<String> {
    items.iter().map(|s| s.to_string()).collect()
}

#[test]
fn lines_end_at_line_feeds() {
    assert_eq!(split_lines("a\nb\nc"), strings(&["a", "b", "c"]));
    assert_eq!(split_lines("a\nb\n"), strings(&["a", "b"]));
    assert_eq!(split_lines("a\n\nb"), strings(&["a", "", "b"]));
}

#[test]
fn carriage_return_belongs_to_the_line_ending() {
    assert_eq!(split_lines("a\r\nb\r\n"), strings(&["a", "b"]));
    assert_eq!(split_lines("a\rb\n"), strings(&["a\rb"]));
    assert_eq!(split_lines("a\r\r\n"), strings(&["a\r"]));
}

#[test]
fn last_line_keeps_its_carriage_return() {
    assert_eq!(split_lines("a\nb\r"), strings(&["a", "b\r"]));
}

#[test]
fn empty_text_has_no_line() {
    assert!(split_lines("").is_empty());
    assert_eq!(split_lines("\n"), strings(&[""]));
    assert_eq!(split_lines("\n\n"), strings(&["", ""]));
}

#[test]
fn lines_keep_other_characters() {
    assert_eq!(split_lines("schlüssel = 'ä'\n\ttab"), strings(&["schlüssel = 'ä'", "\ttab"]));
}

#[test]
fn lists_are_cut_at_commas() {
    assert_eq!(split_list("a1,b2,c3"), strings(&["a1", "b2", "c3"]));
    assert_eq!(split_list("a1"), strings(&["a1"]));
    assert_eq!(split_list("a1,"), strings(&["a1"]));
    assert_eq!(split_list("a1,,b2"), strings(&["a1", "", "b2"]));
    assert_eq!(split_list("a1\r,b2"), strings(&["a1\r", "b2"]));
    assert!(split_list("").is_empty());
}

#[test]
fn patterns_are_checked() {
    assert!(is_valid("a+b"));
    assert!(is_valid(""));
    assert!(!is_valid("foo(bar"));
    assert!(!is_valid("[a-"));
}

#[test]
fn patterns_match_anywhere() {
    assert!(is_match("b+", "aabbcc"));
    assert!(!is_match("^b+", "aabbcc"));
    assert!(is_match("(?i)TOKEN", "my token"));
    assert!(!is_match("TOKEN", "my token"));
}

#[test]
fn pattern_that_does_not_compile_matches_nothing() {
    assert!(!is_match("foo(bar", "foo(bar"));
    assert!(find("foo(bar", "foo(bar").is_empty());
}

#[test]
fn matches_come_from_left_to_right() {
    let founds = find("k=([a-z]+)", "k=one k=two;k=three");
    let wholes: Vec<&str> = founds.iter().map(|f| f.whole.as_str()).collect();
    let groups: Vec<Option<&str>> = founds.iter().map(|f| f.group.as_deref()).collect();
    assert_eq!(wholes, vec!["k=one", "k=two", "k=three"]);
    assert_eq!(groups, vec![Some("one"), Some("two"), Some("three")]);
}

#[test]
fn pattern_without_group_has_none() {
    let founds = find("[0-9]+", "a12b345");
    assert_eq!(founds.len(), 2);
    assert_eq!(founds[0].whole, "12");
    assert_eq!(founds[0].group, None);
    assert_eq!(founds[1].whole, "345");
}

#[test]
fn secret_is_the_group_where_it_took_part() {
    let with_group = Found { whole: String::from("key=abc"), group: Some(String::from("abc")) };
    let without = Found { whole: String::from("key=abc"), group: None };
    assert_eq!(offender(&with_group), "abc");
    assert_eq!(offender(&without), "key=abc");
    let founds = find("x|(y)", "xy");
    assert_eq!(founds.len(), 2);
    assert_eq!(offender(&founds[0]), "x");
    assert_eq!(offender(&founds[1]), "y");
}

fn rule(id: &str, regex: &str, keywords: &[&str]) -> Rule {
    Rule {
        description: String::new(),
        id: String::from(id),
        regex: String::from(regex),
        keywords: strings(keywords),
        allowlist: None,
    }
}

#[test]
fn line_is_scanned_rule_after_rule() {
    let rules = vec![rule("digits", "[0-9]+", &[]), rule("word", "pw=(\\w+)", &[]), rule("never", "zzz", &[])];
    let found = scan_line("pw=a1 77 pw=b2", 9, &rules, &vec![0, 1, 2]);
    let seen: Vec<(usize, &str, &str, u32)> =
        found.iter().map(|m| (m.rule, m.rule_id.as_str(), m.offender.as_str(), m.line_number)).collect();
    assert_eq!(
        seen,
        vec![
            (0, "digits", "1", 9),
            (0, "digits", "77", 9),
            (0, "digits", "2", 9),
            (1, "word", "a1", 9),
            (1, "word", "b2", 9),
        ]
    );
}

#[test]
fn candidates_decide_what_is_tried() {
    let rules = vec![rule("digits", "[0-9]+", &[]), rule("word", "pw=(\\w+)", &[])];
    let found = scan_line("pw=a1", 1, &rules, &vec![1]);
    assert_eq!(found.len(), 1);
    assert_eq!(found[0].rule, 1);
    let found = scan_line("pw=a1", 1, &rules, &vec![1, 0, 1]);
    let order: Vec<usize> = found.iter().map(|m| m.rule).collect();
    assert_eq!(order, vec![1, 0, 1]);
    assert!(scan_line("pw=a1", 1, &rules, &Vec::new()).is_empty());
}

#[test]
fn position_without_rule_gives_nothing() {
    let rules = vec![rule("digits", "[0-9]+", &[])];
    assert!(scan_rule("123", 1, &rules, 1).is_empty());
    assert_eq!(scan_line("123", 1, &rules, &vec![5, 0]).len(), 1);
}

#[test]
fn tags_are_joined_with_commas() {
    assert_eq!(join_tags(&Vec::new()), "");
    assert_eq!(join_tags(&strings(&["v1"])), "v1");
    assert_eq!(join_tags(&strings(&["v1", "v2", "latest"])), "v1,v2,latest");
}

#[test]
fn day_counts_from_midnight_at_offset_zero() {
    assert_eq!(read_bound("2006-01-02"), Some(1_136_160_000));
    assert_eq!(read_bound("1970-01-01"), Some(0));
}

#[test]
fn moment_counts_with_its_offset() {
    assert_eq!(read_bound("2023-01-02T15:04:05-0700"), Some(1_672_697_045));
    assert_eq!(read_bound("2006-10-02T15:04:05+0000"), Some(1_159_801_445));
}

#[test]
fn other_text_is_no_bound() {
    assert_eq!(read_bound(""), None);
    assert_eq!(read_bound("yesterday"), None);
    assert_eq!(read_bound("2006-13-02"), None);
    assert_eq!(read_bound("2006-01-02 15:04:05"), None);
}

#[test]
fn moment_wins_over_day() {
    assert_eq!(choose_bound(Some(5), Some(7)), Some(5));
    assert_eq!(choose_bound(None, Some(7)), Some(7));
    assert_eq!(choose_bound(Some(5), None), Some(5));
    assert_eq!(choose_bound(None, None), None);
}

#[test]
fn dates_are_written_with_their_offset() {
    assert_eq!(CommitDate { seconds: 0, offset: 0 }.text(), "1970-01-01T00:00:00+00:00");
    assert_eq!(CommitDate { seconds: 1_672_697_045, offset: -25_200 }.text(), "2023-01-02T15:04:05-07:00");
    assert_eq!(CommitDate { seconds: 1_672_697_045, offset: 3_600 }.text(), "2023-01-02T23:04:05+01:00");
}

#[test]
fn date_that_chrono_lacks_is_empty() {
    assert_eq!(CommitDate { seconds: 0, offset: 86_400 }.text(), "");
    assert_eq!(CommitDate { seconds: i64::MAX, offset: 0 }.text(), "");
    assert_eq!(text_or_empty(None), "");
    assert_eq!(text_or_empty(Some(String::from("x"))), "x");
}

#[test]
fn new_values_are_as_documented() {
    let rule = Rule::new();
    assert_eq!(rule.description, "11");
    assert_eq!(rule.id, "11");
    assert_eq!(rule.regex, "(?i)(?:key|api|token|secret|client|passwd|password|auth|access)");
    assert!(rule.keywords.is_empty());
    assert!(rule.allowlist.is_none());
    let rule = Rule::default();
    assert_eq!(rule.id, "11");

    let allowlist = Allowlist::new();
    assert!(allowlist.paths.is_empty());
    assert!(allowlist.commits.is_empty());
    assert_eq!(allowlist.regex_target, "match");
    assert!(allowlist.regexes.is_empty());
    assert!(allowlist.stopwords.is_empty());
    assert_eq!(Allowlist::default().regex_target, "match");

    let results = Results::new();
    assert_eq!(results.commits_number, 0);
    assert!(results.outputs.is_empty());
    assert_eq!(Results::default().commits_number, 0);
}

#[test]
fn default_scan_has_no_rules() {
    let scan = Scan::default();
    assert!(scan.ruleslist.is_empty());
    assert!(scan.allowlist.paths.is_empty() && scan.allowlist.stopwords.is_empty());
    assert!(scan.keywords.is_empty());
    assert!(scan.index.rules.is_empty() && scan.index.always.is_empty());
    let scan = Scan::new();
    assert!(scan.ruleslist.is_empty() && scan.keywords.is_empty());
    assert!(scan.index.rules.is_empty() && scan.index.always.is_empty());
    assert_eq!(scan.allowlist.regex_target, "match");
}

#[test]
fn row_is_the_leak_without_tags_and_operation() {
    let leak = Leak {
        line: String::from("pw=1"),
        line_number: 7,
        offender: String::from("1"),
        commit: String::from("c1"),
        repo: String::from("demo"),
        rule: String::from("pw"),
        commit_message: String::from("msg"),
        author: String::from("Ada"),
        email: String::from("ada@example.org"),
        file: String::from("a.txt"),
        date: String::from("1970-01-01T00:00:00+00:00"),
        tags: String::from("v1"),
        operation: String::from("addition"),
    };
    let row = CsvResult::of(&leak);
    assert_eq!(row.line, "pw=1");
    assert_eq!(row.line_number, 7);
    assert_eq!(row.offender, "1");
    assert_eq!(row.commit, "c1");
    assert_eq!(row.repo, "demo");
    assert_eq!(row.rule, "pw");
    assert_eq!(row.commit_message, "msg");
    assert_eq!(row.author, "Ada");
    assert_eq!(row.email, "ada@example.org");
    assert_eq!(row.file, "a.txt");
    assert_eq!(row.date, "1970-01-01T00:00:00+00:00");
}

#[test]
fn dates_at_the_ends_are_written_or_empty() {
    let ends = [i64::MIN, -8_334_601_228_800, -8_334_601_228_801, -1, 8_210_266_876_799, 8_210_266_876_800, i64::MAX];
    let offsets = [i32::MIN, -86_400, -86_399, 0, 86_399, 86_400, i32::MAX];
    for seconds in ends {
        for offset in offsets {
            let text = CommitDate { seconds, offset }.text();
            assert!(text.is_empty() || text.contains('T'));
        }
    }
    assert_eq!(CommitDate { seconds: -1, offset: 0 }.text(), "1969-12-31T23:59:59+00:00");
    assert_eq!(CommitDate { seconds: 0, offset: 86_340 }.text(), "1970-01-01T23:59:00+23:59");
}

#[test]
fn characters_go_to_text_and_back() {
    assert_eq!(to_chars("aß\n€"), vec!['a', 'ß', '\n', '€']);
    assert!(to_chars("").is_empty());
    assert_eq!(from_chars(&vec!['k', 'é', 'y']), "kéy");
    assert_eq!(from_chars(&Vec::new()), "");
    assert_eq!(from_chars(&to_chars("pässwörd = 'x'")), "pässwörd = 'x'");
}

#[test]
fn midnight_is_the_first_second_of_the_day() {
    assert_eq!(midnight(719_163), 0);
    assert_eq!(midnight(719_164), 86_400);
    assert_eq!(midnight(719_162), -86_400);
    assert_eq!(midnight(732_313), 1_136_160_000);
    assert_eq!(midnight(1), -62_135_596_800);
    assert_eq!(midnight(i32::MAX), (i32::MAX as i64 - 719_163) * 86_400);
    assert_eq!(midnight(i32::MIN), (i32::MIN as i64 - 719_163) * 86_400);
    assert_eq!(midnight_if_any(Some(719_165)), Some(172_800));
    assert_eq!(midnight_if_any(None), None);
}

#[test]
fn day_is_read_whatever_its_year() {
    assert_eq!(read_bound("0001-01-01"), Some(-62_135_596_800));
    assert_eq!(read_bound("1969-12-31"), Some(-86_400));
    assert_eq!(read_bound("2024-02-29"), Some(1_709_164_800));
    assert_eq!(read_bound("2023-02-29"), None);
}

#[test]
fn paths_are_cut_at_slashes() {
    assert_eq!(split_paths("/home/ada/demo"), strings(&["", "home", "ada", "demo"]));
    assert_eq!(split_paths("demo/"), strings(&["demo"]));
    assert!(split_paths("").is_empty());
}
