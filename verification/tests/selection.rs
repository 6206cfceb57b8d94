use sensleak::models::{CommitDate, CommitInfo, Config};
use sensleak::plan::{choose_selection, choose_user, repo_name, wants_working_tree};
use sensleak::walker::{
    find_position, keep_by_user, resolve_selection, select_commits, ResolutionError, Revision, Selection,
};

fn revision(id: &str, author: &str, seconds: i64) -> Revision {
    Revision {
        id: String::from(id),
        author: String::from(author),
        email: format!("{}@example.org", author),
        date: CommitDate { seconds, offset: 0 },
    }
}

fn history() -> Vec<Revision> {
    vec![
        revision("e5", "ada", 500),
        revision("d4", "bob", 400),
        revision("c3", "ada", 300),
        revision("b2", "bob", 200),
        revision("a1", "ada", 100),
    ]
}

fn single(id: &str) -> Selection {
    Selection::Single { id: String::from(id) }
}

fn range(from: Option<&str>, to: Option<&str>) -> Selection {
    Selection::Range { from: from.map(String::from), to: to.map(String::from) }
}

fn picked(selection: Selection) -> Vec<usize> {
    select_commits(&history(), &selection, &None).unwrap()
}

#[test]
fn latest_is_the_tip() {
    assert_eq!(picked(Selection::Latest), vec![0]);
    assert!(matches!(
        select_commits(&Vec::new(), &Selection::Latest, &None),
        Err(ResolutionError::NoCommit)
    ));
}

#[test]
fn single_commit_by_id() {
    assert_eq!(picked(single("c3")), vec![2]);
    match select_commits(&history(), &single("zz"), &None) {
        Err(ResolutionError::UnknownCommit { id }) => assert_eq!(id, "zz"),
        other => panic!("unexpected: {:?}", other),
    }
    assert_eq!(find_position(&history(), &String::from("a1")), Some(4));
    assert_eq!(find_position(&history(), &String::from("A1")), None);
}

#[test]
fn listed_commits_in_their_order() {
    let ids = vec![String::from("b2"), String::from("e5"), String::from("b2")];
    assert_eq!(picked(Selection::List { ids }), vec![3, 0, 3]);
    assert!(picked(Selection::List { ids: Vec::new() }).is_empty());
    let ids = vec![String::from("b2"), String::from("x"), String::from("y")];
    match select_commits(&history(), &Selection::List { ids }, &None) {
        Err(ResolutionError::UnknownCommit { id }) => assert_eq!(id, "x"),
        other => panic!("unexpected: {:?}", other),
    }
}

#[test]
fn bounds_by_date_include_their_second() {
    assert_eq!(picked(Selection::Dated { since: Some(200), until: Some(400) }), vec![1, 2, 3]);
    assert_eq!(picked(Selection::Dated { since: Some(201), until: Some(399) }), vec![2]);
    assert_eq!(picked(Selection::Dated { since: Some(300), until: None }), vec![0, 1, 2]);
    assert_eq!(picked(Selection::Dated { since: None, until: Some(100) }), vec![4]);
    assert_eq!(picked(Selection::Dated { since: None, until: None }), vec![0, 1, 2, 3, 4]);
    assert!(picked(Selection::Dated { since: Some(400), until: Some(200) }).is_empty());
}

#[test]
fn range_visits_its_start_and_not_its_end() {
    assert_eq!(picked(range(Some("d4"), Some("b2"))), vec![1, 2]);
    assert_eq!(picked(range(Some("e5"), Some("a1"))), vec![0, 1, 2, 3]);
    assert!(picked(range(Some("c3"), Some("c3"))).is_empty());
    assert_eq!(picked(range(None, Some("c3"))), vec![0, 1]);
    assert_eq!(picked(range(Some("c3"), None)), vec![2, 3, 4]);
    assert_eq!(picked(range(None, None)), vec![0, 1, 2, 3, 4]);
}

#[test]
fn range_whose_end_is_not_behind_its_start_is_an_error() {
    match select_commits(&history(), &range(Some("b2"), Some("d4")), &None) {
        Err(ResolutionError::Unreachable { from, to }) => {
            assert_eq!(from, "b2");
            assert_eq!(to, "d4");
        },
        other => panic!("unexpected: {:?}", other),
    }
}

#[test]
fn range_with_an_unknown_commit_is_an_error() {
    match select_commits(&history(), &range(Some("zz"), Some("yy")), &None) {
        Err(ResolutionError::UnknownCommit { id }) => assert_eq!(id, "zz"),
        other => panic!("unexpected: {:?}", other),
    }
    match select_commits(&history(), &range(Some("b2"), Some("yy")), &None) {
        Err(ResolutionError::UnknownCommit { id }) => assert_eq!(id, "yy"),
        other => panic!("unexpected: {:?}", other),
    }
    match select_commits(&history(), &range(None, Some("yy")), &None) {
        Err(ResolutionError::UnknownCommit { id }) => assert_eq!(id, "yy"),
        other => panic!("unexpected: {:?}", other),
    }
}

#[test]
fn branch_and_all_visit_every_commit() {
    assert_eq!(picked(Selection::All), vec![0, 1, 2, 3, 4]);
    assert_eq!(picked(Selection::Branch { name: String::from("main") }), vec![0, 1, 2, 3, 4]);
    assert!(select_commits(&Vec::new(), &Selection::All, &None).unwrap().is_empty());
    assert!(picked(Selection::Uncommitted).is_empty());
}

#[test]
fn user_narrows_a_selection() {
    let ada = Some(String::from("ada"));
    let bob_mail = Some(String::from("bob@example.org"));
    let nobody = Some(String::from("eve"));
    assert_eq!(select_commits(&history(), &Selection::All, &ada).unwrap(), vec![0, 2, 4]);
    assert_eq!(select_commits(&history(), &Selection::All, &bob_mail).unwrap(), vec![1, 3]);
    assert!(select_commits(&history(), &Selection::All, &nobody).unwrap().is_empty());
    assert!(select_commits(&history(), &single("d4"), &ada).unwrap().is_empty());
    assert_eq!(select_commits(&history(), &range(Some("d4"), Some("a1")), &ada).unwrap(), vec![2]);
    assert!(matches!(
        select_commits(&history(), &single("zz"), &ada),
        Err(ResolutionError::UnknownCommit { .. })
    ));
    assert_eq!(keep_by_user(&history(), &vec![4, 9, 1, 4], &String::from("ada")), vec![4, 4]);
    assert_eq!(resolve_selection(&history(), &single("d4")).unwrap(), vec![1]);
}

fn config() -> Config {
    Config {
        repo: String::from("."),
        config: String::from("gitleaks.toml"),
        report: String::new(),
        report_format: String::from("json"),
        verbose: false,
        pretty: false,
        commit: None,
        commits: None,
        commits_file: None,
        commit_since: None,
        commit_until: None,
        commit_from: None,
        commit_to: None,
        branch: None,
        uncommitted: None,
        user: Some(String::new()),
        repo_config: false,
        debug: false,
        disk: None,
    }
}

#[test]
fn no_option_selects_all() {
    assert!(matches!(choose_selection(&config(), &None), Ok(Selection::All)));
    let mut c = config();
    c.uncommitted = Some(false);
    assert!(matches!(choose_selection(&c, &None), Ok(Selection::All)));
}

#[test]
fn options_select_one_way() {
    let mut c = config();
    c.branch = Some(String::from("dev"));
    assert!(matches!(choose_selection(&c, &None), Ok(Selection::Branch { name }) if name == "dev"));
    c.commit_to = Some(String::from("a1"));
    assert!(matches!(
        choose_selection(&c, &None),
        Ok(Selection::Range { from: None, to: Some(to) }) if to == "a1"
    ));
    c.commit_since = Some(String::from("2006-01-02"));
    assert!(matches!(
        choose_selection(&c, &None),
        Ok(Selection::Dated { since: Some(1_136_160_000), until: None })
    ));
    c.commit_until = Some(String::from("2023-01-02T15:04:05-0700"));
    assert!(matches!(
        choose_selection(&c, &None),
        Ok(Selection::Dated { since: Some(1_136_160_000), until: Some(1_672_697_045) })
    ));
    c.commits_file = Some(String::from("ids.txt"));
    let file = Some(String::from("a1\r\nc3\n"));
    assert!(matches!(
        choose_selection(&c, &file),
        Ok(Selection::List { ids }) if ids == vec!["a1", "c3"]
    ));
    assert!(matches!(choose_selection(&c, &None), Ok(Selection::List { ids }) if ids.is_empty()));
    c.commits = Some(String::from("b2,d4"));
    assert!(matches!(
        choose_selection(&c, &file),
        Ok(Selection::List { ids }) if ids == vec!["b2", "d4"]
    ));
    c.commit = Some(String::from("e5"));
    assert!(matches!(choose_selection(&c, &file), Ok(Selection::Single { id }) if id == "e5"));
    c.commit = Some(String::from("latest"));
    assert!(matches!(choose_selection(&c, &file), Ok(Selection::Latest)));
    c.uncommitted = Some(true);
    assert!(matches!(choose_selection(&c, &file), Ok(Selection::Uncommitted)));
}

#[test]
fn text_that_is_no_date_is_an_error() {
    let mut c = config();
    c.commit_since = Some(String::from("2006-01-02"));
    c.commit_until = Some(String::from("soon"));
    match choose_selection(&c, &None) {
        Err(ResolutionError::BadDate { text }) => assert_eq!(text, "soon"),
        other => panic!("unexpected: {:?}", other),
    }
    c.commit_since = Some(String::from("once"));
    match choose_selection(&c, &None) {
        Err(ResolutionError::BadDate { text }) => assert_eq!(text, "once"),
        other => panic!("unexpected: {:?}", other),
    }
}

#[test]
fn empty_user_is_no_user() {
    assert_eq!(choose_user(&config()), None);
    let mut c = config();
    c.user = None;
    assert_eq!(choose_user(&c), None);
    c.user = Some(String::from("ada"));
    assert_eq!(choose_user(&c), Some(String::from("ada")));
}

#[test]
fn working_tree_stands_as_one_commit() {
    let files = vec![(String::from("a.txt"), String::from("password"))];
    let commit = CommitInfo::uncommitted(String::from("demo"), files.clone());
    assert_eq!(commit.repo, "demo");
    assert_eq!(commit.operation, "uncommitted");
    assert_eq!(commit.files, files);
    assert!(commit.commit.is_empty() && commit.author.is_empty() && commit.email.is_empty());
    assert!(commit.commit_message.is_empty() && commit.tags.is_empty());
    assert_eq!(commit.date.seconds, 0);
    assert_eq!(commit.date.offset, 0);
}

#[test]
fn errors_say_what_they_are_about() {
    assert_eq!(ResolutionError::NoCommit.message(), "the history has no commit");
    assert_eq!(
        ResolutionError::UnknownCommit { id: String::from("zz") }.message(),
        "the history has no commit `zz`"
    );
    assert_eq!(
        ResolutionError::Unreachable { from: String::from("b2"), to: String::from("d4") }.message(),
        "the commit `d4` is not behind the commit `b2`"
    );
    assert_eq!(ResolutionError::BadDate { text: String::from("soon") }.message(), "`soon` is no date");
}

#[test]
fn repository_is_named_by_the_last_part_of_its_path() {
    assert_eq!(repo_name("/home/ada/demo"), "demo");
    assert_eq!(repo_name("/home/ada/demo/"), "demo");
    assert_eq!(repo_name("demo"), "demo");
    assert_eq!(repo_name("."), ".");
    assert_eq!(repo_name("a/b//"), "");
    assert_eq!(repo_name("/"), "");
    assert_eq!(repo_name(""), "");
}

#[test]
fn user_narrows_the_working_tree_away() {
    assert!(wants_working_tree(&Selection::Uncommitted, &None));
    assert!(wants_working_tree(&Selection::Uncommitted, &Some(String::new())));
    assert!(!wants_working_tree(&Selection::Uncommitted, &Some(String::from("ada"))));
    assert!(!wants_working_tree(&Selection::All, &None));
    assert!(!wants_working_tree(&Selection::Latest, &None));
}
