//! From the options of a run to the selection of commits.
//!
//! The options name at most one way to select commits. Where several are
//! set, the first of these decides: uncommitted changes, one commit, a list
//! of commits, a file with a list of commits, bounds by date, a range of
//! commits, a branch. Where none is set, all commits are selected.

use vstd::prelude::*;
use crate::dates::{bound_of, midnight_of, moment_of, read_bound, seconds_of};
use crate::models::{CommitDate, CommitInfo, CommitView, Config};
use crate::text::{items_of, lines_of, pieces_of, split_lines, split_list, split_paths, texts};
use crate::walker::{ResolutionError, Selection, SelectionView, optional_text};

verus! {

/// The bound that a text stands for: none where there is no text, and the
/// text itself as an error where it is no date.
pub open spec fn bound_from(text: Option<Seq<char>>) -> Result<Option<int>, Seq<char>> {
    match text {
        None => Ok(None),
        Some(t) => match bound_of(moment_of(t), midnight_of(t)) {
            Some(seconds) => Ok(Some(seconds)),
            None => Err(t),
        },
    }
}

/// The selection by date that two texts stand for.
pub open spec fn dated_from(since: Option<Seq<char>>, until: Option<Seq<char>>) -> Result<
    SelectionView,
    Seq<char>,
> {
    match bound_from(since) {
        Err(t) => Err(t),
        Ok(lower) => match bound_from(until) {
            Err(t) => Err(t),
            Ok(upper) => Ok(SelectionView::Dated { since: lower, until: upper }),
        },
    }
}

/// The ids that a file of commits names: one on each line.
pub open spec fn ids_from(file: Option<Seq<char>>) -> Seq<Seq<char>> {
    match file {
        Some(content) => lines_of(content),
        None => Seq::empty(),
    }
}

/// The selection that the options name, or the text that is no date. `file`
/// is the content of the file of commits, where the options name one.
pub open spec fn planned(config: Config, file: Option<Seq<char>>) -> Result<SelectionView, Seq<char>> {
    if config.uncommitted == Some(true) {
        Ok(SelectionView::Uncommitted)
    } else if config.commit.is_some() {
        if config.commit->0@ == "latest"@ {
            Ok(SelectionView::Latest)
        } else {
            Ok(SelectionView::Single { id: config.commit->0@ })
        }
    } else if config.commits.is_some() {
        Ok(SelectionView::List { ids: items_of(config.commits->0@) })
    } else if config.commits_file.is_some() {
        Ok(SelectionView::List { ids: ids_from(file) })
    } else if config.commit_since.is_some() || config.commit_until.is_some() {
        dated_from(optional_text(config.commit_since), optional_text(config.commit_until))
    } else if config.commit_from.is_some() || config.commit_to.is_some() {
        Ok(
            SelectionView::Range {
                from: optional_text(config.commit_from),
                to: optional_text(config.commit_to),
            },
        )
    } else if config.branch.is_some() {
        Ok(SelectionView::Branch { name: config.branch->0@ })
    } else {
        Ok(SelectionView::All)
    }
}

/// The user that the options name: none where the name is empty.
pub open spec fn planned_user(config: Config) -> Option<Seq<char>> {
    match config.user {
        Some(name) => if name@.len() == 0 {
            None
        } else {
            Some(name@)
        },
        None => None,
    }
}

/// Reads a bound by date where there is one.
fn read_optional_bound(text: &Option<String>) -> (outcome: Result<Option<i64>, ResolutionError>)
    ensures
        match bound_from(optional_text(*text)) {
            Ok(bound) => outcome matches Ok(b) && seconds_of(b) == bound,
            Err(t) => outcome matches Err(ResolutionError::BadDate { text: bad }) && bad@ == t,
        },
{
    match text {
        None => Ok(None),
        Some(t) => match read_bound(t.as_str()) {
            Some(seconds) => Ok(Some(seconds)),
            None => Err(ResolutionError::BadDate { text: t.clone() }),
        },
    }
}

/// A copy of an optional string.
fn copy_optional(text: &Option<String>) -> (copy: Option<String>)
    ensures
        optional_text(copy) == optional_text(*text),
{
    match text {
        Some(t) => Some(t.clone()),
        None => None,
    }
}

/// The selection that the options name. `file` is the content of the file of
/// commits, where the options name one. A bound by date that is no date is
/// an error.
pub fn choose_selection(config: &Config, file: &Option<String>) -> (outcome: Result<Selection, ResolutionError>)
    ensures
        match planned(*config, optional_text(*file)) {
            Ok(selection) => outcome matches Ok(s) && s@ == selection,
            Err(t) => outcome matches Err(ResolutionError::BadDate { text: bad }) && bad@ == t,
        },
{
    if let Some(true) = config.uncommitted {
        return Ok(Selection::Uncommitted);
    }
    if let Some(id) = &config.commit {
        let latest = "latest".to_owned();
        if *id == latest {
            return Ok(Selection::Latest);
        }
        return Ok(Selection::Single { id: id.clone() });
    }
    if let Some(list) = &config.commits {
        return Ok(Selection::List { ids: split_list(list.as_str()) });
    }
    if config.commits_file.is_some() {
        let ids = match file {
            Some(content) => split_lines(content.as_str()),
            None => {
                let none: Vec<String> = Vec::new();
                assert(texts(none@) =~= Seq::<Seq<char>>::empty());
                none
            },
        };
        return Ok(Selection::List { ids });
    }
    if config.commit_since.is_some() || config.commit_until.is_some() {
        let since = match read_optional_bound(&config.commit_since) {
            Ok(bound) => bound,
            Err(e) => {
                return Err(e);
            },
        };
        let until = match read_optional_bound(&config.commit_until) {
            Ok(bound) => bound,
            Err(e) => {
                return Err(e);
            },
        };
        return Ok(Selection::Dated { since, until });
    }
    if config.commit_from.is_some() || config.commit_to.is_some() {
        return Ok(
            Selection::Range { from: copy_optional(&config.commit_from), to: copy_optional(&config.commit_to) },
        );
    }
    if let Some(name) = &config.branch {
        return Ok(Selection::Branch { name: name.clone() });
    }
    Ok(Selection::All)
}

/// The user that the options name: none where the name is empty.
pub fn choose_user(config: &Config) -> (user: Option<String>)
    ensures
        optional_text(user) == planned_user(*config),
{
    match &config.user {
        Some(name) => {
            let empty = String::new();
            if *name == empty {
                None
            } else {
                assert(name@.len() > 0) by {
                    if name@.len() == 0 {
                        assert(name@ =~= Seq::<char>::empty());
                    }
                }
                Some(name.clone())
            }
        },
        None => None,
    }
}

/// The name of the repository at a path: the last part of the path, cut at
/// slashes; empty where the path has no part.
pub open spec fn name_in(path: Seq<char>) -> Seq<char> {
    let parts = pieces_of(path, '/', false);
    if parts.len() > 0 {
        parts.last()
    } else {
        Seq::empty()
    }
}

/// The name of the repository at a path.
pub fn repo_name(path: &str) -> (name: String)
    ensures
        name@ == name_in(path@),
{
    let parts = split_paths(path);
    if parts.len() > 0 {
        assert(texts(parts@).last() == parts[parts.len() - 1]@);
        parts[parts.len() - 1].clone()
    } else {
        String::new()
    }
}

/// The working tree is scanned: the selection asks for it, and no user
/// narrows it away. The changes of the working tree have no author yet:
/// their author's name and email address are empty, and only a user whose
/// name is empty is their author.
pub open spec fn working_tree_wanted(selection: SelectionView, user: Option<Seq<char>>) -> bool {
    selection is Uncommitted && match user {
        Some(name) => name.len() == 0,
        None => true,
    }
}

/// Whether the working tree is scanned.
pub fn wants_working_tree(selection: &Selection, user: &Option<String>) -> (wanted: bool)
    ensures
        wanted == working_tree_wanted(selection@, optional_text(*user)),
{
    match selection {
        Selection::Uncommitted => match user {
            Some(name) => {
                let empty = String::new();
                assert(name@.len() == 0 <==> name@ == empty@) by {
                    if name@.len() == 0 {
                        assert(name@ =~= empty@);
                    }
                }
                *name == empty
            },
            None => true,
        },
        _ => false,
    }
}

/// The commit that stands for the changes of the working tree.
pub open spec fn working_tree_commit(commit: CommitView) -> bool {
    &&& commit.commit.len() == 0
    &&& commit.author.len() == 0
    &&& commit.email.len() == 0
    &&& commit.commit_message.len() == 0
    &&& commit.date == CommitDate { seconds: 0, offset: 0 }
    &&& commit.tags.len() == 0
    &&& commit.operation == "uncommitted"@
}

impl CommitInfo {
    /// The commit that stands for the changes of the working tree: these
    /// files in this repository, marked as uncommitted, and nothing else.
    pub fn uncommitted(repo: String, files: Vec<(String, String)>) -> (commit: CommitInfo)
        ensures
            working_tree_commit(commit@),
            commit@.repo == repo@,
            commit.files == files,
    {
        CommitInfo {
            repo,
            commit: String::new(),
            author: String::new(),
            email: String::new(),
            commit_message: String::new(),
            date: CommitDate { seconds: 0, offset: 0 },
            files,
            tags: Vec::new(),
            operation: "uncommitted".to_owned(),
        }
    }
}

} // verus!
