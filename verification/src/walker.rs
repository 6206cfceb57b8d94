//! Which commits of a history a scan visits.
//!
//! A history is the line of commits behind a tip, the tip first and each
//! commit followed by its first parent. A selection picks positions in it:
//! the tip, one commit or a list of commits by id, the commits between two
//! dates, the commits from one commit back to another, or all of them; and
//! a user narrows any of these to the commits of one author.
//!
//! A range starts at `from` and follows the parents until it reaches `to`:
//! `from` is visited, `to` is not. A bound by date includes the commits made
//! at that very second.

use vstd::prelude::*;
use vstd::string::StringExecFns;
use crate::models::CommitDate;
use crate::text::texts;

verus! {

/// What a revision holds, as plain values.
pub struct RevisionView {
    pub id: Seq<char>,
    pub author: Seq<char>,
    pub email: Seq<char>,
    pub seconds: int,
}

/// A commit of a history: what a selection looks at.
#[derive(Debug)]
pub struct Revision {
    /// The id of the commit, in hexadecimal.
    pub id: String,
    /// The name of the author.
    pub author: String,
    /// The email address of the author.
    pub email: String,
    /// The date.
    pub date: CommitDate,
}

impl View for Revision {
    type V = RevisionView;

    open spec fn view(&self) -> RevisionView {
        RevisionView { id: self.id@, author: self.author@, email: self.email@, seconds: self.date.seconds as int }
    }
}

/// The values of a sequence of revisions.
pub open spec fn revision_views(history: Seq<Revision>) -> Seq<RevisionView> {
    Seq::new(history.len(), |i: int| history[i]@)
}

/// What a selection holds, as plain values.
pub enum SelectionView {
    Latest,
    Single { id: Seq<char> },
    List { ids: Seq<Seq<char>> },
    Dated { since: Option<int>, until: Option<int> },
    Range { from: Option<Seq<char>>, to: Option<Seq<char>> },
    Branch { name: Seq<char> },
    All,
    Uncommitted,
}

/// The commits that a scan is asked to visit.
#[derive(Debug)]
pub enum Selection {
    /// The tip of the history.
    Latest,
    /// The commit with this id.
    Single { id: String },
    /// The commits with these ids, in this order.
    List { ids: Vec<String> },
    /// The commits made not before `since` and not after `until`, both in
    /// seconds after 1970-01-01 00:00:00 UTC.
    Dated { since: Option<i64>, until: Option<i64> },
    /// The commits from `from`, or from the tip, back to `to`, or to the
    /// end of the history; `to` itself is not visited.
    Range { from: Option<String>, to: Option<String> },
    /// All commits of the history, which is that of the named branch.
    Branch { name: String },
    /// All commits of the history.
    All,
    /// No commit of the history: the changes of the working tree are
    /// scanned in their place.
    Uncommitted,
}

/// The text of an optional string.
pub open spec fn optional_text(s: Option<String>) -> Option<Seq<char>> {
    match s {
        Some(t) => Some(t@),
        None => None,
    }
}

/// The number of an optional count of seconds.
pub open spec fn optional_seconds(s: Option<i64>) -> Option<int> {
    match s {
        Some(t) => Some(t as int),
        None => None,
    }
}

impl View for Selection {
    type V = SelectionView;

    open spec fn view(&self) -> SelectionView {
        match self {
            Selection::Latest => SelectionView::Latest,
            Selection::Single { id } => SelectionView::Single { id: id@ },
            Selection::List { ids } => SelectionView::List { ids: texts(ids@) },
            Selection::Dated { since, until } => SelectionView::Dated {
                since: optional_seconds(*since),
                until: optional_seconds(*until),
            },
            Selection::Range { from, to } => SelectionView::Range {
                from: optional_text(*from),
                to: optional_text(*to),
            },
            Selection::Branch { name } => SelectionView::Branch { name: name@ },
            Selection::All => SelectionView::All,
            Selection::Uncommitted => SelectionView::Uncommitted,
        }
    }
}

/// Why a selection names no commits.
#[derive(Debug)]
pub enum ResolutionError {
    /// The history has no commit.
    NoCommit,
    /// The history has no commit with this id.
    UnknownCommit { id: String },
    /// The walk from `from` along the parents does not reach `to`.
    Unreachable { from: String, to: String },
    /// The text is no date.
    BadDate { text: String },
}

impl ResolutionError {
    /// What `message` says.
    pub open spec fn message_text(&self) -> Seq<char> {
        match self {
            ResolutionError::NoCommit => "the history has no commit"@,
            ResolutionError::UnknownCommit { id } => "the history has no commit `"@ + id@ + "`"@,
            ResolutionError::Unreachable { from, to } => "the commit `"@ + to@ + "` is not behind the commit `"@
                + from@ + "`"@,
            ResolutionError::BadDate { text } => "`"@ + text@ + "` is no date"@,
        }
    }

    /// The error in words, with the commit or the text that it is about.
    pub fn message(&self) -> (text: String)
        ensures
            text@ == self.message_text(),
    {
        match self {
            ResolutionError::NoCommit => "the history has no commit".to_owned(),
            ResolutionError::UnknownCommit { id } => {
                let mut text = "the history has no commit `".to_owned();
                text.append(id.as_str());
                text.append("`");
                text
            },
            ResolutionError::Unreachable { from, to } => {
                let mut text = "the commit `".to_owned();
                text.append(to.as_str());
                text.append("` is not behind the commit `");
                text.append(from.as_str());
                text.append("`");
                text
            },
            ResolutionError::BadDate { text: bad } => {
                let mut text = "`".to_owned();
                text.append(bad.as_str());
                text.append("` is no date");
                text
            },
        }
    }
}

/// What a selection comes to in a history: positions, or the reason why
/// there are none.
pub enum Resolved {
    Positions(Seq<usize>),
    NoCommit,
    UnknownCommit(Seq<char>),
    Unreachable(Seq<char>, Seq<char>),
}

/// The first position below `n` of a commit with this id.
pub open spec fn position_upto(history: Seq<RevisionView>, id: Seq<char>, n: nat) -> Option<int>
    decreases n,
{
    if n == 0 {
        None
    } else {
        match position_upto(history, id, (n - 1) as nat) {
            Some(p) => Some(p),
            None => if history[n - 1].id == id {
                Some(n - 1)
            } else {
                None
            },
        }
    }
}

/// The first position of a commit with this id.
pub open spec fn position_of(history: Seq<RevisionView>, id: Seq<char>) -> Option<int> {
    position_upto(history, id, history.len())
}

/// The positions from `lo` up to, but without, `hi`.
pub open spec fn span(lo: int, hi: int) -> Seq<usize> {
    Seq::new((hi - lo) as nat, |k: int| (lo + k) as usize)
}

/// The moment lies within the bounds that are set.
pub open spec fn in_bounds(seconds: int, since: Option<int>, until: Option<int>) -> bool {
    &&& since matches Some(s) ==> s <= seconds
    &&& until matches Some(u) ==> seconds <= u
}

/// The positions below `n` of the commits made within the bounds.
pub open spec fn dated_upto(history: Seq<RevisionView>, since: Option<int>, until: Option<int>, n: nat) -> Seq<
    usize,
>
    decreases n,
{
    if n == 0 {
        Seq::empty()
    } else if in_bounds(history[n - 1].seconds, since, until) {
        dated_upto(history, since, until, (n - 1) as nat).push((n - 1) as usize)
    } else {
        dated_upto(history, since, until, (n - 1) as nat)
    }
}

/// The positions of the first `n` ids, or the first of them that the
/// history does not have.
pub open spec fn listed_upto(history: Seq<RevisionView>, ids: Seq<Seq<char>>, n: nat) -> Result<
    Seq<usize>,
    Seq<char>,
>
    decreases n,
{
    if n == 0 {
        Ok(Seq::empty())
    } else {
        match listed_upto(history, ids, (n - 1) as nat) {
            Err(id) => Err(id),
            Ok(found) => match position_of(history, ids[n - 1]) {
                Some(p) => Ok(found.push(p as usize)),
                None => Err(ids[n - 1]),
            },
        }
    }
}

/// Where a range starts: at the tip if no commit is named.
pub open spec fn range_start(history: Seq<RevisionView>, from: Option<Seq<char>>) -> Option<int> {
    match from {
        Some(id) => position_of(history, id),
        None => Some(0),
    }
}

/// Where a range ends: behind the last commit if no commit is named.
pub open spec fn range_end(history: Seq<RevisionView>, to: Option<Seq<char>>) -> Option<int> {
    match to {
        Some(id) => position_of(history, id),
        None => Some(history.len() as int),
    }
}

/// The commits of a range, or why there are none: a commit that the history
/// does not have, `from` before `to`; or a `to` that the walk from `from`
/// does not reach.
pub open spec fn resolve_range(history: Seq<RevisionView>, from: Option<Seq<char>>, to: Option<Seq<char>>) -> Resolved {
    match range_start(history, from) {
        None => Resolved::UnknownCommit(from->0),
        Some(lo) => match range_end(history, to) {
            None => Resolved::UnknownCommit(to->0),
            Some(hi) => if lo <= hi {
                Resolved::Positions(span(lo, hi))
            } else {
                Resolved::Unreachable(from->0, to->0)
            },
        },
    }
}

/// What a selection comes to in a history, before a user narrows it.
pub open spec fn resolve(history: Seq<RevisionView>, selection: SelectionView) -> Resolved {
    match selection {
        SelectionView::Latest => if history.len() == 0 {
            Resolved::NoCommit
        } else {
            Resolved::Positions(seq![0usize])
        },
        SelectionView::Single { id } => match position_of(history, id) {
            Some(p) => Resolved::Positions(seq![p as usize]),
            None => Resolved::UnknownCommit(id),
        },
        SelectionView::List { ids } => match listed_upto(history, ids, ids.len()) {
            Ok(found) => Resolved::Positions(found),
            Err(id) => Resolved::UnknownCommit(id),
        },
        SelectionView::Dated { since, until } => Resolved::Positions(
            dated_upto(history, since, until, history.len()),
        ),
        SelectionView::Range { from, to } => resolve_range(history, from, to),
        SelectionView::Branch { name } => Resolved::Positions(span(0, history.len() as int)),
        SelectionView::All => Resolved::Positions(span(0, history.len() as int)),
        SelectionView::Uncommitted => Resolved::Positions(Seq::empty()),
    }
}

/// The commit at `p` is by this user: the user is the name or the email
/// address of its author.
pub open spec fn is_by(history: Seq<RevisionView>, p: int, user: Seq<char>) -> bool {
    0 <= p < history.len() && (history[p].author == user || history[p].email == user)
}

/// Those of the first `n` positions whose commit is by the user.
pub open spec fn kept_upto(history: Seq<RevisionView>, positions: Seq<usize>, user: Seq<char>, n: nat) -> Seq<
    usize,
>
    decreases n,
{
    if n == 0 {
        Seq::empty()
    } else if is_by(history, positions[n - 1] as int, user) {
        kept_upto(history, positions, user, (n - 1) as nat).push(positions[n - 1])
    } else {
        kept_upto(history, positions, user, (n - 1) as nat)
    }
}

/// What a selection comes to in a history for a user, if one is named.
pub open spec fn select(history: Seq<RevisionView>, selection: SelectionView, user: Option<Seq<char>>) -> Resolved {
    match resolve(history, selection) {
        Resolved::Positions(found) => match user {
            Some(u) => Resolved::Positions(kept_upto(history, found, u, found.len())),
            None => Resolved::Positions(found),
        },
        other => other,
    }
}

/// Every position is one of a history of `n` commits.
pub open spec fn all_below(found: Seq<usize>, n: nat) -> bool {
    forall|i: int| 0 <= i < found.len() ==> (#[trigger] found[i]) < n
}

/// The positions that an outcome holds are positions of the history.
pub open spec fn stays_within(outcome: Result<Vec<usize>, ResolutionError>, n: nat) -> bool {
    outcome matches Ok(v) ==> all_below(v@, n)
}

/// The outcome says what the selection comes to.
pub open spec fn answers(outcome: Result<Vec<usize>, ResolutionError>, resolved: Resolved) -> bool {
    match resolved {
        Resolved::Positions(found) => outcome matches Ok(v) && v@ == found,
        Resolved::NoCommit => outcome matches Err(ResolutionError::NoCommit),
        Resolved::UnknownCommit(id) => outcome matches Err(ResolutionError::UnknownCommit { id: named })
            && named@ == id,
        Resolved::Unreachable(from, to) => outcome matches Err(
            ResolutionError::Unreachable { from: start, to: end },
        ) && start@ == from && end@ == to,
    }
}

proof fn lemma_position_stays(history: Seq<RevisionView>, id: Seq<char>, k: nat, n: nat)
    requires
        k <= n,
        position_upto(history, id, k).is_some(),
    ensures
        position_upto(history, id, n) == position_upto(history, id, k),
    decreases n - k,
{
    if k < n {
        lemma_position_stays(history, id, k + 1, n);
    }
}

proof fn lemma_listed_stays(history: Seq<RevisionView>, ids: Seq<Seq<char>>, k: nat, n: nat)
    requires
        k <= n,
        listed_upto(history, ids, k).is_err(),
    ensures
        listed_upto(history, ids, n) == listed_upto(history, ids, k),
    decreases n - k,
{
    if k < n {
        lemma_listed_stays(history, ids, k + 1, n);
    }
}

/// The first position of a commit with this id.
pub fn find_position(history: &Vec<Revision>, id: &String) -> (found: Option<usize>)
    ensures
        optional_position(found) == position_of(revision_views(history@), id@),
        found matches Some(p) ==> p < history.len(),
{
    let ghost views = revision_views(history@);
    let mut i: usize = 0;
    while i < history.len()
        invariant
            i <= history.len(),
            views == revision_views(history@),
            position_upto(views, id@, i as nat).is_none(),
        decreases history.len() - i,
    {
        assert(views[i as int] == history[i as int]@);
        if history[i].id == *id {
            proof {
                lemma_position_stays(views, id@, (i + 1) as nat, views.len());
            }
            return Some(i);
        }
        i += 1;
    }
    None
}

/// The number of an optional position.
pub open spec fn optional_position(p: Option<usize>) -> Option<int> {
    match p {
        Some(i) => Some(i as int),
        None => None,
    }
}

/// The positions from `lo` up to, but without, `hi`.
fn positions_between(lo: usize, hi: usize) -> (found: Vec<usize>)
    requires
        lo <= hi,
    ensures
        found@ == span(lo as int, hi as int),
        all_below(found@, hi as nat),
{
    let mut found: Vec<usize> = Vec::new();
    let mut i: usize = lo;
    while i < hi
        invariant
            lo <= i <= hi,
            found@ == span(lo as int, i as int),
            all_below(found@, hi as nat),
        decreases hi - i,
    {
        found.push(i);
        assert(found@ =~= span(lo as int, i + 1));
        i += 1;
    }
    found
}

/// The positions of the commits made within the bounds.
fn positions_dated(history: &Vec<Revision>, since: Option<i64>, until: Option<i64>) -> (found: Vec<usize>)
    ensures
        found@ == dated_upto(
            revision_views(history@),
            optional_seconds(since),
            optional_seconds(until),
            history@.len(),
        ),
        all_below(found@, history@.len()),
{
    let ghost views = revision_views(history@);
    let mut found: Vec<usize> = Vec::new();
    let mut i: usize = 0;
    while i < history.len()
        invariant
            i <= history.len(),
            views == revision_views(history@),
            found@ == dated_upto(views, optional_seconds(since), optional_seconds(until), i as nat),
            all_below(found@, history@.len()),
        decreases history.len() - i,
    {
        assert(views[i as int] == history[i as int]@);
        let seconds = history[i].date.seconds;
        let late_enough = match since {
            Some(s) => s <= seconds,
            None => true,
        };
        let early_enough = match until {
            Some(u) => seconds <= u,
            None => true,
        };
        if late_enough && early_enough {
            found.push(i);
        }
        i += 1;
    }
    found
}

/// The positions of the commits with these ids, or the first id that the
/// history does not have.
fn positions_listed(history: &Vec<Revision>, ids: &Vec<String>) -> (outcome: Result<Vec<usize>, ResolutionError>)
    ensures
        match listed_upto(revision_views(history@), texts(ids@), ids@.len()) {
            Ok(found) => outcome matches Ok(v) && v@ == found,
            Err(id) => outcome matches Err(ResolutionError::UnknownCommit { id: named }) && named@ == id,
        },
        stays_within(outcome, history@.len()),
{
    let ghost views = revision_views(history@);
    let ghost wanted = texts(ids@);
    let mut found: Vec<usize> = Vec::new();
    let mut i: usize = 0;
    while i < ids.len()
        invariant
            i <= ids.len(),
            views == revision_views(history@),
            wanted == texts(ids@),
            listed_upto(views, wanted, i as nat) == Ok::<Seq<usize>, Seq<char>>(found@),
            all_below(found@, history@.len()),
        decreases ids.len() - i,
    {
        assert(wanted[i as int] == ids[i as int]@);
        match find_position(history, &ids[i]) {
            Some(p) => {
                found.push(p);
            },
            None => {
                proof {
                    lemma_listed_stays(views, wanted, (i + 1) as nat, wanted.len());
                }
                return Err(ResolutionError::UnknownCommit { id: ids[i].clone() });
            },
        }
        i += 1;
    }
    Ok(found)
}

/// The commits of a range, or why there are none.
fn positions_ranged(history: &Vec<Revision>, from: &Option<String>, to: &Option<String>) -> (outcome: Result<
    Vec<usize>,
    ResolutionError,
>)
    ensures
        answers(outcome, resolve_range(revision_views(history@), optional_text(*from), optional_text(*to))),
        stays_within(outcome, history@.len()),
{
    match from {
        None => match to {
            None => Ok(positions_between(0, history.len())),
            Some(end) => match find_position(history, end) {
                Some(hi) => Ok(positions_between(0, hi)),
                None => Err(ResolutionError::UnknownCommit { id: end.clone() }),
            },
        },
        Some(start) => match find_position(history, start) {
            None => Err(ResolutionError::UnknownCommit { id: start.clone() }),
            Some(lo) => match to {
                None => Ok(positions_between(lo, history.len())),
                Some(end) => match find_position(history, end) {
                    None => Err(ResolutionError::UnknownCommit { id: end.clone() }),
                    Some(hi) => if lo <= hi {
                        Ok(positions_between(lo, hi))
                    } else {
                        Err(ResolutionError::Unreachable { from: start.clone(), to: end.clone() })
                    },
                },
            },
        },
    }
}

/// Those of the positions whose commit is by the user.
pub fn keep_by_user(history: &Vec<Revision>, positions: &Vec<usize>, user: &String) -> (kept: Vec<usize>)
    ensures
        kept@ == kept_upto(revision_views(history@), positions@, user@, positions@.len()),
        all_below(kept@, history@.len()),
{
    let ghost views = revision_views(history@);
    let mut kept: Vec<usize> = Vec::new();
    let mut i: usize = 0;
    while i < positions.len()
        invariant
            i <= positions.len(),
            views == revision_views(history@),
            kept@ == kept_upto(views, positions@, user@, i as nat),
            all_below(kept@, history@.len()),
        decreases positions.len() - i,
    {
        let p = positions[i];
        if p < history.len() {
            assert(views[p as int] == history[p as int]@);
            if history[p].author == *user || history[p].email == *user {
                kept.push(p);
            }
        }
        i += 1;
    }
    kept
}

/// What a selection comes to in a history, before a user narrows it.
pub fn resolve_selection(history: &Vec<Revision>, selection: &Selection) -> (outcome: Result<
    Vec<usize>,
    ResolutionError,
>)
    ensures
        answers(outcome, resolve(revision_views(history@), selection@)),
        stays_within(outcome, history@.len()),
{
    match selection {
        Selection::Latest => {
            if history.len() == 0 {
                Err(ResolutionError::NoCommit)
            } else {
                let mut found: Vec<usize> = Vec::new();
                found.push(0);
                assert(found@ =~= seq![0usize]);
                Ok(found)
            }
        },
        Selection::Single { id } => match find_position(history, id) {
            Some(p) => {
                let mut found: Vec<usize> = Vec::new();
                found.push(p);
                assert(found@ =~= seq![p]);
                Ok(found)
            },
            None => Err(ResolutionError::UnknownCommit { id: id.clone() }),
        },
        Selection::List { ids } => positions_listed(history, ids),
        Selection::Dated { since, until } => Ok(positions_dated(history, *since, *until)),
        Selection::Range { from, to } => positions_ranged(history, from, to),
        Selection::Branch { name } => Ok(positions_between(0, history.len())),
        Selection::All => Ok(positions_between(0, history.len())),
        Selection::Uncommitted => Ok(Vec::new()),
    }
}

/// The positions in the history of the commits to visit, in the order in
/// which they are visited; or the reason why the selection names none.
pub fn select_commits(history: &Vec<Revision>, selection: &Selection, user: &Option<String>) -> (outcome: Result<
    Vec<usize>,
    ResolutionError,
>)
    ensures
        answers(outcome, select(revision_views(history@), selection@, optional_text(*user))),
        stays_within(outcome, history@.len()),
{
    match resolve_selection(history, selection) {
        Ok(found) => match user {
            Some(u) => Ok(keep_by_user(history, &found, u)),
            None => Ok(found),
        },
        Err(e) => Err(e),
    }
}

} // verus!
