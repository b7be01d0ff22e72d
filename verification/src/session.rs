//! One search from its request to its result, as a sequence of questions to
//! git. The caller puts each question to git and hands the answer back.

use crate::finder::{find_last_line_in_common, last_common, CommitId};
use crate::git::{GitError, Query};
use crate::lines::lines_of;
use crate::output::{get_output, OutputStep};
use crate::range::{create_commit_range, head_id, head_range, range_text, RangeStep};
use vstd::prelude::*;

verus! {

/// What is searched for.
#[derive(Debug, Clone, PartialEq, Eq)]
pub struct Request {
    /// The commit whose merge is looked for.
    pub commit: String,
    /// The branch that it was merged to; the current one if none is named.
    pub branch: Option<String>,
    /// Whether the full record of the merge is shown in place of its
    /// identifier.
    pub show_log: bool,
}

/// How far a search has come: which answer it waits for.
#[derive(Debug, Clone, PartialEq, Eq)]
pub enum Stage {
    /// The identifier of the head.
    Head,
    /// The listing of `range` along every path.
    AncestryPath { range: String },
    /// The listing of `range` along the first-parent line, with the listing
    /// along every path at hand.
    FirstParent { range: String, ancestry_path: String },
    /// The full record of the commit that was found.
    Record,
    /// Nothing: the search is over.
    Finished,
}

/// What the caller does next.
#[derive(Debug, PartialEq, Eq)]
pub enum Action {
    /// Put this question to git and hand its answer to `advance`.
    Ask(Query),
    /// Show this text, if there is one, and end.
    Finish(Option<String>),
    /// End with this failure.
    Fail(GitError),
}

/// The search waits for the listing of `range` along every path and asks
/// for it.
pub open spec fn lists_ancestry_path(next: (Stage, Action), range: Seq<char>) -> bool {
    &&& next.0 matches Stage::AncestryPath { range: kept } && kept@ == range
    &&& next.1 matches Action::Ask(Query::AncestryPath(asked)) && asked@ == range
}

/// The search is over and shows what `get_output` owes for `found`, or it
/// waits for the record of `found` and asks for it.
pub open spec fn shows(next: (Stage, Action), show_log: bool, found: Option<CommitId>) -> bool {
    match found {
        None => next.0 is Finished && next.1 == Action::Finish(None),
        Some(id) => if show_log {
            &&& next.0 is Record
            &&& next.1 matches Action::Ask(Query::Record(asked)) && asked@ == id
        } else {
            &&& next.0 is Finished
            &&& next.1 matches Action::Finish(Some(shown)) && shown@ == id
        },
    }
}

/// Opens a search: with a branch named the range is complete and its
/// listing along every path is asked for; without one the head is asked for
/// first.
pub fn start(request: &Request) -> (next: (Stage, Action))
    ensures
        match request.branch {
            Some(name) => lists_ancestry_path(next, range_text(request.commit@, name@)),
            None => next.0 is Head && next.1 == Action::Ask(Query::Head),
        },
{
    let branch = match &request.branch {
        Some(name) => Some(name.as_str()),
        None => None,
    };
    match create_commit_range(request.commit.as_str(), branch) {
        RangeStep::Ready(range) => (
            Stage::AncestryPath { range: range.clone() },
            Action::Ask(Query::AncestryPath(range)),
        ),
        RangeStep::ResolveHead => (Stage::Head, Action::Ask(Query::Head)),
    }
}

/// Takes git's answer to the question that `stage` waits for and says what
/// comes next. A failure ends the search with that failure. The identifier
/// in the answer for the head, its first line, completes the range, whose
/// two listings are then asked for in turn. With both at hand the commit is
/// looked for: nothing found ends the search with nothing to show, an
/// identifier is shown as it is or its record is asked for, and that record
/// is then shown as git gave it. A search that is over stays over.
pub fn advance(request: &Request, stage: Stage, answer: Result<String, GitError>) -> (next: (
    Stage,
    Action,
))
    ensures
        match answer {
            Err(failure) => next.0 is Finished && next.1 == Action::Fail(failure),
            Ok(text) => match stage {
                Stage::Head => lists_ancestry_path(
                    next,
                    range_text(request.commit@, head_id(text@)),
                ),
                Stage::AncestryPath { range } => {
                    &&& next.0 matches Stage::FirstParent { range: kept, ancestry_path }
                        && kept@ == range@ && ancestry_path@ == text@
                    &&& next.1 matches Action::Ask(Query::FirstParent(asked)) && asked@ == range@
                },
                Stage::FirstParent { range, ancestry_path } => shows(
                    next,
                    request.show_log,
                    last_common(lines_of(ancestry_path@), lines_of(text@)),
                ),
                Stage::Record => next.0 is Finished && next.1 == Action::Finish(Some(text)),
                Stage::Finished => next.0 is Finished && next.1 == Action::Finish(None),
            },
        },
{
    let text = match answer {
        Ok(text) => text,
        Err(failure) => {
            return (Stage::Finished, Action::Fail(failure));
        },
    };
    match stage {
        Stage::Head => {
            let range = head_range(request.commit.as_str(), text.as_str());
            (Stage::AncestryPath { range: range.clone() }, Action::Ask(Query::AncestryPath(range)))
        },
        Stage::AncestryPath { range } => (
            Stage::FirstParent { range: range.clone(), ancestry_path: text },
            Action::Ask(Query::FirstParent(range)),
        ),
        Stage::FirstParent { range, ancestry_path } => {
            let found = find_last_line_in_common(ancestry_path, text);
            match get_output(request.show_log, found) {
                OutputStep::Nothing => (Stage::Finished, Action::Finish(None)),
                OutputStep::Print(id) => (Stage::Finished, Action::Finish(Some(id))),
                OutputStep::ShowRecord(id) => (Stage::Record, Action::Ask(Query::Record(id))),
            }
        },
        Stage::Record => (Stage::Finished, Action::Finish(Some(text))),
        Stage::Finished => (Stage::Finished, Action::Finish(None)),
    }
}

} // verus!
