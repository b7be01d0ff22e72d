//! The range of commits that the history queries are asked about.

use crate::lines::{lines_of, text_lines};
use vstd::prelude::*;
use vstd::string::StringExecFns;

verus! {

/// The text of the range from `start` to `end`: the two joined by two dots.
pub open spec fn range_text(start: Seq<char>, end: Seq<char>) -> Seq<char> {
    start + seq!['.', '.'] + end
}

/// The identifier in git's answer to the question for the head: the first
/// line of the answer, without the line feed that ends it. Lines after the
/// first are left aside. An answer without any line names nothing: the
/// identifier is then empty.
pub open spec fn head_id(answer: Seq<char>) -> Seq<char> {
    if lines_of(answer).len() > 0 {
        lines_of(answer)[0]
    } else {
        Seq::empty()
    }
}

/// What is known of the range once the arguments have been read.
#[derive(Debug, Clone, PartialEq, Eq)]
pub enum RangeStep {
    /// The range is complete: this is its text.
    Ready(String),
    /// No branch was named: the range ends at the head of the current
    /// branch, whose identifier has yet to be asked for.
    ResolveHead,
}

/// The range from `start` to `end`, as the history queries take it.
pub fn commit_range(start: &str, end: &str) -> (range: String)
    ensures
        range@ == range_text(start@, end@),
{
    proof {
        reveal_strlit("..");
        assert(".."@ =~= seq!['.', '.']);
    }
    String::from_str(start).concat("..").concat(end)
}

/// The range from `start` to the head, given git's answer to the question
/// for the head. The range ends with the identifier alone: the first line of
/// the answer, or nothing where the answer has no line.
pub fn head_range(start: &str, answer: &str) -> (range: String)
    ensures
        range@ == range_text(start@, head_id(answer@)),
{
    let lines = text_lines(answer);
    if lines.len() > 0 {
        commit_range(start, lines[0].as_str())
    } else {
        proof {
            assert("".view() =~= Seq::<char>::empty()) by {
                reveal_strlit("");
            }
        }
        commit_range(start, "")
    }
}

/// The range in which `commit` is looked for. A branch that was named ends
/// the range as it was written; without one the head has to be resolved
/// first, and `head_range` then completes the range from git's answer.
pub fn create_commit_range(commit: &str, branch: Option<&str>) -> (step: RangeStep)
    ensures
        match branch {
            Some(name) => step matches RangeStep::Ready(range) && range@ == range_text(
                commit@,
                name@,
            ),
            None => step is ResolveHead,
        },
{
    match branch {
        Some(name) => RangeStep::Ready(commit_range(commit, name)),
        None => RangeStep::ResolveHead,
    }
}

} // verus!
