//! What is shown once the search has ended.

use crate::finder::{disjoint, id_of, is_answer, lemma_answer_is_unique, CommitId};
use vstd::prelude::*;

verus! {

/// What remains to be done with the answer of the search.
#[derive(Debug, Clone, PartialEq, Eq)]
pub enum OutputStep {
    /// Nothing was found: nothing is shown.
    Nothing,
    /// The text to show is at hand.
    Print(String),
    /// The full record of this commit is to be asked for and shown.
    ShowRecord(String),
}

/// `step` is what is owed for the answer `found` under the flag `show_log`:
/// nothing for no answer; for an identifier its full record where the flag
/// is set, the bare identifier where it is not.
pub open spec fn is_step_for(step: OutputStep, show_log: bool, found: Option<CommitId>) -> bool {
    match found {
        None => step is Nothing,
        Some(id) => if show_log {
            step matches OutputStep::ShowRecord(shown) && shown@ == id
        } else {
            step matches OutputStep::Print(shown) && shown@ == id
        },
    }
}

/// Decides what is shown for the answer of the search.
pub fn get_output(show_log: bool, hash: Option<String>) -> (step: OutputStep)
    ensures
        is_step_for(step, show_log, id_of(hash)),
{
    match hash {
        Some(id) => if show_log {
            OutputStep::ShowRecord(id)
        } else {
            OutputStep::Print(id)
        },
        None => OutputStep::Nothing,
    }
}

/// Listings that share no identifier have no answer, and nothing is shown
/// for them, whether the full record was asked for or not.
pub proof fn lemma_no_overlap_shows_nothing(
    ancestry_path: Seq<CommitId>,
    first_parent: Seq<CommitId>,
    answer: Option<CommitId>,
    show_log: bool,
    step: OutputStep,
)
    requires
        disjoint(ancestry_path, first_parent),
        is_answer(ancestry_path, first_parent, answer),
        is_step_for(step, show_log, answer),
    ensures
        answer is None,
        step is Nothing,
{
    lemma_answer_is_unique(ancestry_path, first_parent, answer, None);
}

} // verus!
