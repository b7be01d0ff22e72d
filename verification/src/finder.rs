//! The search for the commit that two listings have in common.

use crate::lines::{lines_of, text_lines, texts};
use vstd::hash_set::StringHashSet;
use vstd::prelude::*;

verus! {

/// A commit identifier as contracts see it: the characters of the token.
pub type CommitId = Seq<char>;

/// The identifiers that a listing holds, in its order.
pub open spec fn ids(listing: Seq<String>) -> Seq<CommitId> {
    texts(listing)
}

/// The identifier that a scan of `ancestry_path` from its end toward its
/// start meets first among those that occur in `first_parent`.
pub open spec fn last_common(ancestry_path: Seq<CommitId>, first_parent: Seq<CommitId>) -> Option<
    CommitId,
>
    decreases ancestry_path.len(),
{
    if ancestry_path.len() == 0 {
        None
    } else if first_parent.contains(ancestry_path.last()) {
        Some(ancestry_path.last())
    } else {
        last_common(ancestry_path.drop_last(), first_parent)
    }
}

/// `at` is the greatest index of `ancestry_path` whose identifier occurs in
/// `first_parent`.
pub open spec fn is_last_hit(
    ancestry_path: Seq<CommitId>,
    first_parent: Seq<CommitId>,
    at: int,
) -> bool {
    &&& 0 <= at < ancestry_path.len()
    &&& first_parent.contains(ancestry_path[at])
    &&& forall|j: int|
        at < j < ancestry_path.len() ==> !first_parent.contains(#[trigger] ancestry_path[j])
}

/// No identifier of `ancestry_path` occurs in `first_parent`.
pub open spec fn disjoint(ancestry_path: Seq<CommitId>, first_parent: Seq<CommitId>) -> bool {
    forall|j: int|
        0 <= j < ancestry_path.len() ==> !first_parent.contains(#[trigger] ancestry_path[j])
}

/// What the search owes for two listings: the identifier at the last hit, or
/// nothing exactly when the listings share no identifier.
pub open spec fn is_answer(
    ancestry_path: Seq<CommitId>,
    first_parent: Seq<CommitId>,
    answer: Option<CommitId>,
) -> bool {
    match answer {
        Some(id) => exists|at: int|
            #![trigger ancestry_path[at]]
            is_last_hit(ancestry_path, first_parent, at) && ancestry_path[at] == id,
        None => disjoint(ancestry_path, first_parent),
    }
}

/// The scan from the end gives the identifier at the last hit, and gives
/// nothing exactly when the two listings share no identifier.
pub proof fn lemma_last_common_is_answer(
    ancestry_path: Seq<CommitId>,
    first_parent: Seq<CommitId>,
)
    ensures
        is_answer(ancestry_path, first_parent, last_common(ancestry_path, first_parent)),
    decreases ancestry_path.len(),
{
    if ancestry_path.len() == 0 {
    } else if first_parent.contains(ancestry_path.last()) {
        let at = ancestry_path.len() - 1;
        assert(is_last_hit(ancestry_path, first_parent, at));
        assert(ancestry_path[at] == ancestry_path.last());
    } else {
        let shorter = ancestry_path.drop_last();
        lemma_last_common_is_answer(shorter, first_parent);
        match last_common(shorter, first_parent) {
            Some(id) => {
                let at = choose|at: int|
                    #![trigger shorter[at]]
                    is_last_hit(shorter, first_parent, at) && shorter[at] == id;
                assert forall|j: int| at < j < ancestry_path.len() implies !first_parent.contains(
                    #[trigger] ancestry_path[j],
                ) by {
                    if j < shorter.len() {
                        assert(shorter[j] == ancestry_path[j]);
                    }
                }
                assert(ancestry_path[at] == shorter[at]);
                assert(is_last_hit(ancestry_path, first_parent, at));
            },
            None => {
                assert forall|j: int| 0 <= j < ancestry_path.len() implies !first_parent.contains(
                    #[trigger] ancestry_path[j],
                ) by {
                    if j < shorter.len() {
                        assert(shorter[j] == ancestry_path[j]);
                    }
                }
            },
        }
    }
}

/// The identifier that an answer holds, if it holds one.
pub open spec fn id_of(answer: Option<String>) -> Option<CommitId> {
    match answer {
        Some(id) => Some(id@),
        None => None,
    }
}

/// Scanning a listing without its tail gives the same answer as long as the
/// tail shares nothing with `first_parent`.
proof fn lemma_skip_tail(ancestry_path: Seq<CommitId>, first_parent: Seq<CommitId>, keep: int)
    requires
        0 <= keep <= ancestry_path.len(),
        forall|j: int|
            keep <= j < ancestry_path.len() ==> !first_parent.contains(#[trigger] ancestry_path[j]),
    ensures
        last_common(ancestry_path, first_parent) == last_common(
            ancestry_path.take(keep),
            first_parent,
        ),
    decreases ancestry_path.len() - keep,
{
    if keep == ancestry_path.len() {
        assert(ancestry_path.take(keep) =~= ancestry_path);
    } else {
        let shorter = ancestry_path.drop_last();
        assert(!first_parent.contains(ancestry_path[ancestry_path.len() - 1]));
        assert forall|j: int| keep <= j < shorter.len() implies !first_parent.contains(
            #[trigger] shorter[j],
        ) by {
            assert(shorter[j] == ancestry_path[j]);
        }
        lemma_skip_tail(shorter, first_parent, keep);
        assert(shorter.take(keep) =~= ancestry_path.take(keep));
    }
}

/// Finds the commit at which the two listings of a range meet: the first
/// identifier of `ancestry_path`, read from its end toward its start, that
/// `first_parent` holds too. There is none when the listings share nothing.
pub fn find_last_common(ancestry_path: &Vec<String>, first_parent: &Vec<String>) -> (answer: Option<
    String,
>)
    ensures
        id_of(answer) == last_common(ids(ancestry_path@), ids(first_parent@)),
        is_answer(ids(ancestry_path@), ids(first_parent@), id_of(answer)),
{
    let ghost path = ids(ancestry_path@);
    let ghost mainline = ids(first_parent@);
    let mut members = StringHashSet::new();
    let mut k: usize = 0;
    while k < first_parent.len()
        invariant
            k <= first_parent.len(),
            mainline == ids(first_parent@),
            forall|id: CommitId| members@.contains(id) <==> mainline.take(k as int).contains(id),
        decreases first_parent.len() - k,
    {
        let id = first_parent[k].clone();
        members.insert(id);
        proof {
            let before = mainline.take(k as int);
            let after = mainline.take(k + 1);
            assert(after =~= before.push(mainline[k as int]));
            assert forall|id: CommitId| members@.contains(id) <==> after.contains(id) by {
                if before.contains(id) {
                    let j = choose|j: int| 0 <= j < before.len() && before[j] == id;
                    assert(after[j] == id);
                }
                if id == mainline[k as int] {
                    assert(after[k as int] == id);
                }
            }
        }
        k += 1;
    }
    proof {
        assert(mainline.take(k as int) =~= mainline);
    }
    let mut i: usize = ancestry_path.len();
    while i > 0
        invariant
            i <= ancestry_path.len(),
            path == ids(ancestry_path@),
            mainline == ids(first_parent@),
            forall|id: CommitId| members@.contains(id) <==> mainline.contains(id),
            forall|j: int| i <= j < path.len() ==> !mainline.contains(#[trigger] path[j]),
        decreases i,
    {
        i -= 1;
        if members.contains(ancestry_path[i].as_str()) {
            let found = ancestry_path[i].clone();
            proof {
                lemma_skip_tail(path, mainline, i + 1);
                assert(path[i as int] == found@);
                assert(path.take(i + 1).last() == path[i as int]);
                assert(is_last_hit(path, mainline, i as int));
            }
            return Some(found);
        }
    }
    proof {
        lemma_skip_tail(path, mainline, 0);
    }
    None
}

/// Finds the commit at which two listings meet, each given as the text of a
/// history query with one identifier per line: the last line of `output1`
/// that is also a line of `output2`.
pub fn find_last_line_in_common(output1: String, output2: String) -> (answer: Option<String>)
    ensures
        id_of(answer) == last_common(lines_of(output1@), lines_of(output2@)),
        is_answer(lines_of(output1@), lines_of(output2@), id_of(answer)),
{
    let ancestry_path = text_lines(output1.as_str());
    let first_parent = text_lines(output2.as_str());
    find_last_common(&ancestry_path, &first_parent)
}

/// The search has one answer: whatever meets its contract for two listings
/// is the identifier that the scan from the end meets first, so two runs on
/// the same listings agree.
pub proof fn lemma_answer_is_unique(
    ancestry_path: Seq<CommitId>,
    first_parent: Seq<CommitId>,
    first: Option<CommitId>,
    second: Option<CommitId>,
)
    requires
        is_answer(ancestry_path, first_parent, first),
        is_answer(ancestry_path, first_parent, second),
    ensures
        first == second,
        first == last_common(ancestry_path, first_parent),
{
    lemma_last_common_is_answer(ancestry_path, first_parent);
    lemma_answers_agree(ancestry_path, first_parent, first, second);
    lemma_answers_agree(
        ancestry_path,
        first_parent,
        first,
        last_common(ancestry_path, first_parent),
    );
}

proof fn lemma_answers_agree(
    ancestry_path: Seq<CommitId>,
    first_parent: Seq<CommitId>,
    first: Option<CommitId>,
    second: Option<CommitId>,
)
    requires
        is_answer(ancestry_path, first_parent, first),
        is_answer(ancestry_path, first_parent, second),
    ensures
        first == second,
{
    match (first, second) {
        (Some(x), Some(y)) => {
            let i = choose|at: int|
                #![trigger ancestry_path[at]]
                is_last_hit(ancestry_path, first_parent, at) && ancestry_path[at] == x;
            let j = choose|at: int|
                #![trigger ancestry_path[at]]
                is_last_hit(ancestry_path, first_parent, at) && ancestry_path[at] == y;
            if i < j {
                assert(!first_parent.contains(ancestry_path[j]));
            } else if j < i {
                assert(!first_parent.contains(ancestry_path[i]));
            }
        },
        (Some(x), None) => {
            let i = choose|at: int|
                #![trigger ancestry_path[at]]
                is_last_hit(ancestry_path, first_parent, at) && ancestry_path[at] == x;
            assert(!first_parent.contains(ancestry_path[i]));
        },
        (None, Some(y)) => {
            let j = choose|at: int|
                #![trigger ancestry_path[at]]
                is_last_hit(ancestry_path, first_parent, at) && ancestry_path[at] == y;
            assert(!first_parent.contains(ancestry_path[j]));
        },
        (None, None) => {},
    }
}

} // verus!
