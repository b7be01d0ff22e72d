use find_merge::git::{GitError, Query};
use find_merge::session::{advance, start, Action, Request, Stage};

fn request(branch: Option<&str>, show_log: bool) -> Request {
    Request {
        commit: "abc123".to_string(),
        branch: branch.map(|name| name.to_string()),
        show_log,
    }
}

fn failure() -> GitError {
    GitError::Failed { code: 128, diagnostic: "fatal: bad revision".to_string() }
}

#[test]
fn search_on_a_named_branch_starts_with_the_listing() {
    let (stage, action) = start(&request(Some("main"), false));
    assert_eq!(stage, Stage::AncestryPath { range: "abc123..main".to_string() });
    assert_eq!(action, Action::Ask(Query::AncestryPath("abc123..main".to_string())));
}

#[test]
fn search_without_a_branch_starts_with_the_head() {
    let (stage, action) = start(&request(None, false));
    assert_eq!(stage, Stage::Head);
    assert_eq!(action, Action::Ask(Query::Head));
}

#[test]
fn head_completes_the_range() {
    let (stage, action) = advance(&request(None, false), Stage::Head, Ok("deadbeef".to_string()));
    assert_eq!(stage, Stage::AncestryPath { range: "abc123..deadbeef".to_string() });
    assert_eq!(action, Action::Ask(Query::AncestryPath("abc123..deadbeef".to_string())));
}

#[test]
fn head_as_git_writes_it_completes_the_range() {
    let (stage, action) =
        advance(&request(None, false), Stage::Head, Ok("deadbeef\n".to_string()));
    assert_eq!(stage, Stage::AncestryPath { range: "abc123..deadbeef".to_string() });
    assert_eq!(action, Action::Ask(Query::AncestryPath("abc123..deadbeef".to_string())));
}

#[test]
fn head_answer_of_several_lines_completes_the_range_with_the_first() {
    let (stage, action) =
        advance(&request(None, false), Stage::Head, Ok("deadbeef\ncafebabe\n".to_string()));
    assert_eq!(stage, Stage::AncestryPath { range: "abc123..deadbeef".to_string() });
    assert_eq!(action, Action::Ask(Query::AncestryPath("abc123..deadbeef".to_string())));
}

#[test]
fn empty_head_answer_leaves_the_range_open() {
    let (stage, action) = advance(&request(None, false), Stage::Head, Ok(String::new()));
    assert_eq!(stage, Stage::AncestryPath { range: "abc123..".to_string() });
    assert_eq!(action, Action::Ask(Query::AncestryPath("abc123..".to_string())));
}

#[test]
fn first_listing_is_kept_and_the_second_asked_for() {
    let (stage, action) = advance(
        &request(Some("main"), false),
        Stage::AncestryPath { range: "abc123..main".to_string() },
        Ok("m5\nmerge1\nb1\n".to_string()),
    );
    assert_eq!(
        stage,
        Stage::FirstParent {
            range: "abc123..main".to_string(),
            ancestry_path: "m5\nmerge1\nb1\n".to_string(),
        }
    );
    assert_eq!(action, Action::Ask(Query::FirstParent("abc123..main".to_string())));
}

fn both_listings(show_log: bool, ancestry_path: &str, first_parent: &str) -> (Stage, Action) {
    advance(
        &request(Some("main"), show_log),
        Stage::FirstParent {
            range: "abc123..main".to_string(),
            ancestry_path: ancestry_path.to_string(),
        },
        Ok(first_parent.to_string()),
    )
}

#[test]
fn found_identifier_ends_the_search() {
    let (stage, action) = both_listings(false, "m5\nmerge1\nb1\n", "m5\nmerge1\nm2\n");
    assert_eq!(stage, Stage::Finished);
    assert_eq!(action, Action::Finish(Some("merge1".to_string())));
}

#[test]
fn found_identifier_has_its_record_asked_for() {
    let (stage, action) = both_listings(true, "m5\nmerge1\nb1\n", "m5\nmerge1\nm2\n");
    assert_eq!(stage, Stage::Record);
    assert_eq!(action, Action::Ask(Query::Record("merge1".to_string())));
}

#[test]
fn nothing_found_ends_the_search_silently() {
    for show_log in [false, true] {
        let (stage, action) = both_listings(show_log, "b2\nb1\n", "m2\nm1\n");
        assert_eq!(stage, Stage::Finished);
        assert_eq!(action, Action::Finish(None));
    }
}

#[test]
fn record_is_shown_as_git_gave_it() {
    let record = "commit deadbeef\nAuthor: A\n\n    Merge branch\n";
    let (stage, action) = advance(&request(None, true), Stage::Record, Ok(record.to_string()));
    assert_eq!(stage, Stage::Finished);
    assert_eq!(action, Action::Finish(Some(record.to_string())));
}

#[test]
fn failure_ends_the_search_at_any_stage() {
    let stages = [
        Stage::Head,
        Stage::AncestryPath { range: "abc123..main".to_string() },
        Stage::FirstParent { range: "abc123..main".to_string(), ancestry_path: "m5\n".to_string() },
        Stage::Record,
        Stage::Finished,
    ];
    for stage in stages {
        let (next, action) = advance(&request(None, true), stage, Err(failure()));
        assert_eq!(next, Stage::Finished);
        assert_eq!(action, Action::Fail(failure()));
    }
}

#[test]
fn finished_search_stays_finished() {
    let (stage, action) = advance(&request(None, true), Stage::Finished, Ok("x".to_string()));
    assert_eq!(stage, Stage::Finished);
    assert_eq!(action, Action::Finish(None));
}

fn run(request: &Request, answers: &[(&[&str], &str)]) -> (Vec<Vec<String>>, Action) {
    let mut asked = Vec::new();
    let (mut stage, mut action) = start(request);
    loop {
        let query = match action {
            Action::Ask(query) => query,
            done => return (asked, done),
        };
        let words = query.arguments();
        let answer = answers
            .iter()
            .find(|(expected, _)| expected.iter().map(|w| w.to_string()).eq(words.iter().cloned()))
            .map(|(_, text)| text.to_string())
            .ok_or_else(failure);
        asked.push(words);
        let next = advance(request, stage, answer);
        stage = next.0;
        action = next.1;
    }
}

#[test]
fn whole_search_without_branch_and_with_record() {
    let answers: [(&[&str], &str); 4] = [
        (&["show-ref", "-s", "HEAD"], "deadbeef\n"),
        (&["rev-list", "abc123..deadbeef", "--ancestry-path"], "m5\nmerge1\nb1\n"),
        (&["rev-list", "abc123..deadbeef", "--first-parent"], "m5\nmerge1\nm2\n"),
        (&["show", "merge1"], "commit merge1\n"),
    ];
    let (asked, action) = run(&request(None, true), &answers);
    assert_eq!(asked.len(), 4);
    assert_eq!(asked[0], vec!["show-ref", "-s", "HEAD"]);
    assert_eq!(asked[1], vec!["rev-list", "abc123..deadbeef", "--ancestry-path"]);
    assert_eq!(asked[2], vec!["rev-list", "abc123..deadbeef", "--first-parent"]);
    assert_eq!(asked[3], vec!["show", "merge1"]);
    assert_eq!(action, Action::Finish(Some("commit merge1\n".to_string())));
}

#[test]
fn whole_search_on_a_branch_asks_two_questions() {
    let answers: [(&[&str], &str); 2] = [
        (&["rev-list", "abc123..main", "--ancestry-path"], "m5\nmerge1\nb1\n"),
        (&["rev-list", "abc123..main", "--first-parent"], "m5\nmerge1\nm2\n"),
    ];
    let (asked, action) = run(&request(Some("main"), false), &answers);
    assert_eq!(asked.len(), 2);
    assert_eq!(action, Action::Finish(Some("merge1".to_string())));
}

#[test]
fn whole_search_stops_at_the_first_failure() {
    let answers: [(&[&str], &str); 1] =
        [(&["rev-list", "abc123..main", "--ancestry-path"], "m5\n")];
    let (asked, action) = run(&request(Some("main"), false), &answers);
    assert_eq!(asked.len(), 2);
    assert_eq!(action, Action::Fail(failure()));
}

#[test]
fn head_read_from_git_output_ends_the_range() {
    let answer = find_merge::git::read_output(true, 0, b"deadbeef\n".to_vec(), Vec::new());
    let (stage, action) = advance(&request(None, false), Stage::Head, answer);
    assert_eq!(stage, Stage::AncestryPath { range: "abc123..deadbeef".to_string() });
    assert_eq!(action, Action::Ask(Query::AncestryPath("abc123..deadbeef".to_string())));
}
