use find_merge::range::{commit_range, create_commit_range, head_range, RangeStep};

#[test]
fn named_branch_ends_the_range() {
    assert_eq!(
        create_commit_range("abc123", Some("main")),
        RangeStep::Ready("abc123..main".to_string())
    );
}

#[test]
fn missing_branch_asks_for_the_head() {
    assert_eq!(create_commit_range("abc123", None), RangeStep::ResolveHead);
}

#[test]
fn resolved_head_ends_the_range() {
    assert_eq!(commit_range("abc123", "deadbeef"), "abc123..deadbeef");
}

#[test]
fn branch_name_is_taken_verbatim() {
    assert_eq!(
        create_commit_range("abc123", Some("origin/feature..x")),
        RangeStep::Ready("abc123..origin/feature..x".to_string())
    );
    assert_eq!(commit_range("", ""), "..");
    assert_eq!(commit_range("caf\u{e9}", "\u{4e3b}"), "caf\u{e9}..\u{4e3b}");
}

#[test]
fn head_answer_gives_its_identifier_without_the_line_feed() {
    assert_eq!(head_range("abc123", "deadbeef\n"), "abc123..deadbeef");
    assert_eq!(head_range("abc123", "deadbeef\r\n"), "abc123..deadbeef");
    assert_eq!(head_range("abc123", "deadbeef"), "abc123..deadbeef");
}

#[test]
fn head_answer_of_several_lines_gives_the_first() {
    assert_eq!(head_range("abc123", "deadbeef\ncafebabe\n"), "abc123..deadbeef");
    assert_eq!(head_range("abc123", "\ncafebabe\n"), "abc123..");
}

#[test]
fn head_answer_without_a_line_gives_an_open_range() {
    assert_eq!(head_range("abc123", ""), "abc123..");
}
