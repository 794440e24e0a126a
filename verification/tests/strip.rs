use scissors::{build_draft, strip_scissors, SCISSORS};

#[test]
fn no_scissors_returns_trimmed_whole() {
    assert_eq!(strip_scissors("hello world\n\n"), "hello world");
}

#[test]
fn scissors_at_start_returns_empty() {
    let input = format!("{SCISSORS}\nfooter stuff");
    assert_eq!(strip_scissors(&input), "");
}

#[test]
fn scissors_in_middle_returns_content_above() {
    let input = format!("my draft\nsecond line\n{SCISSORS}\n# context\n");
    assert_eq!(strip_scissors(&input), "my draft\nsecond line");
}

#[test]
fn scissors_like_but_not_exact_is_ignored() {
    let input = "draft\n# --- >8 --- not the real one\nmore";
    assert_eq!(strip_scissors(input), input.trim_end());
}

#[test]
fn round_trips_a_body_that_contains_a_marker() {
    // build_draft appends the footer last, so its marker is the LAST one;
    // cutting there preserves a body that itself contains a marker line.
    let body = format!("keep this\n{SCISSORS}\nand this too");
    assert_eq!(strip_scissors(&build_draft(&body, None)), body);
}

#[test]
fn cuts_at_the_last_marker_not_the_first() {
    let input = format!("a\n{SCISSORS}\nb\n{SCISSORS}\nc");
    assert_eq!(strip_scissors(&input), format!("a\n{SCISSORS}\nb"));
}

#[test]
fn includes_content_and_scissors() {
    let draft = build_draft("my content", None);
    assert!(draft.starts_with("my content\n"));
    assert!(draft.contains(SCISSORS));
    assert!(draft.contains("# Empty all content above this line to abort"));
}

#[test]
fn context_appears_when_provided() {
    let draft = build_draft("x", Some("Issue #26 reply"));
    assert!(draft.contains("# Context: Issue #26 reply"));
}

#[test]
fn no_context_line_when_absent() {
    let draft = build_draft("x", None);
    assert!(!draft.contains("# Context:"));
}

#[test]
fn round_trips_through_strip() {
    let draft = build_draft("hello\nworld", None);
    assert_eq!(strip_scissors(&draft), "hello\nworld");
}
