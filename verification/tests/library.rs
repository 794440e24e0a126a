use std::path::PathBuf;

use scissors::{
    build_draft, editor_command, failed_exit_verdict, file_step, is_blank, is_scissors_line, keeps_draft,
    marker_line, saved_draft_verdict, stdin_outcome, strip_scissors, trim, trim_end,
    words_decision, FileError, FileOutcome, FileStep, Options, Outcome, ScissorsError, Verdict,
    SCISSORS, SCISSORS_MARK,
};

fn expected_footer() -> String {
    format!(
        "{SCISSORS}\n# Do not modify or remove the line above.\n\
         # Everything below is context and will be stripped from the final content.\n\
         # Save and close the editor when done.\n\
         # Empty all content above this line to abort without submitting.\n"
    )
}

#[test]
fn draft_is_content_blank_line_and_footer() {
    assert_eq!(build_draft("a\n\n", None), format!("a\n\n{}", expected_footer()));
}

#[test]
fn draft_with_context_ends_with_context_lines() {
    assert_eq!(
        build_draft("body", Some("ctx")),
        format!("body\n\n{}#\n# Context: ctx\n", expected_footer())
    );
}

#[test]
fn draft_of_empty_content_starts_with_blank_lines() {
    assert_eq!(build_draft("", None), format!("\n\n{}", expected_footer()));
}

#[test]
fn round_trip_drops_trailing_whitespace_of_content() {
    let draft = build_draft("x  \n\n", Some("label"));
    assert_eq!(strip_scissors(&draft), "x");
}

#[test]
fn round_trip_with_context_and_marker_in_body() {
    let body = format!("{SCISSORS}\nkeep\n{SCISSORS}  \ntoo");
    let draft = build_draft(&body, Some("Issue #26 reply"));
    assert_eq!(strip_scissors(&draft), body);
}

#[test]
fn round_trip_of_empty_content_is_empty() {
    assert_eq!(strip_scissors(&build_draft("", None)), "");
}

#[test]
fn crlf_line_endings_become_newlines() {
    let input = format!("a\r\nb\r\n{SCISSORS}\r\nfooter");
    assert_eq!(strip_scissors(&input), "a\nb");
}

#[test]
fn no_scissors_line_keeps_all_lines_normalised() {
    assert_eq!(strip_scissors("a\r\nb\n\n  "), "a\nb");
}

#[test]
fn scissors_line_with_trailing_whitespace_still_cuts() {
    let input = format!("a\n{SCISSORS} \t\nb");
    assert_eq!(strip_scissors(&input), "a");
}

#[test]
fn separator_with_its_prefix_removed_still_cuts() {
    let raw = format!("body\n\n{}\n# footer", &SCISSORS[2..]);
    assert_eq!(strip_scissors(&raw), "body");
}

#[test]
fn separator_with_its_prefix_altered_still_cuts() {
    let raw = format!("body\n// {SCISSORS_MARK}\n# footer");
    assert_eq!(strip_scissors(&raw), "body");
    let indented = format!("a\n {SCISSORS}\nb");
    assert_eq!(strip_scissors(&indented), "a");
}

#[test]
fn marker_followed_by_other_text_is_no_cut() {
    let raw = format!("a\n{SCISSORS} more\nb");
    assert_eq!(strip_scissors(&raw), raw);
}

#[test]
fn empty_input_strips_to_empty() {
    assert_eq!(strip_scissors(""), "");
}

#[test]
fn is_scissors_line_ignores_trailing_whitespace_only() {
    assert!(is_scissors_line(SCISSORS));
    assert!(is_scissors_line(&format!("{SCISSORS}\u{3000} ")));
    assert!(is_scissors_line(&format!(" {SCISSORS}")));
    assert!(is_scissors_line(SCISSORS_MARK));
    assert!(is_scissors_line(&format!("; {SCISSORS_MARK}\r")));
    assert!(!is_scissors_line(&format!("{SCISSORS}x")));
    assert!(!is_scissors_line("# --- >8 ---"));
}

#[test]
fn marker_line_is_one_based_first_hit() {
    let input = format!("a\n{SCISSORS}\nb\n{SCISSORS}");
    assert_eq!(marker_line(&input), Some(2));
    assert_eq!(marker_line("a\nb\n"), None);
    assert_eq!(marker_line(SCISSORS), Some(1));
    assert_eq!(marker_line(&format!("x\n#{SCISSORS_MARK}")), Some(2));
}

#[test]
fn blank_and_trims_follow_unicode_whitespace() {
    assert!(is_blank(""));
    assert!(is_blank(" \t\n\u{a0}\u{3000}"));
    assert!(!is_blank(" x "));
    assert_eq!(trim_end("  a b \u{2003}\n"), "  a b");
    assert_eq!(trim("\u{85} a b \r\n"), "a b");
    assert_eq!(trim("   "), "");
}

#[test]
fn options_builder_sets_context() {
    assert_eq!(Options::new().context, None);
    assert_eq!(Options::default().context, None);
    assert_eq!(Options::new().context("Issue #26 reply").context, Some("Issue #26 reply"));
}

#[test]
fn scissors_editor_takes_priority() {
    let cmd = editor_command(Some("mine -w"), Some("myvisual --wait"), Some("myeditor")).unwrap();
    assert_eq!(cmd, vec!["mine", "-w"]);
}

#[test]
fn visual_takes_priority_over_editor() {
    let cmd = editor_command(None, Some("myvisual --wait"), Some("myeditor")).unwrap();
    assert_eq!(cmd, vec!["myvisual", "--wait"]);
}

#[test]
fn editor_used_when_visual_unset_or_blank() {
    assert_eq!(editor_command(None, None, Some("nano")).unwrap(), vec!["nano"]);
    assert_eq!(editor_command(Some(" "), Some("  \t"), Some(" nano ")).unwrap(), vec!["nano"]);
}

#[test]
fn falls_back_to_vi() {
    assert_eq!(editor_command(None, None, None).unwrap(), vec!["vi"]);
    assert_eq!(editor_command(None, Some(""), Some("")).unwrap(), vec!["vi"]);
}

#[test]
fn command_that_yields_no_words_is_skipped() {
    assert_eq!(editor_command(None, Some("# only a comment"), Some("ed")).unwrap(), vec!["ed"]);
}

#[test]
fn quoted_words_are_split_like_a_shell() {
    let cmd = editor_command(None, Some("code --wait 'my dir/x'"), None).unwrap();
    assert_eq!(cmd, vec!["code", "--wait", "my dir/x"]);
}

#[test]
fn unmatched_quote_is_an_io_error() {
    let r = editor_command(None, Some("code 'oops"), Some("nano"));
    match r {
        Err(ScissorsError::Io(e)) => assert_eq!(e.kind(), std::io::ErrorKind::InvalidInput),
        other => panic!("unexpected {other:?}"),
    }
}

#[test]
fn words_decision_cases() {
    assert!(matches!(
        words_decision(shell_words::split("'")),
        Some(Err(ScissorsError::Io(_)))
    ));
    assert!(words_decision(Ok(vec![])).is_none());
    match words_decision(Ok(vec!["a".to_string()])) {
        Some(Ok(w)) => assert_eq!(w, vec!["a"]),
        other => panic!("unexpected {other:?}"),
    }
}

#[test]
fn failed_exit_reports_code_or_minus_one() {
    assert!(matches!(failed_exit_verdict(Some(3)), Verdict::EditorFailed { code: 3 }));
    assert!(matches!(failed_exit_verdict(None), Verdict::EditorFailed { code: -1 }));
}

#[test]
fn emptied_buffer_aborts_even_when_fast() {
    let raw = build_draft("  ", None);
    assert!(matches!(saved_draft_verdict(&raw, "  ", None, 3), Verdict::Aborted));
    let emptied = format!("\n\n{SCISSORS}\nanything");
    assert!(matches!(saved_draft_verdict(&emptied, "draft", None, 10_000), Verdict::Aborted));
}

#[test]
fn unchanged_and_fast_is_a_silent_failure() {
    let raw = build_draft("unchanged draft\n", None);
    assert!(matches!(
        saved_draft_verdict(&raw, "unchanged draft\n", None, 499),
        Verdict::SilentFailure { elapsed_ms: 499 }
    ));
}

#[test]
fn unchanged_but_slow_is_approved() {
    let raw = build_draft("unchanged draft", None);
    match saved_draft_verdict(&raw, "unchanged draft", None, 500) {
        Verdict::Approved(s) => assert_eq!(s, "unchanged draft"),
        other => panic!("unexpected {other:?}"),
    }
}

#[test]
fn edited_and_fast_is_approved() {
    let raw = format!("edited line\nbody text\n\n{SCISSORS}\n# footer");
    match saved_draft_verdict(&raw, "body text", None, 1) {
        Verdict::Approved(s) => assert_eq!(s, "edited line\nbody text"),
        other => panic!("unexpected {other:?}"),
    }
}

#[test]
fn stdin_outcomes_keep_the_draft_path_on_failure() {
    let p = PathBuf::from("/tmp/d/COMMIT_EDITMSG");
    match stdin_outcome(Verdict::Approved("ok".to_string()), p.clone()) {
        Ok(Outcome::Approved(s)) => assert_eq!(s, "ok"),
        other => panic!("unexpected {other:?}"),
    }
    match stdin_outcome(Verdict::Aborted, p.clone()) {
        Ok(Outcome::Aborted { draft_path }) => assert_eq!(draft_path, p),
        other => panic!("unexpected {other:?}"),
    }
    match stdin_outcome(Verdict::SilentFailure { elapsed_ms: 7 }, p.clone()) {
        Err(ScissorsError::SilentFailure { elapsed_ms: 7, draft_path }) => {
            assert_eq!(draft_path, p)
        }
        other => panic!("unexpected {other:?}"),
    }
    match stdin_outcome(Verdict::EditorFailed { code: 3 }, p.clone()) {
        Err(ScissorsError::EditorFailed { code: 3, draft_path }) => assert_eq!(draft_path, p),
        other => panic!("unexpected {other:?}"),
    }
}

#[test]
fn file_steps_install_only_approved_content() {
    match file_step(Verdict::Approved("new".to_string())) {
        FileStep::Install(s) => assert_eq!(s, "new"),
        other => panic!("unexpected {other:?}"),
    }
    assert!(matches!(file_step(Verdict::Aborted), FileStep::Finish(Ok(FileOutcome::Aborted))));
    assert!(matches!(
        file_step(Verdict::SilentFailure { elapsed_ms: 5 }),
        FileStep::Finish(Err(FileError::SilentFailure { elapsed_ms: 5 }))
    ));
    assert!(matches!(
        file_step(Verdict::EditorFailed { code: 9 }),
        FileStep::Finish(Err(FileError::EditorFailed { code: 9 }))
    ));
}

#[test]
fn stdin_errors_convert_to_file_errors() {
    let p = PathBuf::from("/x");
    assert!(matches!(FileError::from(ScissorsError::NoEditor), FileError::NoEditor));
    assert!(matches!(
        FileError::from(ScissorsError::EditorFailed { code: 4, draft_path: p.clone() }),
        FileError::EditorFailed { code: 4 }
    ));
    assert!(matches!(
        FileError::from(ScissorsError::SilentFailure { elapsed_ms: 12, draft_path: p }),
        FileError::SilentFailure { elapsed_ms: 12 }
    ));
    let io = std::io::Error::new(std::io::ErrorKind::Other, "boom");
    match FileError::from(ScissorsError::Io(io)) {
        FileError::Io(e) => assert_eq!(e.to_string(), "boom"),
        other => panic!("unexpected {other:?}"),
    }
}

#[test]
fn unchanged_crlf_content_returned_fast_is_a_silent_failure() {
    let raw = build_draft("a\r\nb", None);
    assert!(matches!(
        saved_draft_verdict(&raw, "a\r\nb", None, 10),
        Verdict::SilentFailure { elapsed_ms: 10 }
    ));
    match stdin_outcome(saved_draft_verdict(&raw, "a\r\nb", None, 10), PathBuf::from("/d")) {
        Err(ScissorsError::SilentFailure { elapsed_ms: 10, .. }) => {}
        other => panic!("unexpected {other:?}"),
    }
}

#[test]
fn unchanged_content_with_context_returned_fast_is_a_silent_failure() {
    let raw = build_draft("x\r\ny\n", Some("Issue #26 reply"));
    assert!(matches!(
        saved_draft_verdict(&raw, "x\r\ny\n", Some("Issue #26 reply"), 0),
        Verdict::SilentFailure { elapsed_ms: 0 }
    ));
}

#[test]
fn unchanged_crlf_content_returned_slowly_is_approved_normalised() {
    let raw = build_draft("a\r\nb", None);
    match saved_draft_verdict(&raw, "a\r\nb", None, 500) {
        Verdict::Approved(s) => assert_eq!(s, "a\nb"),
        other => panic!("unexpected {other:?}"),
    }
}

#[test]
fn only_approval_discards_the_draft() {
    assert!(!keeps_draft(&Verdict::Approved("x".to_string())));
    assert!(keeps_draft(&Verdict::Aborted));
    assert!(keeps_draft(&Verdict::SilentFailure { elapsed_ms: 1 }));
    assert!(keeps_draft(&Verdict::EditorFailed { code: 2 }));
}
