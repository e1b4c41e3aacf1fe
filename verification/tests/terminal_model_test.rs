use faiden::terminal::{
    exit_outcome, split_bounded, validate_dims, ExitInfo, OutputState, Utf8Decoder,
    MAX_EVENT_CHARS, RETAINED_OUTPUT_CHARS,
};

#[test]
fn decoder_holds_back_a_split_codepoint() {
    let mut d = Utf8Decoder::new();
    let bytes = "🧵".as_bytes(); // f0 9f a7 b5
    assert_eq!(
        d.push(&bytes[..2]),
        "",
        "an incomplete sequence emits nothing"
    );
    assert_eq!(d.push(&bytes[2..3]), "");
    assert_eq!(d.push(&bytes[3..]), "🧵", "completed on the next read");
}

#[test]
fn decoder_emits_the_valid_prefix_immediately() {
    let mut d = Utf8Decoder::new();
    let mut bytes = b"ok:".to_vec();
    bytes.extend_from_slice(&"é".as_bytes()[..1]);
    assert_eq!(d.push(&bytes), "ok:");
    assert_eq!(d.push(&"é".as_bytes()[1..]), "é");
}

#[test]
fn decoder_substitutes_genuinely_invalid_bytes() {
    let mut d = Utf8Decoder::new();
    assert_eq!(d.push(&[b'a', 0xC0, 0xC0, b'b']), "a\u{FFFD}\u{FFFD}b");
}

#[test]
fn ring_buffer_drops_from_the_front_on_character_boundaries() {
    let mut s = OutputState::new();
    s.push(&"🧵".repeat(RETAINED_OUTPUT_CHARS));
    assert!(!s.truncated());
    s.push("tail");
    assert!(s.truncated());
    let text = s.text();
    assert_eq!(text.chars().count(), RETAINED_OUTPUT_CHARS);
    assert!(text.ends_with("tail"));
    assert!(
        !text.contains('\u{FFFD}'),
        "never split a codepoint when trimming"
    );
}

#[test]
fn sequence_numbers_start_at_one_and_never_repeat() {
    let mut s = OutputState::new();
    assert_eq!(s.take_seq(), 1);
    assert_eq!(s.take_seq(), 2);
    assert_eq!(s.next_seq(), 3);
}

#[test]
fn split_bounded_respects_the_event_cap() {
    let pieces = split_bounded(&"x".repeat(MAX_EVENT_CHARS * 2 + 5), MAX_EVENT_CHARS);
    assert_eq!(pieces.len(), 3);
    assert_eq!(pieces[0].chars().count(), MAX_EVENT_CHARS);
    assert_eq!(pieces[2].chars().count(), 5);
    assert!(split_bounded("", MAX_EVENT_CHARS).is_empty());
}

#[test]
fn scrollback_within_the_bound_is_kept_whole_and_untruncated() {
    let mut s = OutputState::new();
    s.push("hello ");
    s.push("world");
    assert_eq!(s.text(), "hello world");
    assert!(!s.truncated());
}

#[test]
fn a_split_piece_never_breaks_a_character() {
    let pieces = split_bounded("ééé", 2);
    assert_eq!(pieces, vec!["éé".to_string(), "é".to_string()]);
}

#[test]
fn dimensions_outside_the_bounds_are_refused() {
    assert!(validate_dims(80, 24).is_ok());
    assert!(validate_dims(1, 1000).is_ok());
    let err = validate_dims(0, 24).unwrap_err();
    assert_eq!(err.code(), "VALIDATION");
    assert!(validate_dims(80, 1001).is_err());
}

#[test]
fn an_exit_is_recorded_with_its_code_and_the_os_description() {
    let outcome = exit_outcome(&ExitInfo {
        exit_code: 3,
        success: false,
        description: "Exited with code 3".to_string(),
        at: 0,
    });
    assert_eq!(outcome, "terminal process exited with code 3 (Exited with code 3)");
    assert!(!outcome.to_lowercase().contains("success"), "got {outcome}");
}

#[test]
fn the_decoder_carries_a_partial_sequence_across_many_reads() {
    let mut d = Utf8Decoder::new();
    let text = "añ🧵z";
    let mut out = String::new();
    for b in text.as_bytes() {
        out.push_str(&d.push(std::slice::from_ref(b)));
    }
    assert_eq!(out, text);
}

use faiden::error::AppError;
use faiden::terminal::{
    already_running, capacity_for_hint, check_start, check_write, command_label, returned_len,
    terminal_gone, TerminalLife, TerminalSpec, MAX_WRITE_CHARS,
};

fn spec(session: &str, cwd: Option<&str>, command: Option<Vec<&str>>) -> TerminalSpec {
    TerminalSpec {
        session_id: session.to_string(),
        cwd: cwd.map(|c| c.to_string()),
        command: command.map(|v| v.into_iter().map(|s| s.to_string()).collect()),
        cols: 80,
        rows: 24,
    }
}

#[test]
fn capacity_treats_the_hint_as_a_pid_count_not_a_byte_count() {
    assert_eq!(capacity_for_hint(1_000), 1_128);
}

#[test]
fn returned_len_keeps_every_pid_the_kernel_wrote_beyond_the_old_quarter() {
    assert_eq!(returned_len(378, 378), 378);
}

#[test]
fn returned_len_never_exceeds_the_allocated_capacity() {
    assert_eq!(returned_len(5_000, 378), 378);
}

#[test]
fn returned_len_treats_a_failed_call_as_empty() {
    assert_eq!(returned_len(-1, 378), 0);
    assert_eq!(returned_len(0, 378), 0);
}

#[test]
fn a_negative_hint_still_leaves_headroom() {
    assert_eq!(capacity_for_hint(-5), 128);
    assert_eq!(capacity_for_hint(0), 128);
}

#[test]
fn a_start_is_checked_before_anything_spawns() {
    let ok = check_start(&spec("ses_1", Some("/tmp"), None), |p| p == "/tmp");
    assert_eq!(ok.unwrap(), Some("/tmp".to_string()));
    assert_eq!(check_start(&spec("ses_1", None, None), |_| false).unwrap(), None);

    match check_start(&spec("  ", None, None), |_| true) {
        Err(AppError::Validation { field, .. }) => assert_eq!(field, "session_id"),
        other => panic!("a blank session must be refused, got {other:?}"),
    }
    match check_start(&spec("ses_1", Some("relative"), None), |_| true) {
        Err(AppError::Validation { field, message }) => {
            assert_eq!(field, "cwd");
            assert_eq!(message, "must be an absolute path");
        }
        other => panic!("a relative cwd must be refused, got {other:?}"),
    }
    match check_start(&spec("ses_1", Some("/not-created"), None), |_| false) {
        Err(AppError::Validation { field, message }) => {
            assert_eq!(field, "cwd");
            assert_eq!(message, "/not-created is not an existing directory");
        }
        other => panic!("a missing cwd must be refused, got {other:?}"),
    }
    match check_start(&spec("ses_1", None, Some(vec![])), |_| true) {
        Err(AppError::Validation { field, .. }) => assert_eq!(field, "command"),
        other => panic!("an empty argv must be refused, got {other:?}"),
    }
    let mut wide = spec("ses_1", None, None);
    wide.cols = 5000;
    assert!(check_start(&wide, |_| true).is_err());
}

#[test]
fn a_command_is_labelled_by_its_argv() {
    let argv = vec!["/bin/sh".to_string(), "-c".to_string(), "exit 3".to_string()];
    assert_eq!(command_label(&argv), "/bin/sh -c exit 3");
}

#[test]
fn an_oversized_write_is_refused() {
    assert!(check_write(&"a".repeat(MAX_WRITE_CHARS)).is_ok());
    match check_write(&"a".repeat(MAX_WRITE_CHARS + 1)) {
        Err(AppError::Validation { field, .. }) => assert_eq!(field, "data"),
        other => panic!("oversized write must be rejected, got {other:?}"),
    }
}

#[test]
fn refusals_name_the_terminal_and_its_state() {
    match already_running("session-abc", "term_1") {
        AppError::Conflict { code, message } => {
            assert_eq!(code, "TERMINAL_ALREADY_RUNNING");
            assert_eq!(message, "session session-abc already has a running terminal (term_1)");
        }
        other => panic!("expected a conflict, got {other:?}"),
    }
    match terminal_gone("term_1", "has exited") {
        AppError::Conflict { code, message } => {
            assert_eq!(code, "TERMINAL_EXITED");
            assert_eq!(message, "terminal term_1 has exited");
        }
        other => panic!("expected a conflict, got {other:?}"),
    }
}

#[test]
fn a_terminal_is_killed_once_and_its_exit_is_kept() {
    let mut life = TerminalLife::new();
    assert!(life.running);
    assert!(life.claim_kill(), "the first caller pays the kill");
    assert!(!life.claim_kill(), "later callers do not signal again");
    let exit = ExitInfo {
        exit_code: 0,
        success: true,
        description: "Exited".to_string(),
        at: 5,
    };
    life.record_exit(exit.clone());
    assert!(!life.running);
    assert_eq!(life.exit, Some(exit));

    let mut exited = TerminalLife::new();
    exited.record_exit(ExitInfo {
        exit_code: 1,
        success: false,
        description: "x".to_string(),
        at: 1,
    });
    assert!(!exited.claim_kill(), "an exited terminal is not killed");
}

#[test]
fn a_usable_login_shell_is_preferred_and_started_as_a_login_shell() {
    let argv = faiden::terminal::default_shell_argv(Some("/opt/fish"), |p| p == "/opt/fish");
    assert_eq!(argv, vec!["/opt/fish".to_string(), "-l".to_string()]);
}

#[test]
fn an_unusable_login_shell_falls_back_in_order() {
    let bash_only = |p: &str| p == "/bin/bash";
    assert_eq!(
        faiden::terminal::default_shell_argv(Some("fish"), bash_only),
        vec!["/bin/bash".to_string(), "-l".to_string()]
    );
    assert_eq!(
        faiden::terminal::default_shell_argv(Some("/opt/missing"), |p| p == "/bin/zsh" || p == "/bin/sh"),
        vec!["/bin/zsh".to_string(), "-l".to_string()]
    );
    assert_eq!(
        faiden::terminal::default_shell_argv(None, |_| false),
        vec!["/bin/sh".to_string(), "-l".to_string()]
    );
}

#[test]
fn a_chunk_longer_than_the_bound_keeps_only_its_own_tail() {
    let mut s = OutputState::new();
    s.push("old output");
    let mut chunk = "x".repeat(RETAINED_OUTPUT_CHARS);
    chunk.push_str("end");
    s.push(&chunk);
    let text = s.text();
    assert_eq!(text.chars().count(), RETAINED_OUTPUT_CHARS);
    assert!(text.ends_with("xend"));
    assert!(!text.contains("old"));
    assert!(s.truncated());
}

#[test]
fn valid_text_split_anywhere_into_three_chunks_decodes_exactly() {
    let text = "héllo 🧵 wörld";
    let bytes = text.as_bytes();
    for a in 0..=bytes.len() {
        for b in a..=bytes.len() {
            let mut d = Utf8Decoder::new();
            let mut out = String::new();
            out.push_str(&d.push(&bytes[..a]));
            out.push_str(&d.push(&bytes[a..b]));
            out.push_str(&d.push(&bytes[b..]));
            assert_eq!(out, text, "split at {a} and {b}");
            assert!(!d.has_pending(), "nothing is held back after the last chunk");
        }
    }
}
