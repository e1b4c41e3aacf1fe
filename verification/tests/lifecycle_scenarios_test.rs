//! The authority boundary around starting a terminal, and the durable session
//! lifecycle a terminal's end leaves behind: the store and the library's
//! decisions composed the way the host composes them, over a temporary
//! database. No process is started.

use faiden::error::AppError;
use faiden::store::{NewSession, Session, Store};
use faiden::terminal::{
    already_running, check_start, check_write, exit_outcome, terminal_gone, validate_dims,
    ExitInfo, OutputState, TerminalSpec, Utf8Decoder, MAX_EVENT_CHARS, MAX_WRITE_CHARS,
    OUTCOME_QUIT, RETAINED_OUTPUT_CHARS,
};
use faiden::{resolve_terminal_cwd, terminal::split_bounded};
use tempfile::TempDir;

fn temp_store() -> (TempDir, Store) {
    let dir = TempDir::new().unwrap();
    let store = Store::open(dir.path().join("faiden.sqlite3").to_str().unwrap()).unwrap();
    (dir, store)
}

fn shell_session(store: &mut Store, thread_id: &str) -> Session {
    store
        .create_session(
            thread_id,
            NewSession {
                label: "Shell session".into(),
                kind: "shell".into(),
                predecessor_id: None,
                briefing: String::new(),
            },
        )
        .unwrap()
}

/// What the host does with the session a terminal start names.
fn terminal_cwd(store: &mut Store, session_id: &str) -> Result<Option<String>, AppError> {
    let session = store.get_session(session_id)?;
    let thread = store.get_thread(&session.thread_id)?;
    resolve_terminal_cwd(&session, &thread)
}

fn exit(code: u32, description: &str) -> ExitInfo {
    ExitInfo { exit_code: code, success: code == 0, description: description.into(), at: 1 }
}

#[test]
fn a_forged_session_id_can_never_start_a_terminal() {
    let (_d, mut store) = temp_store();
    match terminal_cwd(&mut store, "ses_invented_by_the_webview") {
        Err(AppError::NotFound { entity, .. }) => assert_eq!(entity, "session"),
        other => panic!("an unknown session must fail closed, got {other:?}"),
    }
}

#[test]
fn a_session_that_has_already_ended_cannot_start_another_terminal() {
    let (_d, mut store) = temp_store();
    let thread = store.create_thread("Ended").unwrap();
    let s = shell_session(&mut store, &thread.id);
    store.end_session(&s.id, "terminal process exited with code 0").unwrap();
    match terminal_cwd(&mut store, &s.id) {
        Err(AppError::Conflict { code, .. }) => assert_eq!(code, "SESSION_ENDED"),
        other => panic!("an ended session must not accept a new terminal, got {other:?}"),
    }
}

#[test]
fn a_natural_exit_ends_the_session_with_a_factual_outcome() {
    let (_d, mut store) = temp_store();
    let thread = store.create_thread("Natural exit").unwrap();
    let s = shell_session(&mut store, &thread.id);
    store.start_terminal_run("term_natural", &s.id).unwrap();
    store.end_terminal_run("term_natural", &exit_outcome(&exit(3, "exit status: 3"))).unwrap();

    let ended = store.get_session(&s.id).unwrap();
    assert!(ended.ended_at.is_some(), "a terminal exiting ends the session it belonged to");
    let outcome = ended.outcome.unwrap();
    assert!(outcome.contains("code 3"), "the recorded outcome states the real exit code, got: {outcome}");
    assert!(!outcome.to_lowercase().contains("success"), "got: {outcome}");
}

#[test]
fn closing_a_terminal_ends_its_session_before_close_returns() {
    let (_d, mut store) = temp_store();
    let thread = store.create_thread("Close").unwrap();
    let s = shell_session(&mut store, &thread.id);
    store.start_terminal_run("term_close", &s.id).unwrap();
    assert_eq!(store.get_session(&s.id).unwrap().ended_at, None);
    // The waiter records the killed child's end durably before publishing it,
    // which is what close waits for.
    store
        .end_terminal_run("term_close", &exit_outcome(&exit(1, "Terminated by Killed")))
        .unwrap();
    let after = store.get_session(&s.id).unwrap();
    assert!(after.ended_at.is_some(), "close does not return before the end is recorded");
    assert!(after.outcome.is_some());
}

#[test]
fn quitting_records_why_a_live_terminal_ended_and_leaves_a_real_exit_alone() {
    let (_d, mut store) = temp_store();
    let thread = store.create_thread("Quit").unwrap();
    let live = shell_session(&mut store, &thread.id);
    let finished = shell_session(&mut store, &thread.id);
    store.start_terminal_run("term_done", &finished.id).unwrap();
    store.start_terminal_run("term_live", &live.id).unwrap();
    store.end_terminal_run("term_done", &exit_outcome(&exit(0, "exit status: 0"))).unwrap();

    // The quit path records its reason for the live terminal first; the
    // killed child's own end arrives after and is not allowed to replace it.
    store.end_terminal_run("term_live", OUTCOME_QUIT).unwrap();
    store
        .end_terminal_run("term_live", &exit_outcome(&exit(1, "Terminated by Killed")))
        .unwrap();

    let live_outcome = store.get_session(&live.id).unwrap().outcome.unwrap();
    assert!(live_outcome.to_lowercase().contains("quit"), "{live_outcome}");
    let finished_outcome = store.get_session(&finished.id).unwrap().outcome.unwrap();
    assert!(finished_outcome.contains("code 0"), "{finished_outcome}");
    assert!(!finished_outcome.to_lowercase().contains("quit"), "{finished_outcome}");
}

#[test]
fn a_session_interrupted_by_an_abnormal_exit_is_unknown_after_restart_not_live() {
    let dir = TempDir::new().unwrap();
    let path = dir.path().join("faiden.sqlite3");
    let session_id = {
        let mut store = Store::open(path.to_str().unwrap()).unwrap();
        let thread = store.create_thread("Crash").unwrap();
        let s = shell_session(&mut store, &thread.id);
        store.start_terminal_run("term_crash", &s.id).unwrap();
        s.id
    };
    let mut store = Store::open(path.to_str().unwrap()).unwrap();
    assert_eq!(store.get_session(&session_id).unwrap().ended_at, None);
    assert_eq!(store.reconcile_interrupted_runs().unwrap(), 1);
    let after = store.get_session(&session_id).unwrap();
    assert!(after.ended_at.is_some());
    let outcome = after.outcome.unwrap();
    assert!(outcome.to_lowercase().contains("unknown"), "got: {outcome}");
}

#[test]
fn writing_to_unknown_exited_or_closed_terminals_fails_closed() {
    match terminal_gone("term_1", "has already exited") {
        AppError::Conflict { code, message } => {
            assert_eq!(code, "TERMINAL_EXITED");
            assert_eq!(message, "terminal term_1 has already exited");
        }
        other => panic!("writing to an exited terminal must fail closed, got {other:?}"),
    }
    match terminal_gone("term_1", "is closed") {
        AppError::Conflict { code, .. } => assert_eq!(code, "TERMINAL_EXITED"),
        other => panic!("closed terminal must fail closed, got {other:?}"),
    }
}

#[test]
fn a_session_cannot_own_two_live_terminals_but_may_start_a_new_one_after_close() {
    match already_running("session-abc", "term_1") {
        AppError::Conflict { code, .. } => assert_eq!(code, "TERMINAL_ALREADY_RUNNING"),
        other => panic!("duplicate start must be rejected, got {other:?}"),
    }
}

#[test]
fn resize_enforces_bounds_and_never_touches_an_unknown_terminal() {
    assert!(validate_dims(120, 40).is_ok(), "a sane resize is accepted");
    for (cols, rows) in [(0u16, 24u16), (80, 0), (5000, 24), (80, 5000)] {
        match validate_dims(cols, rows) {
            Err(AppError::Validation { field, .. }) => {
                assert!(field == "cols" || field == "rows", "unexpected field {field}")
            }
            other => panic!("resize {cols}x{rows} must be rejected, got {other:?}"),
        }
    }
}

#[test]
fn a_missing_working_directory_is_rejected_before_anything_spawns() {
    let spec = TerminalSpec {
        session_id: "ses_1".into(),
        cwd: Some("/tmp/not-created".into()),
        command: Some(vec!["true".into()]),
        cols: 80,
        rows: 24,
    };
    match check_start(&spec, |_| false) {
        Err(AppError::Validation { field, .. }) => assert_eq!(field, "cwd"),
        other => panic!("a missing cwd must be rejected, got {other:?}"),
    }
}

#[test]
fn oversized_writes_are_rejected_rather_than_forwarded() {
    match check_write(&"a".repeat(MAX_WRITE_CHARS + 1)) {
        Err(AppError::Validation { field, .. }) => assert_eq!(field, "data"),
        other => panic!("oversized write must be rejected, got {other:?}"),
    }
}

#[test]
fn retained_output_is_bounded_and_reports_truncation() {
    let mut out = OutputState::new();
    let bytes: usize = RETAINED_OUTPUT_CHARS + 50_000;
    for piece in split_bounded(&"a".repeat(bytes), MAX_EVENT_CHARS) {
        out.push(&piece);
        out.take_seq();
    }
    let retained: usize = out.text().chars().count();
    assert!(retained <= RETAINED_OUTPUT_CHARS, "retained scrollback is capped, got {retained} chars");
    assert!(out.truncated(), "the user is told that earlier output was dropped");
}

#[test]
fn multibyte_output_survives_read_boundaries_without_replacement_characters() {
    let stream = "🧵".repeat(4000);
    let bytes = stream.as_bytes();
    let mut decoder = Utf8Decoder::new();
    let mut out = String::new();
    let mut largest: usize = 0;
    for read in bytes.chunks(1021) {
        let text = decoder.push(read);
        for piece in split_bounded(&text, MAX_EVENT_CHARS) {
            largest = largest.max(piece.chars().count());
            out.push_str(&piece);
        }
    }
    assert!(!out.contains('\u{FFFD}'), "no replacement characters: a codepoint was split across reads");
    assert_eq!(out, stream, "every character arrives exactly once");
    assert!(largest <= MAX_EVENT_CHARS, "each IPC payload stays bounded ({largest} chars)");
}

#[test]
fn snapshot_replays_scrollback_and_tells_the_subscriber_where_to_resume() {
    let mut out = OutputState::new();
    let mut seqs = Vec::new();
    for piece in ["a", "b", "c"] {
        out.push(piece);
        seqs.push(out.take_seq());
    }
    assert_eq!(out.text(), "abc");
    assert!(!out.truncated(), "short output is not truncated");
    assert!(seqs.windows(2).all(|w| w[0] < w[1]), "sequence numbers are strictly increasing: {seqs:?}");
    assert_eq!(out.next_seq(), seqs.last().unwrap() + 1, "snapshot equals the events it supersedes");
}
