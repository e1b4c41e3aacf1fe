//! The root decisions of the command surface, and the store's pure rules.

use faiden::agent::locate::Lookup;
use faiden::error::AppError;
use faiden::json::Json;
use faiden::store::{
    compose_handoff_text, new_id, validate_text, AgentPermissionResolution, Session, Thread,
    HANDOFF_DISCLOSURE,
};
use faiden::{resolve_agent_cwd_for_thread, resolve_terminal_cwd, AgentAvailability};

fn thread(workdir: Option<&str>) -> Thread {
    Thread {
        id: "thr_1".into(),
        title: "Flaky test hunt".into(),
        notes: "  ".into(),
        workdir: workdir.map(|w| w.to_string()),
        created_at: 0,
        updated_at: 0,
        seen_at: None,
        reviewed_at: None,
    }
}

fn session(ended: bool) -> Session {
    Session {
        id: "ses_1".into(),
        thread_id: "thr_1".into(),
        label: "Shell session".into(),
        kind: "shell".into(),
        predecessor_id: None,
        briefing: "Goal: reproduce.".into(),
        created_at: 0,
        ended_at: if ended { Some(1) } else { None },
        outcome: None,
    }
}

#[test]
fn a_terminal_starts_in_the_threads_directory_and_never_for_an_ended_session() {
    assert_eq!(
        resolve_terminal_cwd(&session(false), &thread(Some("/work"))).unwrap(),
        Some("/work".to_string())
    );
    assert_eq!(resolve_terminal_cwd(&session(false), &thread(None)).unwrap(), None);
    match resolve_terminal_cwd(&session(true), &thread(Some("/work"))) {
        Err(AppError::Conflict { code, message }) => {
            assert_eq!(code, "SESSION_ENDED");
            assert_eq!(message, "session ses_1 has already ended; start a new session");
        }
        other => panic!("expected SESSION_ENDED, got {other:?}"),
    }
}

#[test]
fn an_agent_directory_is_labelled_with_its_provenance() {
    let bound = resolve_agent_cwd_for_thread(&thread(Some("/work")), Some("/home/u"), |_| true).unwrap();
    assert_eq!(bound.path, "/work");
    assert!(bound.label.starts_with("/work — the directory bound to this thread."));
    let home = resolve_agent_cwd_for_thread(&thread(None), Some("/home/u"), |_| true).unwrap();
    assert_eq!(home.path, "/home/u");
    assert!(home.label.contains("your home directory"));
    match resolve_agent_cwd_for_thread(&thread(Some("/gone")), None, |_| false) {
        Err(AppError::Validation { field, message }) => {
            assert_eq!(field, "cwd");
            assert_eq!(message, "/gone is not an existing directory");
        }
        other => panic!("expected a validation error, got {other:?}"),
    }
}

#[test]
fn availability_names_the_program_and_its_source() {
    let report = AgentAvailability::probe(
        &Lookup { path_var: Some("/opt/x".into()), home: None },
        |p| p == "/opt/x/hermes",
    );
    assert!(report.installed);
    assert_eq!(report.program.as_deref(), Some("/opt/x/hermes"));
    assert_eq!(
        report.message,
        "Hermes found at /opt/x/hermes (PATH entry /opt/x). Faiden starts it as `hermes acp`."
    );
}

#[test]
fn text_bounds_are_counted_in_characters_and_name_the_field() {
    assert_eq!(validate_text("title", "  hi  ", 1, 10, true).unwrap(), "hi");
    assert_eq!(validate_text("notes", "  hi  ", 0, 10, false).unwrap(), "  hi  ");
    match validate_text("title", "   ", 1, 10, true) {
        Err(AppError::Validation { field, message }) => {
            assert_eq!(field, "title");
            assert_eq!(message, "must not be blank");
        }
        other => panic!("expected blank refusal, got {other:?}"),
    }
    match validate_text("kind", "ééé", 1, 2, true) {
        Err(AppError::Validation { message, .. }) => {
            assert_eq!(message, "must be at most 2 characters (got 3)")
        }
        other => panic!("expected a length refusal, got {other:?}"),
    }
    match validate_text("x", "a", 2, 5, true) {
        Err(AppError::Validation { message, .. }) => {
            assert_eq!(message, "must be at least 2 characters")
        }
        other => panic!("expected a length refusal, got {other:?}"),
    }
}

#[test]
fn identifiers_carry_their_prefix_and_a_fresh_uuid() {
    let a = new_id("thr");
    let b = new_id("thr");
    assert!(a.starts_with("thr_"));
    assert_eq!(a.len(), 36);
    assert!(a[4..].chars().all(|c| c.is_ascii_hexdigit() && !c.is_ascii_uppercase()));
    assert_ne!(a, b);
}

#[test]
fn a_resolution_is_stored_in_acps_vocabulary() {
    assert_eq!(
        AgentPermissionResolution::Selected { option_id: "allow_once".into() }.as_record(),
        "selected:allow_once"
    );
    assert_eq!(AgentPermissionResolution::Cancelled.as_record(), "cancelled");
}

#[test]
fn a_handoff_draft_states_what_it_is_and_fills_in_placeholders() {
    let text = compose_handoff_text(&thread(None), Some(&session(false)), 0);
    assert!(text.starts_with("# Handoff draft — Flaky test hunt\nGenerated 1970-01-01T00:00:00Z (UTC)\n\n"));
    assert!(text.contains(HANDOFF_DISCLOSURE));
    assert!(text.contains("## Thread notes\n(no notes recorded)"));
    assert!(text.contains("Shell session (shell), started 1970-01-01T00:00:00Z (UTC), id ses_1\n\nGoal: reproduce."));
    assert!(text.contains("No directory bound to this thread."));
    assert!(text.ends_with("- Active work still running:\n"));
    let fresh = compose_handoff_text(&thread(Some("/w")), None, 0);
    assert!(fresh.contains("(none — this draft starts a new line of work)"));
    assert!(fresh.contains("Directory selected for this thread: /w\nProvenance: user selection recorded in Faiden."));
}

#[test]
fn json_text_round_trips_through_the_encoder() {
    let v = Json::parse(r#"{"a":[1,-2,"x\n\"y\""],"b":null,"c":true}"#).unwrap();
    assert_eq!(v.to_text(), r#"{"a":[1,-2,"x\n\"y\""],"b":null,"c":true}"#);
    assert!(Json::parse("{").is_none());
}
