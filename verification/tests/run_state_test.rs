//! The decisions of one agent run, driven the way the host drives them.

use faiden::agent::lines::{classify_line, LineAction, LineReader};
use faiden::agent::protocol::{
    parse_permission_request, PermissionDecision, ProtocolError, SessionUpdate, TranscriptDelta,
};
use faiden::agent::run_state::{
    conclude_turn, handshake_reply, HandshakeStep, RunIdentity, RunState, TurnOutcome,
    ANSWERED_BY_USER, WHY_DEADLINE, WHY_ENDING,
};
use faiden::agent::runtime::{AgentEvent, AgentStatus, ToolEntry, bound_body, MAX_STDERR_LINES};
use faiden::error::AppError;
use faiden::json::Json;
use faiden::store::LIMIT_AGENT_BODY_CHARS;

fn ident() -> RunIdentity {
    RunIdentity {
        run_id: "agr_1".to_string(),
        session_id: "ses_1".to_string(),
        epoch: 7,
        pid: Some(42),
        program: "/usr/local/bin/hermes".to_string(),
        source: "PATH entry /usr/local/bin".to_string(),
        cwd: "/work".to_string(),
        started_at: 1_000,
    }
}

fn ready_state() -> RunState {
    let mut s = RunState::new(ident());
    s.handshake_complete("acp-1".to_string());
    s
}

fn update(session: &str, delta: TranscriptDelta) -> SessionUpdate {
    SessionUpdate { session_id: session.to_string(), delta }
}

fn permission_request() -> faiden::agent::protocol::PermissionRequest {
    parse_permission_request(
        &Json::parse(
            r#"{"sessionId":"acp-1","toolCall":{"toolCallId":"t1","title":"Run rm"},
                "options":[{"optionId":"allow_once","name":"Allow once","kind":"allow_once"},
                           {"optionId":"deny","name":"Deny","kind":"reject_once"}]}"#,
        )
        .unwrap(),
    )
    .unwrap()
}

#[test]
fn a_new_run_is_connecting_and_numbers_from_one() {
    let mut s = RunState::new(ident());
    assert_eq!(s.status, AgentStatus::Connecting);
    assert_eq!(s.take_seq(), 1);
    assert_eq!(s.next_request_id(), 1);
    assert_eq!(s.next_request_id(), 2);
    let info = s.info();
    assert_eq!(info.status.as_str(), "connecting");
    assert_eq!(info.acp_session_id, None);
    assert!(info.disclosure.contains("not a sandbox"));
}

#[test]
fn the_handshake_reaches_ready_and_records_the_agents_own_session_id() {
    let mut s = RunState::new(ident());
    let ev = s.handshake_complete("acp-1".to_string()).unwrap();
    match ev {
        AgentEvent::Status { run_id, epoch, seq, status, detail } => {
            assert_eq!(run_id, "agr_1");
            assert_eq!(epoch, 7);
            assert_eq!(seq, 1);
            assert_eq!(status, AgentStatus::Ready);
            assert_eq!(detail, None);
        }
        other => panic!("expected a status event, got {other:?}"),
    }
    assert_eq!(s.acp_session_id.as_deref(), Some("acp-1"));
}

#[test]
fn a_prompt_before_the_session_exists_is_refused_rather_than_queued() {
    let mut s = RunState::new(ident());
    match s.begin_prompt() {
        Err(AppError::Conflict { code, .. }) => assert_eq!(code, "AGENT_NOT_READY"),
        other => panic!("expected AGENT_NOT_READY, got {other:?}"),
    }
    assert!(!s.prompt_in_flight);
    assert_eq!(s.turn, 0);
}

#[test]
fn only_one_prompt_at_a_time_so_a_slow_turn_cannot_be_double_submitted() {
    let mut s = ready_state();
    let ticket = s.begin_prompt().unwrap();
    assert_eq!(ticket.turn, 1);
    assert_eq!(ticket.session_id, "acp-1");
    assert_eq!(ticket.request_id, 1);
    match s.begin_prompt() {
        Err(AppError::Conflict { code, message }) => {
            assert_eq!(code, "AGENT_BUSY");
            assert!(message.contains("nothing was sent"));
        }
        other => panic!("expected AGENT_BUSY, got {other:?}"),
    }
    assert_eq!(s.turn, 1);
}

#[test]
fn an_ended_run_takes_no_prompt() {
    let mut s = ready_state();
    assert!(s.claim_settlement_and_begin_closing());
    match s.begin_prompt() {
        Err(AppError::Conflict { code, .. }) => assert_eq!(code, "AGENT_DISCONNECTED"),
        other => panic!("expected AGENT_DISCONNECTED, got {other:?}"),
    }
}

#[test]
fn streamed_chunks_accumulate_in_the_turns_entry() {
    let mut s = ready_state();
    s.begin_prompt().unwrap();
    let first = s
        .apply_update(update("acp-1", TranscriptDelta::AgentMessage { text: "Hel".into() }))
        .unwrap();
    assert_eq!(first.key, "agent:1");
    assert_eq!(first.body, "Hel");
    assert_eq!(first.status.as_deref(), Some("streaming"));
    let second = s
        .apply_update(update("acp-1", TranscriptDelta::AgentMessage { text: "lo".into() }))
        .unwrap();
    assert_eq!(second.body, "Hello");

    let thought = s
        .apply_update(update("acp-1", TranscriptDelta::Thought { text: "hmm".into() }))
        .unwrap();
    assert_eq!(thought.key, "thought:1");
    assert_eq!(thought.role, "thought");

    s.finish_turn();
    let entries = s.turn_entries(1);
    assert_eq!(entries.len(), 2);
    assert_eq!(entries[0].key, "agent:1");
    assert_eq!(entries[0].body, "Hello");
    assert_eq!(entries[0].status.as_deref(), Some("complete"));
    assert_eq!(entries[1].key, "thought:1");
}

#[test]
fn tool_updates_fill_in_one_entry_per_tool_call() {
    let mut s = ready_state();
    s.begin_prompt().unwrap();
    let start = s
        .apply_update(update(
            "acp-1",
            TranscriptDelta::ToolCall {
                tool_call_id: "call-1".into(),
                title: Some("Read src/main.rs".into()),
                kind: Some("read".into()),
                status: Some("pending".into()),
                content: String::new(),
            },
        ))
        .unwrap();
    assert_eq!(start.key, "tool:call-1");
    assert_eq!(start.body, "Read src/main.rs [read]");
    assert_eq!(start.status.as_deref(), Some("pending"));

    let done = s
        .apply_update(update(
            "acp-1",
            TranscriptDelta::ToolCall {
                tool_call_id: "call-1".into(),
                title: None,
                kind: None,
                status: Some("completed".into()),
                content: "42 lines".into(),
            },
        ))
        .unwrap();
    assert_eq!(done.body, "Read src/main.rs [read]\n42 lines");
    assert_eq!(done.status.as_deref(), Some("completed"));
    assert_eq!(s.tools.len(), 1);
}

#[test]
fn an_update_with_no_turn_in_flight_is_counted_not_applied() {
    let mut s = ready_state();
    assert!(s
        .apply_update(update("acp-1", TranscriptDelta::AgentMessage { text: "late".into() }))
        .is_none());
    assert_eq!(s.unattributed_updates, 1);
    assert_eq!(s.agent_body, "");
    let diagnostics = s.diagnostics();
    assert_eq!(
        diagnostics.stderr_tail,
        "dropped a session/update that arrived with no turn in flight"
    );
}

#[test]
fn an_update_for_a_session_this_run_does_not_own_is_not_applied() {
    let mut s = ready_state();
    s.begin_prompt().unwrap();
    assert!(s
        .apply_update(update("acp-other", TranscriptDelta::AgentMessage { text: "x".into() }))
        .is_none());
    assert_eq!(s.unmatched_replies, 1);
    assert_eq!(s.agent_body, "");
}

#[test]
fn a_permission_is_refused_without_a_turn_or_for_a_foreign_session() {
    let s = ready_state();
    assert_eq!(
        s.refusal_reason("acp-1").as_deref(),
        Some("no turn is in flight, so there is nothing to approve")
    );
    let fresh = RunState::new(ident());
    assert_eq!(
        fresh.refusal_reason("acp-1").as_deref(),
        Some("no ACP session has been created for this run")
    );
    let mut busy = ready_state();
    busy.begin_prompt().unwrap();
    assert_eq!(
        busy.refusal_reason("acp-2").as_deref(),
        Some("it names ACP session acp-2, which this run does not own")
    );
    assert_eq!(busy.refusal_reason("acp-1"), None);
    busy.claim_settlement();
    assert_eq!(
        busy.refusal_reason("acp-1").as_deref(),
        Some("the agent session is ending or has already ended")
    );
}

#[test]
fn a_permission_request_is_surfaced_verbatim_and_only_an_offered_option_can_be_chosen() {
    let mut s = ready_state();
    s.begin_prompt().unwrap();
    let prompt = s.permission_prompt(&permission_request(), 5_000, 45_000);
    assert!(prompt.request_id.starts_with("perm_"));
    assert_eq!(prompt.request_id.len(), "perm_".len() + 32);
    assert_eq!(prompt.expires_at, 50_000);
    let request_id = prompt.request_id.clone();
    let (previous, ev) = s.install_permission(prompt, Json::uint(9));
    assert!(previous.is_none());
    assert!(matches!(ev, AgentEvent::Permission { .. }));
    s.set_status(AgentStatus::AwaitingPermission, None);

    match s.answer_permission(&request_id, Some("allow_always")) {
        Err(AppError::Validation { field, message }) => {
            assert_eq!(field, "optionId");
            assert_eq!(message, "the agent did not offer an option called allow_always");
        }
        other => panic!("an option the agent never offered must be refused, got {other:?}"),
    }
    assert!(s.awaits(&request_id), "a refused answer leaves the request pending");

    match s.answer_permission("perm_other", None) {
        Err(AppError::Conflict { code, .. }) => assert_eq!(code, "PERMISSION_NOT_PENDING"),
        other => panic!("expected PERMISSION_NOT_PENDING, got {other:?}"),
    }

    let (pending, decision, why) = s.answer_permission(&request_id, Some("allow_once")).unwrap();
    assert_eq!(why, ANSWERED_BY_USER);
    let resolution = s.resolve_taken(pending, decision, why, &Ok(()));
    assert_eq!(
        resolution.decision,
        PermissionDecision::Selected { option_id: "allow_once".into() }
    );
    let frame: serde_json::Value = serde_json::from_str(&resolution.frame).unwrap();
    assert_eq!(frame["id"], 9);
    assert_eq!(frame["result"]["outcome"]["outcome"], "selected");
    assert!(resolution.review.is_none(), "the user answered it themselves");
    match resolution.resolved {
        AgentEvent::PermissionResolved { resolution, .. } => {
            assert_eq!(resolution, "selected:allow_once (answered by you)")
        }
        other => panic!("expected a resolution event, got {other:?}"),
    }
    match resolution.status {
        Some(AgentEvent::Status { status, .. }) => assert_eq!(status, AgentStatus::Responding),
        other => panic!("a waiting run goes back to responding, got {other:?}"),
    }
    assert_eq!(resolution.result.unwrap(), request_id);
    assert!(!s.awaits(&request_id));
}

#[test]
fn an_allow_is_never_sent_unless_its_audit_row_was_committed() {
    let mut s = ready_state();
    s.begin_prompt().unwrap();
    let prompt = s.permission_prompt(&permission_request(), 0, 1);
    let request_id = prompt.request_id.clone();
    s.install_permission(prompt, Json::uint(3));
    let (pending, decision, why) = s.answer_permission(&request_id, Some("allow_once")).unwrap();
    let audit = Err(AppError::internal("sqlite: disk I/O error"));
    let resolution = s.resolve_taken(pending, decision, why, &audit);
    assert_eq!(resolution.decision, PermissionDecision::Cancelled);
    let frame: serde_json::Value = serde_json::from_str(&resolution.frame).unwrap();
    assert_eq!(frame["result"]["outcome"]["outcome"], "cancelled");
    assert_eq!(
        resolution.review.as_deref(),
        Some("Answered \"not allowed\" without you (the approval could not be recorded: sqlite: disk I/O error): Run rm")
    );
    match resolution.result {
        Err(AppError::Conflict { code, message }) => {
            assert_eq!(code, "PERMISSION_NOT_RECORDED");
            assert!(message.contains("not allowed"));
        }
        other => panic!("expected PERMISSION_NOT_RECORDED, got {other:?}"),
    }
}

#[test]
fn an_unanswered_permission_request_fails_closed_on_our_own_deadline() {
    let mut s = ready_state();
    s.begin_prompt().unwrap();
    let prompt = s.permission_prompt(&permission_request(), 0, 1);
    s.install_permission(prompt, Json::uint(3));
    let pending = s.take_permission().unwrap();
    let resolution = s.resolve_taken(pending, PermissionDecision::Cancelled, WHY_DEADLINE, &Ok(()));
    assert_eq!(resolution.decision, PermissionDecision::Cancelled);
    assert_eq!(
        resolution.review.as_deref(),
        Some("Answered \"not allowed\" without you (no answer within Faiden's permission deadline): Run rm")
    );
}

#[test]
fn a_stale_allow_after_shutdown_began_is_cancelled_on_wire_and_in_audit() {
    let mut s = ready_state();
    s.begin_prompt().unwrap();
    let prompt = s.permission_prompt(&permission_request(), 0, 1);
    let request_id = prompt.request_id.clone();
    s.install_permission(prompt, Json::uint(3));
    assert!(s.claim_settlement_and_begin_closing());
    let (pending, decision, why) = s.answer_permission(&request_id, Some("allow_once")).unwrap();
    assert_eq!(decision, PermissionDecision::Cancelled);
    assert_eq!(why, WHY_ENDING);
    let resolution = s.resolve_taken(pending, decision, why, &Ok(()));
    let frame: serde_json::Value = serde_json::from_str(&resolution.frame).unwrap();
    assert_eq!(frame["result"]["outcome"]["outcome"], "cancelled");
    assert_eq!(frame["result"]["outcome"].as_object().unwrap().len(), 1);
    match resolution.resolved {
        AgentEvent::PermissionResolved { resolution, .. } => {
            assert_eq!(resolution, "cancelled (the agent session was ending)")
        }
        other => panic!("expected a resolution event, got {other:?}"),
    }
}

#[test]
fn a_second_request_replaces_and_hands_back_the_first_to_be_denied() {
    let mut s = ready_state();
    s.begin_prompt().unwrap();
    let first = s.permission_prompt(&permission_request(), 0, 1);
    let first_id = first.request_id.clone();
    s.install_permission(first, Json::uint(1));
    let second = s.permission_prompt(&permission_request(), 0, 1);
    let (previous, _) = s.install_permission(second, Json::uint(2));
    assert_eq!(previous.unwrap().prompt.request_id, first_id);
    assert!(!s.awaits(&first_id));
}

#[test]
fn the_first_claimant_wins_and_a_settled_status_is_frozen() {
    let mut s = ready_state();
    assert!(s.claim_settlement());
    assert!(!s.claim_settlement());
    assert!(!s.claim_settlement_and_begin_closing());
    s.mark_ended(9_000);
    let (status, ended) = s.settle_events("the agent session ended — gone".into(), AgentStatus::Disconnected);
    assert!(matches!(status, AgentEvent::Status { status: AgentStatus::Disconnected, .. }));
    assert!(matches!(ended, AgentEvent::Ended { .. }));
    assert!(status.seq() < ended.seq());
    assert!(s.set_status(AgentStatus::Responding, None).is_none());
    assert_eq!(s.status, AgentStatus::Disconnected);
    assert_eq!(s.info().ended_at, Some(9_000));
}

#[test]
fn cancel_sends_the_notification_and_does_not_pretend_the_turn_finished() {
    let mut s = ready_state();
    assert_eq!(s.cancel_target().unwrap(), "acp-1");
    assert!(s.mark_cancelling().is_none());
    s.begin_prompt().unwrap();
    assert!(s.mark_cancelling().is_some());
    assert_eq!(s.status, AgentStatus::Cancelling);
    assert_eq!(
        s.detail.as_deref(),
        Some("Cancel sent. The agent has not reported the turn as over yet.")
    );
    assert!(s.prompt_in_flight, "sending a cancel is not the turn being over");
    let frame: serde_json::Value =
        serde_json::from_str(&faiden::agent::protocol::session_cancel_notification("acp-1")).unwrap();
    assert_eq!(frame["method"], "session/cancel");
    assert_eq!(frame["params"]["sessionId"], "acp-1");
    assert!(frame.get("id").is_none(), "cancel is a notification");
    match RunState::new(ident()).cancel_target() {
        Err(AppError::Conflict { code, .. }) => assert_eq!(code, "AGENT_NOT_READY"),
        other => panic!("expected AGENT_NOT_READY, got {other:?}"),
    }
}

#[test]
fn a_finished_turn_reports_its_literal_stop_reason_and_claims_nothing_more() {
    let reply = Json::parse(r#"{"stopReason":"end_turn"}"#).unwrap();
    let c = conclude_turn(&TurnOutcome::Replied(reply));
    assert_eq!(c.status, AgentStatus::TurnComplete);
    assert_eq!(
        c.detail,
        "Turn ended (end_turn) — the agent stopped producing output for this turn. This is not a claim that the task succeeded."
    );
    assert_eq!(
        c.review.as_deref(),
        Some("Hermes turn ended (end_turn). Read the transcript — Faiden makes no claim about whether the work is correct.")
    );

    let odd = conclude_turn(&TurnOutcome::Replied(Json::parse("{}").unwrap()));
    assert!(odd.detail.starts_with("Turn ended (unknown)"));

    let failed = conclude_turn(&TurnOutcome::Failed("boom".into()));
    assert_eq!(failed.status, AgentStatus::Error);
    assert_eq!(failed.detail, "the turn failed: boom");
    assert!(failed.review.is_none());

    let silent = conclude_turn(&TurnOutcome::NoAnswer);
    assert_eq!(silent.detail, "the agent never answered this turn within 21600s");
}

#[test]
fn an_agent_speaking_another_protocol_version_is_refused_rather_than_used() {
    let two = Ok(Json::parse(r#"{"protocolVersion":2}"#).unwrap());
    assert_eq!(
        handshake_reply(HandshakeStep::Initialize, &two).unwrap_err(),
        "the agent answered initialize with protocol version 2; Faiden implements version 1, so no version was agreed"
    );
    let one = Ok(Json::parse(r#"{"protocolVersion":1}"#).unwrap());
    assert_eq!(handshake_reply(HandshakeStep::Initialize, &one), Ok(None));
    let none = Ok(Json::parse("{}").unwrap());
    assert!(handshake_reply(HandshakeStep::Initialize, &none)
        .unwrap_err()
        .contains("without a protocolVersion"));
    let session = Ok(Json::parse(r#"{"sessionId":"s-9"}"#).unwrap());
    assert_eq!(
        handshake_reply(HandshakeStep::SessionNew, &session),
        Ok(Some("s-9".to_string()))
    );
    let failed = Err(AppError::conflict("AGENT_TIMEOUT", "no answer"));
    assert_eq!(
        handshake_reply(HandshakeStep::SessionNew, &failed).unwrap_err(),
        "session/new failed: no answer"
    );
}

#[test]
fn the_stderr_tail_keeps_only_the_newest_lines() {
    let mut s = RunState::new(ident());
    for i in 0..(MAX_STDERR_LINES + 5) {
        s.push_stderr(&format!("line {i}"));
    }
    assert_eq!(s.stderr_tail.len(), MAX_STDERR_LINES);
    assert_eq!(s.stderr_tail.front().unwrap(), "line 5");
    s.count_fault(&ProtocolError::Malformed("oops".into()));
    assert_eq!(s.protocol_faults, 1);
    assert!(s.diagnostics().stderr_tail.ends_with("protocol fault: malformed protocol line: oops"));
}

#[test]
fn lines_are_framed_across_reads_and_oversized_ones_are_flagged() {
    let mut r = LineReader::new(8);
    assert_eq!(r.feed(b"abc"), (3, None));
    let (used, line) = r.feed(b"de\nrest");
    assert_eq!(used, 3);
    assert_eq!(line, Some((b"abcde".to_vec(), false)));
    assert_eq!(r.feed(b"0123456789\n"), (11, Some((Vec::new(), true))));
    assert_eq!(r.feed(b"tail"), (4, None));
    assert_eq!(r.finish(), Some((b"tail".to_vec(), false)));
    assert_eq!(r.finish(), None);
}

#[test]
fn blank_lines_are_skipped_and_invalid_bytes_are_replaced() {
    assert!(matches!(classify_line(b" \t\r", false), LineAction::Blank));
    assert!(matches!(classify_line(b"{}", true), LineAction::Oversized));
    match classify_line(&[b'{', 0xFF, b'}', 0xE2, 0x82], false) {
        LineAction::Text(t) => assert_eq!(t, "{\u{FFFD}}\u{FFFD}"),
        other => panic!("expected text, got {other:?}"),
    }
}

#[test]
fn an_over_long_body_keeps_its_newest_text_under_the_limit() {
    let body = "a".repeat(LIMIT_AGENT_BODY_CHARS) + "zz";
    let bounded = bound_body(&body);
    assert!(bounded.chars().count() <= LIMIT_AGENT_BODY_CHARS);
    assert!(bounded.starts_with("[earlier output dropped"));
    assert!(bounded.ends_with("zz"));
    assert_eq!(bound_body("short"), "short");
}

#[test]
fn a_tool_entry_without_a_title_is_named_tool_call() {
    let e = ToolEntry { title: None, kind: None, status: None, content: "  ".into() };
    assert_eq!(e.body(), "Tool call");
}
