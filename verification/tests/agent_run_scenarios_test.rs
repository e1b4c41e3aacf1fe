//! Whole agent-run scenarios: the run's decisions driven step by step the way
//! the host drives them, with every durable effect written to a real store in
//! a temporary directory. The wire frames are the ones the library builds; no
//! process is started.

use faiden::agent::lines::{classify_line, LineAction, LineReader};
use faiden::agent::protocol::{
    method_not_found_response, parse_line, parse_permission_request, parse_session_update,
    permission_response, Incoming, PermissionDecision, ProtocolError, MAX_LINE_BYTES,
};
use faiden::agent::run_state::{
    conclude_turn, handshake_reply, InboundPermission, not_allowed_text, outcome_text, reply_error_text,
    stored_resolution, unrecorded_session_detail, user_entry, EntryUpdate, HandshakeStep,
    RunIdentity, RunState, TurnOutcome, WHY_DEADLINE, WHY_ENDING, WHY_SESSION_ENDED,
    WHY_TURN_CANCELLED,
};
use faiden::agent::runtime::{bound_body, bounded_summary, AgentEvent, AgentStatus};
use faiden::error::AppError;
use faiden::json::Json;
use faiden::store::{AgentMessageDraft, AgentPermissionResolution, NewSession, Store};
use tempfile::TempDir;

/// The offered options as the audit record keeps them.
fn options_text(options: &[faiden::agent::protocol::PermissionOption]) -> String {
    let items: Vec<String> = options
        .iter()
        .map(|o| {
            format!(
                "{{\"optionId\":{},\"name\":{},\"kind\":{}}}",
                serde_json::to_string(&o.option_id).unwrap(),
                serde_json::to_string(&o.name).unwrap(),
                serde_json::to_string(&o.kind).unwrap()
            )
        })
        .collect();
    format!("[{}]", items.join(","))
}

struct Host {
    _dir: TempDir,
    store: Store,
    state: RunState,
    events: Vec<AgentEvent>,
    thread_id: String,
    session_id: String,
    run_id: String,
}

impl Host {
    fn new() -> Host {
        let dir = TempDir::new().unwrap();
        let mut store = Store::open(dir.path().join("faiden.sqlite3").to_str().unwrap()).unwrap();
        let thread = store.create_thread("ACP thread").unwrap();
        let session = store
            .create_session(
                &thread.id,
                NewSession {
                    label: "Hermes session".into(),
                    kind: "hermes-acp".into(),
                    predecessor_id: None,
                    briefing: String::new(),
                },
            )
            .unwrap();
        Host::with(dir, store, thread.id, session.id, "agr_scenario")
    }

    fn with(dir: TempDir, mut store: Store, thread_id: String, session_id: String, run_id: &str) -> Host {
        store.start_agent_run(run_id, &session_id, "/usr/local/bin/hermes", Some("/tmp")).unwrap();
        let state = RunState::new(RunIdentity {
            run_id: run_id.to_string(),
            session_id: session_id.clone(),
            epoch: 1,
            pid: Some(4242),
            program: "/usr/local/bin/hermes".into(),
            source: "PATH entry /usr/local/bin".into(),
            cwd: "/tmp".into(),
            started_at: 1,
        });
        let mut host = Host {
            _dir: dir,
            store,
            state,
            events: Vec::new(),
            thread_id,
            session_id,
            run_id: run_id.to_string(),
        };
        let ev = host.state.set_status(AgentStatus::Connecting, None);
        host.emit(ev);
        host
    }

    fn emit(&mut self, ev: Option<AgentEvent>) {
        if let Some(ev) = ev {
            self.events.push(ev);
        }
    }

    fn record(&mut self, entry: &EntryUpdate) {
        let body = bound_body(&entry.body);
        let message = self
            .store
            .upsert_agent_message(
                &self.run_id,
                AgentMessageDraft {
                    key: &entry.key,
                    role: &entry.role,
                    turn: entry.turn,
                    body: &body,
                    detail: None,
                    status: entry.status.as_deref(),
                },
            )
            .unwrap();
        let ev = self.state.message_event(message);
        self.events.push(ev);
    }

    fn handshake(&mut self, session: &str) {
        self.store.record_acp_session_id(&self.run_id, session).unwrap();
        let ev = self.state.handshake_complete(session.to_string());
        self.emit(ev);
    }

    fn prompt(&mut self, text: &str) -> Result<u64, AppError> {
        let ticket = self.state.begin_prompt()?;
        self.record(&user_entry(ticket.turn, text, "sent"));
        let ev = self.state.set_status(AgentStatus::Responding, None);
        self.emit(ev);
        Ok(ticket.request_id)
    }

    fn update(&mut self, params: &str) {
        let update = parse_session_update(&Json::parse(params).unwrap()).unwrap();
        if let Some(entry) = self.state.apply_update(update) {
            self.record(&entry);
        }
    }

    fn finish(&mut self, outcome: TurnOutcome) {
        let turn = self.state.turn;
        self.state.finish_turn();
        for entry in self.state.turn_entries(turn) {
            self.record(&entry);
        }
        let c = conclude_turn(&outcome);
        let ev = self.state.set_status(c.status, Some(c.detail));
        self.emit(ev);
        if let Some(review) = c.review {
            self.review("agent-turn", &review);
        }
    }

    fn review(&mut self, kind: &str, summary: &str) {
        self.store
            .add_review_item(&self.thread_id, Some(&self.session_id), kind, &bounded_summary(summary))
            .unwrap();
    }

    /// The inbound permission path: refused, or recorded, installed and shown.
    fn ask_permission(&mut self, rpc_id: u64, params: &str) -> Result<String, String> {
        let request = parse_permission_request(&Json::parse(params).unwrap()).unwrap();
        let prompt = match self.state.screen_permission(&request, 10, 45_000) {
            InboundPermission::Record(prompt) => prompt,
            InboundPermission::Refuse { prompt, audit_cancelled } => {
                if audit_cancelled {
                    let recorded = self.store.record_permission_request(
                        &prompt.request_id,
                        &self.run_id,
                        &prompt.title,
                        &prompt.detail,
                        &options_text(&prompt.options),
                    );
                    if recorded.is_ok() {
                        self.store
                            .resolve_permission_request(&prompt.request_id, AgentPermissionResolution::Cancelled)
                            .unwrap();
                    }
                }
                return Err(permission_response(&Json::uint(rpc_id), PermissionDecision::Cancelled));
            }
            InboundPermission::Deny => {
                return Err(permission_response(&Json::uint(rpc_id), PermissionDecision::Cancelled));
            }
        };
        self.store
            .record_permission_request(
                &prompt.request_id,
                &self.run_id,
                &prompt.title,
                &prompt.detail,
                &options_text(&prompt.options),
            )
            .unwrap();
        let id = prompt.request_id.clone();
        let (_, shown) = self.state.install_permission(prompt, Json::uint(rpc_id));
        self.events.push(shown);
        let ev = self.state.set_status(AgentStatus::AwaitingPermission, None);
        self.emit(ev);
        Ok(id)
    }

    /// Answers the taken request; returns the wire frame.
    fn resolve(
        &mut self,
        pending: faiden::agent::run_state::PendingPermission,
        decision: PermissionDecision,
        why: &str,
    ) -> (String, Result<String, AppError>) {
        let audit = self
            .store
            .resolve_permission_request(&pending.prompt.request_id, stored_resolution(&decision))
            .map(|_| ());
        let r = self.state.resolve_taken(pending, decision, why, &audit);
        if let Some(review) = &r.review {
            let review = review.clone();
            self.review("agent-permission", &review);
        }
        self.events.push(r.resolved);
        self.emit(r.status);
        (r.frame, r.result)
    }

    /// A terminal path that won its claim: deny what is pending, end the run
    /// durably, publish the final status and `Ended`.
    fn settle(&mut self, outcome: String, status: AgentStatus) {
        if let Some(pending) = self.state.take_permission() {
            self.resolve(pending, PermissionDecision::Cancelled, WHY_SESSION_ENDED);
        }
        self.state.mark_ended(99);
        self.store.end_agent_run(&self.run_id, &outcome).unwrap();
        let (s, e) = self.state.settle_events(outcome, status);
        self.events.push(s);
        self.events.push(e);
    }

    fn statuses(&self) -> Vec<&'static str> {
        self.events
            .iter()
            .filter_map(|e| match e {
                AgentEvent::Status { status, .. } => Some(status.as_str()),
                _ => None,
            })
            .collect()
    }
}

const PERMISSION: &str = r#"{"sessionId":"fixture-session",
    "toolCall":{"toolCallId":"perm-check-1","title":"Run a command: rm -rf build","kind":"execute",
                "content":[{"type":"content","content":{"type":"text","text":"$ rm -rf build"}}]},
    "options":[{"optionId":"allow_once","name":"Allow once","kind":"allow_once"},
               {"optionId":"allow_always","name":"Allow always","kind":"allow_always"},
               {"optionId":"deny","name":"Deny","kind":"reject_once"}]}"#;

fn outcome_of(frame: &str) -> serde_json::Value {
    let v: serde_json::Value = serde_json::from_str(frame).unwrap();
    v["result"]["outcome"].clone()
}

fn is_cancelled(outcome: &serde_json::Value) -> bool {
    outcome["outcome"] == "cancelled" && outcome.as_object().unwrap().len() == 1
}

#[test]
fn a_live_process_is_only_connecting_until_initialize_and_session_new_both_answer() {
    let mut h = Host::new();
    assert_eq!(h.state.status, AgentStatus::Connecting);
    let init = Ok(Json::parse(r#"{"protocolVersion":1}"#).unwrap());
    assert_eq!(handshake_reply(HandshakeStep::Initialize, &init), Ok(None));
    assert_eq!(h.state.status, AgentStatus::Connecting, "initialize alone is not ready");
    h.handshake("fixture-session");
    assert_eq!(h.statuses(), vec!["connecting", "ready"]);
}

#[test]
fn a_failed_initialize_settles_the_run_as_error_rather_than_masquerading_as_ready() {
    let mut h = Host::new();
    let failed = Err(AppError::conflict(
        "AGENT_REJECTED",
        &reply_error_text(-32000, "no provider configured"),
    ));
    let detail = handshake_reply(HandshakeStep::Initialize, &failed).unwrap_err();
    assert!(h.state.claim_settlement_and_begin_closing());
    h.settle(outcome_text(&detail, "the agent process exited (exit status: 0)"), AgentStatus::Error);

    let info = h.state.info();
    assert_eq!(info.status, AgentStatus::Error);
    assert!(info.detail.unwrap().contains("no provider configured"));
    assert!(!h.statuses().contains(&"ready"));
    let stored = h.store.get_agent_run(&h.run_id).unwrap();
    assert!(stored.ended_at.is_some());
    assert!(stored.outcome.unwrap().contains("no provider configured"));
}

#[test]
fn a_failed_session_new_settles_the_run_as_error() {
    let mut h = Host::new();
    let failed = Err(AppError::conflict("AGENT_REJECTED", &reply_error_text(-32001, "cwd is not readable")));
    let detail = handshake_reply(HandshakeStep::SessionNew, &failed).unwrap_err();
    assert!(detail.starts_with("session/new failed: "));
    assert!(h.state.claim_settlement_and_begin_closing());
    h.settle(outcome_text(&detail, "the agent process was forcibly closed"), AgentStatus::Error);
    assert_eq!(h.state.status, AgentStatus::Error);
    assert!(h.state.detail.clone().unwrap().contains("cwd is not readable"));
}

#[test]
fn streamed_chunks_and_tool_updates_land_in_the_durable_transcript() {
    let mut h = Host::new();
    h.handshake("fixture-session");
    h.prompt("read the readme").unwrap();
    h.update(r#"{"sessionId":"fixture-session","update":{"sessionUpdate":"agent_message_chunk","content":{"type":"text","text":"Reading. "}}}"#);
    h.update(r#"{"sessionId":"fixture-session","update":{"sessionUpdate":"tool_call","toolCallId":"call-1","title":"Read README.md","kind":"read","status":"pending"}}"#);
    h.update(r#"{"sessionId":"fixture-session","update":{"sessionUpdate":"tool_call_update","toolCallId":"call-1","status":"completed","content":[{"type":"content","content":{"type":"text","text":"12 lines"}}]}}"#);
    h.update(r#"{"sessionId":"fixture-session","update":{"sessionUpdate":"agent_thought_chunk","content":{"type":"text","text":"internal"}}}"#);
    h.update(r#"{"sessionId":"fixture-session","update":{"sessionUpdate":"agent_message_chunk","content":{"type":"text","text":"Done."}}}"#);
    h.finish(TurnOutcome::Replied(Json::parse(r#"{"stopReason":"end_turn"}"#).unwrap()));
    assert_eq!(h.state.status, AgentStatus::TurnComplete);

    let (messages, truncated) = h.store.list_agent_messages(&h.run_id, 100).unwrap();
    assert!(!truncated);
    let roles: Vec<&str> = messages.iter().map(|m| m.role.as_str()).collect();
    assert_eq!(roles, vec!["user", "agent", "tool", "thought"]);
    let agent = messages.iter().find(|m| m.role == "agent").unwrap();
    assert_eq!(agent.body, "Reading. Done.", "chunks accumulate into one entry");
    assert_eq!(agent.status.as_deref(), Some("complete"));
    let tool = messages.iter().find(|m| m.role == "tool").unwrap();
    assert_eq!(tool.status.as_deref(), Some("completed"));
    assert!(tool.body.contains("Read README.md"), "got {}", tool.body);
    assert!(tool.body.contains("12 lines"), "got {}", tool.body);
}

#[test]
fn two_sessions_run_at_once_without_mixing_their_transcripts_or_processes() {
    let mut a = Host::new();
    let mut b = Host::new();
    a.handshake("session-a");
    b.handshake("session-b");
    a.prompt("to a").unwrap();
    b.prompt("to b").unwrap();
    a.update(r#"{"sessionId":"session-a","update":{"sessionUpdate":"agent_message_chunk","content":{"type":"text","text":"for a"}}}"#);
    // A frame naming the other run's session is not applied here.
    b.update(r#"{"sessionId":"session-a","update":{"sessionUpdate":"agent_message_chunk","content":{"type":"text","text":"for a"}}}"#);
    b.update(r#"{"sessionId":"session-b","update":{"sessionUpdate":"agent_message_chunk","content":{"type":"text","text":"for b"}}}"#);
    assert_eq!(a.state.agent_body, "for a");
    assert_eq!(b.state.agent_body, "for b");
    assert_eq!(b.state.unmatched_replies, 1);
}

#[test]
fn malformed_oversized_and_fragmented_lines_do_not_break_the_session() {
    let mut h = Host::new();
    h.handshake("fixture-session");
    h.prompt("go").unwrap();

    let mut reader = LineReader::new(MAX_LINE_BYTES);
    let mut stream: Vec<Vec<u8>> = vec![
        b"this is not json at all\n".to_vec(),
        b"{\"hello\":\"world\"}\n".to_vec(),
    ];
    let mut huge = vec![b'x'; 5 * 1024 * 1024];
    huge.push(b'\n');
    stream.push(huge);
    stream.push(b"{\"jsonrpc\":\"2.0\",\"method\":\"session/update\",\"params\":{\"sessionId\":\"fixture-session\",".to_vec());
    stream.push(b"\"update\":{\"sessionUpdate\":\"agent_message_chunk\",\"content\":".to_vec());
    stream.push(b"{\"type\":\"text\",\"text\":\"reassembled\"}}}}\n".to_vec());

    for chunk in stream {
        let mut rest: &[u8] = &chunk;
        while !rest.is_empty() {
            let (used, line) = reader.feed(rest);
            rest = &rest[used..];
            let Some((bytes, oversized)) = line else { continue };
            match classify_line(&bytes, oversized) {
                LineAction::Oversized => h.state.count_fault(&ProtocolError::Oversized { bytes: MAX_LINE_BYTES }),
                LineAction::Blank => {}
                LineAction::Text(text) => match parse_line(&text) {
                    Ok(Incoming::Notification { method, params }) => {
                        assert_eq!(method, "session/update");
                        let update = parse_session_update(&params).unwrap();
                        if let Some(entry) = h.state.apply_update(update) {
                            h.record(&entry);
                        }
                    }
                    Ok(other) => panic!("unexpected message {other:?}"),
                    Err(fault) => h.state.count_fault(&fault),
                },
            }
        }
    }
    h.finish(TurnOutcome::Replied(Json::parse(r#"{"stopReason":"end_turn"}"#).unwrap()));
    let (messages, _) = h.store.list_agent_messages(&h.run_id, 100).unwrap();
    let agent = messages.iter().find(|m| m.role == "agent").unwrap();
    assert_eq!(agent.body, "reassembled", "a frame split across writes is reassembled, not lost");
    assert!(h.state.diagnostics().protocol_faults >= 3);
    assert_eq!(h.state.status, AgentStatus::TurnComplete);
}

#[test]
fn a_denial_is_sent_as_acps_cancelled_outcome_and_recorded_as_such() {
    let mut h = Host::new();
    h.handshake("fixture-session");
    h.prompt("clean the build").unwrap();
    let request_id = h.ask_permission(500, PERMISSION).unwrap();
    let (pending, decision, why) = h.state.answer_permission(&request_id, None).unwrap();
    let (frame, result) = h.resolve(pending, decision, why);
    assert!(is_cancelled(&outcome_of(&frame)));
    assert_eq!(result.unwrap(), request_id);
    assert_eq!(
        h.store.get_permission_request(&request_id).unwrap().resolution.as_deref(),
        Some("cancelled")
    );
}

#[test]
fn cancelling_denies_a_pending_permission_instead_of_granting_it() {
    let mut h = Host::new();
    h.handshake("fixture-session");
    h.prompt("clean the build").unwrap();
    let request_id = h.ask_permission(500, PERMISSION).unwrap();
    let pending = h.state.take_permission().unwrap();
    let (frame, _) = h.resolve(pending, PermissionDecision::Cancelled, WHY_TURN_CANCELLED);
    assert!(is_cancelled(&outcome_of(&frame)), "cancelling must never escalate privilege");
    assert_eq!(
        h.store.get_permission_request(&request_id).unwrap().resolution.as_deref(),
        Some("cancelled")
    );
}

#[test]
fn a_client_request_for_a_capability_we_never_advertised_is_refused() {
    let answer: serde_json::Value =
        serde_json::from_str(&method_not_found_response(&Json::uint(77), "fs/read_text_file")).unwrap();
    assert_eq!(answer["id"], 77);
    assert_eq!(answer["error"]["code"], -32601);
    assert!(answer.get("result").is_none());
}

#[test]
fn the_child_dying_settles_the_run_as_disconnected_and_fails_the_open_turn() {
    let mut h = Host::new();
    h.handshake("fixture-session");
    h.prompt("go").unwrap();
    assert!(h.state.claim_settlement_and_begin_closing());
    h.settle(
        outcome_text("the agent session ended", "the agent process exited (exit status: 3)"),
        AgentStatus::Disconnected,
    );
    let info = h.state.info();
    assert_eq!(info.status, AgentStatus::Disconnected);
    assert!(!info.prompt_in_flight, "the open turn is not left hanging");
    // The turn's waiter wakes up to a failed reply and cannot repaint the run.
    h.finish(TurnOutcome::Failed("the agent session ended".into()));
    assert_eq!(h.state.status, AgentStatus::Disconnected);

    let outcome = h.store.get_agent_run(&h.run_id).unwrap().outcome.unwrap();
    assert!(outcome.to_lowercase().contains("exited"), "got {outcome}");
    assert!(!outcome.to_lowercase().contains("success"));
}

#[test]
fn stopping_closes_the_owned_child_and_records_why() {
    let mut h = Host::new();
    h.handshake("fixture-session");
    assert!(h.state.claim_settlement_and_begin_closing());
    h.settle(
        outcome_text("agent session stopped by you", "the agent process exited (exit status: 0)"),
        AgentStatus::Disconnected,
    );
    assert_eq!(h.state.status, AgentStatus::Disconnected);
    let outcome = h.store.get_agent_run(&h.run_id).unwrap().outcome.unwrap();
    assert!(outcome.contains("stopped"), "got {outcome}");
}

#[test]
fn quitting_leaves_no_orphaned_agent_children() {
    let mut a = Host::new();
    let mut b = Host::new();
    for h in [&mut a, &mut b] {
        h.handshake("fixture-session");
        assert!(h.state.claim_settlement_and_begin_closing());
        h.settle(
            outcome_text("agent session ended because Faiden quit", "the agent process exited (exit status: 0)"),
            AgentStatus::Disconnected,
        );
        let outcome = h.store.get_agent_run(&h.run_id).unwrap().outcome.unwrap();
        assert!(outcome.contains("Faiden quit"), "got {outcome}");
        assert!(!h.state.claim_settlement(), "a run is settled once");
    }
}

#[test]
fn a_snapshot_tells_a_subscriber_exactly_where_to_resume() {
    let mut h = Host::new();
    h.handshake("fixture-session");
    h.prompt("hello").unwrap();
    h.update(r#"{"sessionId":"fixture-session","update":{"sessionUpdate":"agent_message_chunk","content":{"type":"text","text":"hi"}}}"#);
    h.finish(TurnOutcome::Replied(Json::parse(r#"{"stopReason":"end_turn"}"#).unwrap()));
    let highest = h.events.iter().map(|e| e.seq()).max().unwrap();
    assert_eq!(h.state.next_seq, highest + 1, "everything already emitted is inside the snapshot");
    let seqs: Vec<u64> = h.events.iter().map(|e| e.seq()).collect();
    assert!(seqs.windows(2).all(|w| w[1] == w[0] + 1), "numbered in order: {seqs:?}");
    assert_eq!(h.state.info().epoch, 1);
}

#[test]
fn a_finished_turn_becomes_an_unseen_result_in_the_review_inbox() {
    let mut h = Host::new();
    h.handshake("fixture-session");
    h.prompt("summarise the plan").unwrap();
    h.finish(TurnOutcome::Replied(Json::parse(r#"{"stopReason":"end_turn"}"#).unwrap()));
    let items = h.store.list_review_items(&h.thread_id).unwrap();
    assert_eq!(items.len(), 1);
    assert_eq!(items[0].kind, "agent-turn");
    assert_eq!(items[0].session_id.as_deref(), Some(h.session_id.as_str()));
    assert!(items[0].summary.contains("end_turn"), "{}", items[0].summary);
    assert!(!items[0].summary.to_lowercase().contains("success"), "{}", items[0].summary);
    assert_eq!(items[0].seen_at, None, "a new result is unseen");
    assert_eq!(items[0].reviewed_at, None, "and certainly not reviewed");
}

#[test]
fn a_permission_that_faiden_had_to_deny_is_also_recorded_as_something_to_read() {
    let mut h = Host::new();
    h.handshake("fixture-session");
    h.prompt("clean the build").unwrap();
    let request_id = h.ask_permission(500, PERMISSION).unwrap();
    assert!(h.state.awaits(&request_id));
    let pending = h.state.take_permission().unwrap();
    h.resolve(pending, PermissionDecision::Cancelled, WHY_DEADLINE);
    let items = h.store.list_review_items(&h.thread_id).unwrap();
    let denial = items.iter().find(|i| i.kind == "agent-permission").expect("the denial is in the inbox");
    assert!(denial.summary.contains("not allowed"), "got {}", denial.summary);
    assert_eq!(denial.seen_at, None);
}

#[test]
fn a_permission_for_a_session_this_run_does_not_own_never_reaches_the_user() {
    let mut h = Host::new();
    h.handshake("fixture-session");
    h.prompt("do something").unwrap();
    let forged = PERMISSION.replace("\"sessionId\":\"fixture-session\"", "\"sessionId\":\"someone-else\"");
    let frame = h.ask_permission(900, &forged).unwrap_err();
    let answer: serde_json::Value = serde_json::from_str(&frame).unwrap();
    assert_eq!(answer["id"], 900);
    assert!(is_cancelled(&answer["result"]["outcome"]));
    assert!(!h.events.iter().any(|e| matches!(e, AgentEvent::Permission { .. })));
    assert!(h.state.permission.is_none());
    assert!(h.state.diagnostics().refused_requests >= 1);
}

#[test]
fn a_permission_with_no_turn_in_flight_is_refused_rather_than_shown() {
    let mut h = Host::new();
    h.handshake("fixture-session");
    let frame = h.ask_permission(700, PERMISSION).unwrap_err();
    assert!(is_cancelled(&outcome_of(&frame)), "nothing the user asked for is running");
    assert!(!h.events.iter().any(|e| matches!(e, AgentEvent::Permission { .. })));
}

#[test]
fn a_permission_that_arrives_after_the_run_settled_is_never_surfaced() {
    let mut h = Host::new();
    h.handshake("fixture-session");
    h.prompt("go").unwrap();
    assert!(h.state.claim_settlement_and_begin_closing());
    h.settle(outcome_text("agent session stopped by you", "gone"), AgentStatus::Disconnected);
    assert!(h.ask_permission(800, PERMISSION).is_err());
    assert!(!h.events.iter().any(|e| matches!(e, AgentEvent::Permission { .. })));
    match h.state.answer_permission("perm_anything", Some("allow_once")) {
        Err(AppError::Conflict { code, .. }) => assert_eq!(code, "PERMISSION_NOT_PENDING"),
        other => panic!("there is nothing to answer, got {other:?}"),
    }
}

#[test]
fn a_session_id_that_cannot_be_recorded_does_not_become_a_ready_session() {
    let mut h = Host::new();
    let reply = Ok(Json::parse(r#"{"sessionId":"   "}"#).unwrap());
    let session_id = handshake_reply(HandshakeStep::SessionNew, &reply).unwrap().unwrap();
    let refused = h.store.record_acp_session_id(&h.run_id, &session_id).unwrap_err();
    let detail = unrecorded_session_detail(&refused.message());
    assert!(detail.starts_with("session/new answered, but its session id could not be recorded"));
    assert!(h.state.claim_settlement_and_begin_closing());
    h.settle(outcome_text(&detail, "gone"), AgentStatus::Error);

    assert!(!h.statuses().contains(&"ready"));
    assert_eq!(h.state.info().acp_session_id, None);
    assert_eq!(h.store.get_agent_run(&h.run_id).unwrap().acp_session_id, None);
    match h.state.begin_prompt() {
        Err(AppError::Conflict { .. }) => {}
        other => panic!("a run that never got a session cannot be prompted, got {other:?}"),
    }
}

#[test]
fn a_permission_answered_while_ending_is_recorded_as_closed_and_filed() {
    let mut h = Host::new();
    h.handshake("fixture-session");
    h.prompt("clean the build").unwrap();
    let request_id = h.ask_permission(500, PERMISSION).unwrap();
    assert!(h.state.claim_settlement_and_begin_closing());
    let (pending, decision, why) = h.state.answer_permission(&request_id, Some("allow_once")).unwrap();
    assert_eq!(why, WHY_ENDING);
    let (frame, _) = h.resolve(pending, decision, why);
    assert!(is_cancelled(&outcome_of(&frame)));
    assert_eq!(
        h.store.get_permission_request(&request_id).unwrap().resolution.as_deref(),
        Some("cancelled"),
        "a stale allow is never durable as selected"
    );
    let items = h.store.list_review_items(&h.thread_id).unwrap();
    assert_eq!(items[0].summary, not_allowed_text(WHY_ENDING, "Run a command: rm -rf build"));
}

#[test]
fn a_chunk_that_arrives_after_the_turn_ended_is_not_attributed_to_it() {
    let mut h = Host::new();
    h.handshake("fixture-session");
    h.prompt("go").unwrap();
    h.update(r#"{"sessionId":"fixture-session","update":{"sessionUpdate":"agent_message_chunk","content":{"type":"text","text":"during the turn"}}}"#);
    h.finish(TurnOutcome::Replied(Json::parse(r#"{"stopReason":"end_turn"}"#).unwrap()));
    h.update(r#"{"sessionId":"fixture-session","update":{"sessionUpdate":"agent_message_chunk","content":{"type":"text","text":" AFTER THE TURN"}}}"#);
    assert!(h.state.diagnostics().unattributed_updates >= 1);

    let (messages, _) = h.store.list_agent_messages(&h.run_id, 100).unwrap();
    let agent = messages.iter().find(|m| m.role == "agent").unwrap();
    assert_eq!(agent.body, "during the turn", "a completed turn is not repainted");
    assert_eq!(agent.status.as_deref(), Some("complete"));
    assert_eq!(h.state.status, AgentStatus::TurnComplete);
}

#[test]
fn replies_are_matched_by_id_and_a_reply_to_an_unknown_id_is_dropped() {
    let mut h = Host::new();
    // `initialize` and `session/new` take the first two ids; both are settled.
    let initialize_id = h.state.next_request_id();
    let session_new_id = h.state.next_request_id();
    assert_eq!((initialize_id, session_new_id), (1, 2));
    h.handshake("fixture-session");
    let prompt_id = h.prompt("hi").unwrap();
    // The ids with a waiter: only the prompt in flight.
    let waiting: Vec<u64> = vec![prompt_id];
    let frames = [
        r#"{"jsonrpc":"2.0","id":99999,"result":{"stopReason":"end_turn"}}"#,
        r#"{"jsonrpc":"2.0","id":1,"result":{"protocolVersion":1}}"#,
        r#"{"jsonrpc":"2.0","method":"session/update","params":{"sessionId":"fixture-session","update":{"sessionUpdate":"agent_message_chunk","content":{"type":"text","text":"still here"}}}}"#,
    ];
    for frame in frames {
        match parse_line(frame).unwrap() {
            Incoming::Response { id, .. } => {
                let known = id.as_u64().map(|n| waiting.contains(&n)).unwrap_or(false);
                assert!(!known, "neither stale id has a waiter");
                h.state.note_unmatched_reply();
            }
            Incoming::Notification { params, .. } => {
                let update = parse_session_update(&params).unwrap();
                if let Some(entry) = h.state.apply_update(update) {
                    h.record(&entry);
                }
            }
            other => panic!("unexpected message {other:?}"),
        }
    }
    h.finish(TurnOutcome::Replied(Json::parse(r#"{"stopReason":"end_turn"}"#).unwrap()));
    assert_eq!(h.state.status, AgentStatus::TurnComplete);
    let (messages, _) = h.store.list_agent_messages(&h.run_id, 100).unwrap();
    let agent = messages.iter().find(|m| m.role == "agent").unwrap();
    assert_eq!(agent.body, "still here");
    assert_eq!(h.state.diagnostics().unmatched_replies, 2, "stale replies are counted, never applied");
}

#[test]
fn an_inbound_permission_is_screened_before_anything_is_recorded() {
    let mut h = Host::new();
    h.handshake("fixture-session");
    h.prompt("go").unwrap();
    let request = parse_permission_request(&Json::parse(PERMISSION).unwrap()).unwrap();
    // A deadline past what a timestamp can hold is denied outright.
    assert!(matches!(h.state.screen_permission(&request, i64::MAX, 1), InboundPermission::Deny));
    // An answerable request becomes a prompt to record, changing nothing yet.
    match h.state.screen_permission(&request, 10, 45_000) {
        InboundPermission::Record(prompt) => {
            assert!(prompt.request_id.starts_with("perm_"));
            assert_eq!(prompt.expires_at, 45_010);
        }
        other => panic!("expected a prompt to record, got {other:?}"),
    }
    assert_eq!(h.state.refused_requests, 0);
    // Once the run is ending, the request is refused, counted and audited.
    h.state.closing = true;
    match h.state.screen_permission(&request, 10, 45_000) {
        InboundPermission::Refuse { audit_cancelled, .. } => assert!(audit_cancelled),
        other => panic!("expected a refusal, got {other:?}"),
    }
    assert_eq!(h.state.refused_requests, 1);
}
