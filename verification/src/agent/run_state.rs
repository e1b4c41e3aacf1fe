//! Every decision made about one agent run, as transitions of its state.
//!
//! The host owns the child process, its pipes, the reply slots and the store,
//! and holds one lock around a [`RunState`]. Each method here is one decision
//! taken under that lock: it changes the state and hands back what the host
//! must then do — events to publish, frames to write, transcript entries to
//! persist. Nothing here performs IO.
//!
//! The state keeps a well-formedness invariant ([`RunState::wf`]) that every
//! transition preserves; among other things it says that no status describing
//! a live ACP session is ever reached before `session/new` has answered.

use vstd::prelude::*;
use std::collections::VecDeque;
use crate::agent::protocol::{
    PermissionDecision, PermissionOption, PermissionRequest, ProtocolError, SessionUpdate, StopReason,
    TranscriptDelta,
    permission_response, permission_response_model, protocol_error_text, stop_reason_detail,
};
use crate::agent::runtime::{
    AgentDiagnostics, AgentEvent, AgentRunInfo, AgentStatus, PermissionPrompt, ToolEntry, tool_body,
    AUTHORITY_DISCLOSURE, MAX_STDERR_LINES, MAX_STDERR_LINE_CHARS, needs_session, bound_body,
    bounded_body,
};
use crate::error::{AppError, error_message, is_conflict_error, is_validation_error};
use crate::json::{Json, JsonModel, json_written, model_as_str, model_as_u64, model_get, str_eq};
use crate::store::{AgentMessage, AgentPermissionResolution, resolution_record, new_id, is_simple_uuid};
use crate::text::{decimal, push_decimal, push_signed, signed_decimal};

verus! {

/// What a run is, fixed when it starts.
#[derive(Debug, Clone)]
pub struct RunIdentity {
    pub run_id: String,
    pub session_id: String,
    pub epoch: u64,
    pub pid: Option<u32>,
    pub program: String,
    pub source: String,
    pub cwd: String,
    pub started_at: i64,
}

/// A permission request awaiting an answer, with the agent's JSON-RPC id kept
/// native-side only.
#[derive(Debug)]
pub struct PendingPermission {
    pub prompt: PermissionPrompt,
    pub rpc_id: Json,
}

/// The mutable state of one agent run.
#[derive(Debug)]
pub struct RunState {
    pub ident: RunIdentity,
    pub status: AgentStatus,
    pub detail: Option<String>,
    pub acp_session_id: Option<String>,
    pub prompt_in_flight: bool,
    /// Set the moment a shutdown begins, before the child is torn down. Frames
    /// already buffered in the pipe keep arriving in between, and none of them
    /// may become something the user is asked to approve.
    pub closing: bool,
    /// The terminal path that got to claim settlement first. Separate from
    /// `ended_at`: claiming happens before a claimant tears a child down, while
    /// `ended_at` is only written once its durable outcome is ready.
    pub settlement_claimed: bool,
    pub ended_at: Option<i64>,
    pub next_seq: u64,
    pub next_request_id: u64,
    pub turn: i64,
    pub agent_body: String,
    pub thought_body: String,
    /// Tool calls of the current run, keyed by tool call id (no id twice).
    pub tools: Vec<(String, ToolEntry)>,
    pub unmatched_replies: u64,
    pub protocol_faults: u64,
    pub refused_requests: u64,
    pub unattributed_updates: u64,
    pub stderr_tail: VecDeque<String>,
    /// The one permission request awaiting an answer, if any.
    pub permission: Option<PendingPermission>,
}

/// The `Status` event a run publishes.
pub open spec fn status_event(
    ident: RunIdentity,
    seq: u64,
    status: AgentStatus,
    detail: Option<String>,
) -> AgentEvent {
    AgentEvent::Status { run_id: ident.run_id, epoch: ident.epoch, seq, status, detail }
}

/// The views of a sequence of strings.
pub open spec fn texts(s: Seq<String>) -> Seq<Seq<char>> {
    s.map_values(|t: String| t@)
}

/// The newest `n` items of `s`.
pub open spec fn keep_last<A>(s: Seq<A>, n: nat) -> Seq<A> {
    if s.len() > n {
        s.skip(s.len() - n)
    } else {
        s
    }
}

/// The stderr tail after `line` arrives: the line cut to its first
/// `MAX_STDERR_LINE_CHARS` characters, and only the newest `MAX_STDERR_LINES`
/// lines kept.
pub open spec fn stderr_after(tail: Seq<Seq<char>>, line: Seq<char>) -> Seq<Seq<char>> {
    let cut = if line.len() <= MAX_STDERR_LINE_CHARS {
        line
    } else {
        line.take(MAX_STDERR_LINE_CHARS as int)
    };
    keep_last(tail.push(cut), MAX_STDERR_LINES as nat)
}

/// Lines joined by newlines.
pub open spec fn joined(s: Seq<Seq<char>>) -> Seq<char>
    decreases s.len(),
{
    if s.len() == 0 {
        Seq::empty()
    } else if s.len() == 1 {
        s[0]
    } else {
        joined(s.drop_last()) + "\n"@ + s.last()
    }
}

pub fn clone_text(o: &Option<String>) -> (r: Option<String>)
    ensures
        r == *o,
{
    match o {
        Some(s) => Some(s.clone()),
        None => None,
    }
}


/// What a turn that has just begun is sent with.
#[derive(Debug)]
pub struct PromptTicket {
    pub session_id: String,
    pub turn: i64,
    pub request_id: u64,
}

/// A transcript entry to persist: the store upserts it by `key`. The body is
/// already bounded.
#[derive(Debug, Clone)]
pub struct EntryUpdate {
    pub key: String,
    pub role: String,
    pub turn: i64,
    pub body: String,
    pub status: Option<String>,
}

pub const NOT_READY_TO_PROMPT: &'static str =
    "this agent session has not finished starting; nothing was sent";
pub const ENDED_NOTHING_SENT: &'static str = "this agent session has ended; start a new one";
pub const BUSY_NOTHING_SENT: &'static str =
    "this agent is still working on the previous message; nothing was sent";
pub const NOTHING_TO_CANCEL: &'static str =
    "this agent session has not started; there is nothing to cancel";
pub const CANCEL_SENT: &'static str = "Cancel sent. The agent has not reported the turn as over yet.";

pub open spec fn opt_text(o: Option<String>) -> Option<Seq<char>> {
    match o {
        Some(s) => Some(s@),
        None => None,
    }
}

/// The entry key `{prefix}{turn}`.
pub open spec fn keyed(prefix: Seq<char>, turn: i64) -> Seq<char> {
    prefix + signed_decimal(turn as int)
}

/// `e` is the entry `key`/`role`/`turn` with `body` bounded and `status`.
pub open spec fn entry_is(
    e: EntryUpdate,
    key: Seq<char>,
    role: Seq<char>,
    turn: i64,
    body: Seq<char>,
    status: Option<Seq<char>>,
) -> bool {
    &&& e.key@ == key
    &&& e.role@ == role
    &&& e.turn == turn
    &&& e.body@ == bounded_body(body)
    &&& opt_text(e.status) == status
}

/// Why a permission request must be refused without asking the user.
pub open spec fn refusal_text(s: RunState, claimed: Seq<char>) -> Option<Seq<char>> {
    if s.ending() {
        Some("the agent session is ending or has already ended"@)
    } else {
        match s.acp_session_id {
            None => Some("no ACP session has been created for this run"@),
            Some(ours) => if ours@ != claimed {
                Some("it names ACP session "@ + claimed + ", which this run does not own"@)
            } else if s.prompt_in_flight {
                None
            } else {
                Some("no turn is in flight, so there is nothing to approve"@)
            },
        }
    }
}

/// `p` is the prompt made for `request` in run `s`, at `created_at`, expiring
/// `permission_ms` later, under a fresh id `perm_{uuid}`.
pub open spec fn prompt_for(s: RunState, request: PermissionRequest, created_at: i64, permission_ms: u64, p: PermissionPrompt) -> bool {
    &&& exists|u: Seq<char>| is_simple_uuid(u) && p.request_id@ == "perm_"@ + u
    &&& p.run_id == s.ident.run_id
    &&& p.tool_call_id == request.tool_call_id
    &&& p.title == request.title
    &&& p.detail == request.detail
    &&& p.options@ == request.options@
    &&& p.created_at == created_at
    &&& p.expires_at == created_at + permission_ms
}

/// The deadline of a prompt made at `created_at` cannot be represented.
pub open spec fn deadline_overflows(created_at: i64, permission_ms: u64) -> bool {
    permission_ms > i64::MAX || created_at + permission_ms > i64::MAX
}

/// What becomes of a permission request the agent sends.
#[derive(Debug)]
pub enum InboundPermission {
    /// Its deadline cannot be represented: answered "not allowed" at once.
    Deny,
    /// Refused without asking the user, and answered "not allowed". When the
    /// run was ending, `prompt` is kept as an audit row resolved "cancelled".
    Refuse { prompt: PermissionPrompt, audit_cancelled: bool },
    /// To be recorded; once recorded it is installed and shown, and if it
    /// cannot be recorded it is answered "not allowed".
    Record(PermissionPrompt),
}

/// A transcript entry keyed `{prefix}{turn}`.
pub fn entry(prefix: &str, turn: i64, role: &str, body: &str, status: Option<&str>) -> (e:
    EntryUpdate)
    ensures
        entry_is(
            e,
            keyed(prefix@, turn),
            role@,
            turn,
            body@,
            match status {
                Some(s) => Some(s@),
                None => None,
            },
        ),
{
    let mut key = String::from_str(prefix);
    push_signed(&mut key, turn);
    EntryUpdate {
        key,
        role: String::from_str(role),
        turn,
        body: bound_body(body),
        status: match status {
            Some(s) => Some(String::from_str(s)),
            None => None,
        },
    }
}


/// Why a permission was answered, as the resolution record and the review
/// inbox quote it.
pub const ANSWERED_BY_USER: &'static str = "answered by you";
pub const WHY_ENDING: &'static str = "the agent session was ending";
pub const WHY_SESSION_ENDED: &'static str = "the agent session ended before it was answered";
pub const WHY_TURN_CANCELLED: &'static str = "the turn was cancelled before you answered";
pub const WHY_DEADLINE: &'static str = "no answer within Faiden's permission deadline";
pub const NOT_PENDING: &'static str = "that permission request is no longer waiting for an answer";

/// True when `options` offers an option called `option_id`.
pub open spec fn offered(options: Seq<PermissionOption>, option_id: Seq<char>) -> bool {
    exists|i: int| 0 <= i < options.len() && (#[trigger] options[i]).option_id@ == option_id
}

/// The review-inbox line for a permission Faiden answered without the user.
pub open spec fn not_allowed_review(why: Seq<char>, title: Seq<char>) -> Seq<char> {
    "Answered \"not allowed\" without you ("@ + why + "): "@ + title
}

/// What a resolution is stored as, for the decision that goes on the wire.
pub open spec fn decision_resolution(d: PermissionDecision) -> AgentPermissionResolution {
    match d {
        PermissionDecision::Selected { option_id } => AgentPermissionResolution::Selected {
            option_id,
        },
        PermissionDecision::Cancelled => AgentPermissionResolution::Cancelled,
    }
}

/// The decision that actually goes on the wire: an allow that could not be
/// audited becomes "not allowed".
pub open spec fn wire_decision(d: PermissionDecision, audit: Result<(), AppError>) -> PermissionDecision {
    if d is Selected && audit is Err {
        PermissionDecision::Cancelled
    } else {
        d
    }
}

/// The reason quoted with the resolution.
pub open spec fn resolution_why(
    d: PermissionDecision,
    why: Seq<char>,
    audit: Result<(), AppError>,
) -> Seq<char> {
    match audit {
        Err(e) => if d is Selected {
            "the approval could not be recorded: "@ + error_message(e)
        } else {
            why
        },
        Ok(_) => why,
    }
}

/// The same prompt, field by field.
pub open spec fn same_prompt(a: PermissionPrompt, b: PermissionPrompt) -> bool {
    &&& a.request_id == b.request_id
    &&& a.run_id == b.run_id
    &&& a.tool_call_id == b.tool_call_id
    &&& a.title == b.title
    &&& a.detail == b.detail
    &&& a.options@ == b.options@
    &&& a.created_at == b.created_at
    &&& a.expires_at == b.expires_at
}

/// What answering a taken permission request produced.
#[derive(Debug)]
pub struct Resolution {
    /// What the agent is told.
    pub decision: PermissionDecision,
    /// The JSON-RPC response carrying it.
    pub frame: String,
    /// A line for the review inbox, when Faiden answered without the user.
    pub review: Option<String>,
    pub resolved: AgentEvent,
    /// A waiting run goes back to `responding` or `ready`.
    pub status: Option<AgentEvent>,
    /// The request id, or why an allow could not be honoured.
    pub result: Result<String, AppError>,
}

/// How a turn's wait ended.
#[derive(Debug)]
pub enum TurnOutcome {
    /// `session/prompt` answered.
    Replied(Json),
    /// The agent answered with an error, or the run ended under the wait.
    Failed(String),
    /// The backstop elapsed with no answer.
    NoAnswer,
}

/// What a finished turn leaves behind.
#[derive(Debug)]
pub struct TurnConclusion {
    pub status: AgentStatus,
    pub detail: String,
    /// A line for the review inbox: a finished turn is a result to read.
    pub review: Option<String>,
}

/// The `stopReason` a reply carries, `unknown` when it has none.
pub open spec fn stop_raw(result: JsonModel) -> Seq<char> {
    match model_get(result, "stopReason"@) {
        Some(v) => match model_as_str(v) {
            Some(s) => s,
            None => "unknown"@,
        },
        None => "unknown"@,
    }
}

/// The explanation of a stop reason, by its ACP spelling.
pub open spec fn raw_stop_detail(raw: Seq<char>) -> Seq<char> {
    if raw == "end_turn"@ {
        "the agent stopped producing output for this turn"@
    } else if raw == "max_tokens"@ {
        "the turn hit the model's token limit"@
    } else if raw == "max_turn_requests"@ {
        "the turn hit the agent's request limit"@
    } else if raw == "refusal"@ {
        "the agent refused to continue"@
    } else if raw == "cancelled"@ {
        "the turn was cancelled"@
    } else {
        "the agent reported a stop reason this build does not model"@
    }
}

pub open spec fn turn_conclusion(outcome: TurnOutcome) -> (AgentStatus, Seq<char>, Option<Seq<char>>) {
    match outcome {
        TurnOutcome::Replied(r) => {
            let raw = stop_raw(r@);
            (
                AgentStatus::TurnComplete,
                "Turn ended ("@ + raw + ") — "@ + raw_stop_detail(raw)
                    + ". This is not a claim that the task succeeded."@,
                Some(
                    "Hermes turn ended ("@ + raw
                        + "). Read the transcript — Faiden makes no claim about whether the work is correct."@,
                ),
            )
        },
        TurnOutcome::Failed(m) => (AgentStatus::Error, "the turn failed: "@ + m@, None),
        TurnOutcome::NoAnswer => (
            AgentStatus::Error,
            "the agent never answered this turn within 21600s"@,
            None,
        ),
    }
}

/// What a finished turn's wait ended with: `turnComplete` with the literal
/// stop reason, or `error`. Never a verdict on the work.
pub fn conclude_turn(outcome: &TurnOutcome) -> (c: TurnConclusion)
    ensures
        (c.status, c.detail@, opt_text(c.review)) == turn_conclusion(*outcome),
{
    match outcome {
        TurnOutcome::Replied(result) => {
            let raw: &str = match result.get("stopReason") {
                Some(v) => match v.as_str() {
                    Some(s) => s,
                    None => "unknown",
                },
                None => "unknown",
            };
            let stop = StopReason::parse(raw);
            proof {
                reveal_strlit("end_turn");
                reveal_strlit("max_tokens");
                reveal_strlit("max_turn_requests");
                reveal_strlit("refusal");
                reveal_strlit("cancelled");
                assert(stop_reason_detail(stop) == raw_stop_detail(raw@));
            }
            let detail = stop.describe();
            let mut review = String::from_str("Hermes turn ended (");
            review.append(stop.as_str());
            review.append(
                "). Read the transcript — Faiden makes no claim about whether the work is correct.",
            );
            TurnConclusion { status: AgentStatus::TurnComplete, detail, review: Some(review) }
        },
        TurnOutcome::Failed(message) => {
            let mut detail = String::from_str("the turn failed: ");
            detail.append(message.as_str());
            TurnConclusion { status: AgentStatus::Error, detail, review: None }
        },
        TurnOutcome::NoAnswer => TurnConclusion {
            status: AgentStatus::Error,
            detail: String::from_str("the agent never answered this turn within 21600s"),
            review: None,
        },
    }
}

/// The two requests of the handshake.
#[derive(Debug, Clone, Copy, PartialEq, Eq, Structural)]
pub enum HandshakeStep {
    Initialize,
    SessionNew,
}

pub open spec fn handshake_verdict(step: HandshakeStep, reply: Result<JsonModel, AppError>) -> Result<
    Option<Seq<char>>,
    Seq<char>,
> {
    match (step, reply) {
        (HandshakeStep::Initialize, Err(e)) => Err("initialize failed: "@ + error_message(e)),
        (HandshakeStep::SessionNew, Err(e)) => Err("session/new failed: "@ + error_message(e)),
        (HandshakeStep::Initialize, Ok(r)) => match model_get(r, "protocolVersion"@) {
            Some(v) => match model_as_u64(v) {
                Some(n) => if n == 1 {
                    Ok(None)
                } else {
                    Err(
                        "the agent answered initialize with protocol version "@ + decimal(n as nat)
                            + "; Faiden implements version 1, so no version was agreed"@,
                    )
                },
                None => Err(NO_PROTOCOL_VERSION@),
            },
            None => Err(NO_PROTOCOL_VERSION@),
        },
        (HandshakeStep::SessionNew, Ok(r)) => match model_get(r, "sessionId"@) {
            Some(v) => match model_as_str(v) {
                Some(s) => Ok(Some(s)),
                None => Err(NO_SESSION_ID@),
            },
            None => Err(NO_SESSION_ID@),
        },
    }
}

pub const NO_PROTOCOL_VERSION: &'static str =
    "the agent answered initialize without a protocolVersion, so no version was agreed";
pub const NO_SESSION_ID: &'static str =
    "session/new answered without a sessionId, so no session exists";

/// Reads one handshake reply. The agent answers `initialize` with the version
/// it will actually speak: anything other than the one this build implements
/// means no version was agreed. `session/new` must name a session. `Ok` holds
/// the session id `session/new` named; `Err` is why startup failed.
pub fn handshake_reply(step: HandshakeStep, reply: &Result<Json, AppError>) -> (r: Result<
    Option<String>,
    String,
>)
    ensures
        (match r {
            Ok(o) => Ok(opt_text(o)),
            Err(m) => Err(m@),
        }) == handshake_verdict(
            step,
            match reply {
                Ok(j) => Ok(j@),
                Err(e) => Err(*e),
            },
        ),
{
    match reply {
        Err(e) => {
            let mut m = match step {
                HandshakeStep::Initialize => String::from_str("initialize failed: "),
                HandshakeStep::SessionNew => String::from_str("session/new failed: "),
            };
            let message = e.message();
            m.append(message.as_str());
            Err(m)
        },
        Ok(result) => match step {
            HandshakeStep::Initialize => match result.get("protocolVersion") {
                Some(v) => match v.as_u64() {
                    Some(n) => if n == 1 {
                        Ok(None)
                    } else {
                        let mut m = String::from_str(
                            "the agent answered initialize with protocol version ",
                        );
                        push_decimal(&mut m, n);
                        m.append("; Faiden implements version 1, so no version was agreed");
                        Err(m)
                    },
                    None => Err(String::from_str(NO_PROTOCOL_VERSION)),
                },
                None => Err(String::from_str(NO_PROTOCOL_VERSION)),
            },
            HandshakeStep::SessionNew => match result.get("sessionId") {
                Some(v) => match v.as_str() {
                    Some(s) => Ok(Some(String::from_str(s))),
                    None => Err(String::from_str(NO_SESSION_ID)),
                },
                None => Err(String::from_str(NO_SESSION_ID)),
            },
        },
    }
}

/// `{reason} — {detail}`: how a settled run's outcome reads.
pub fn outcome_text(reason: &str, detail: &str) -> (s: String)
    ensures
        s@ == reason@ + " — "@ + detail@,
{
    let mut s = String::from_str(reason);
    s.append(" — ");
    s.append(detail);
    s
}

pub fn copy_option(o: &PermissionOption) -> (r: PermissionOption)
    ensures
        r == *o,
{
    PermissionOption { option_id: o.option_id.clone(), name: o.name.clone(), kind: o.kind.clone() }
}

pub fn copy_options(v: &Vec<PermissionOption>) -> (r: Vec<PermissionOption>)
    ensures
        r@ == v@,
{
    let mut r: Vec<PermissionOption> = Vec::new();
    let mut i: usize = 0;
    while i < v.len()
        invariant
            i <= v@.len(),
            r@ == v@.take(i as int),
        decreases v@.len() - i,
    {
        r.push(copy_option(&v[i]));
        i = i + 1;
        assert(r@ =~= v@.take(i as int));
    }
    assert(v@.take(v@.len() as int) =~= v@);
    r
}

pub fn copy_prompt(p: &PermissionPrompt) -> (r: PermissionPrompt)
    ensures
        same_prompt(r, *p),
{
    PermissionPrompt {
        request_id: p.request_id.clone(),
        run_id: p.run_id.clone(),
        tool_call_id: p.tool_call_id.clone(),
        title: p.title.clone(),
        detail: p.detail.clone(),
        options: copy_options(&p.options),
        created_at: p.created_at,
        expires_at: p.expires_at,
    }
}

/// The review-inbox line for a permission Faiden answered without the user.
pub fn not_allowed_text(why: &str, title: &str) -> (s: String)
    ensures
        s@ == not_allowed_review(why@, title@),
{
    let mut s = String::from_str("Answered \"not allowed\" without you (");
    s.append(why);
    s.append("): ");
    s.append(title);
    s
}

/// The resolution recorded for `decision` before it is sent.
pub fn stored_resolution(decision: &PermissionDecision) -> (r: AgentPermissionResolution)
    ensures
        r == decision_resolution(*decision),
{
    match decision {
        PermissionDecision::Selected { option_id } => AgentPermissionResolution::Selected {
            option_id: option_id.clone(),
        },
        PermissionDecision::Cancelled => AgentPermissionResolution::Cancelled,
    }
}


/// The protocol fault for a permission request that cannot be answered as sent.
pub const NO_OPTION_TO_CHOOSE: &'static str = "a permission request arrived with no option to choose";
/// The protocol fault for a `session/update` whose parameters cannot be read.
pub const UNREADABLE_UPDATE: &'static str = "unreadable session/update";

/// How a failed reply settles the request waiting on it.
pub fn reply_error_text(code: i64, message: &str) -> (s: String)
    ensures
        s@ == "the agent reported an error: "@ + message@ + " (code "@ + signed_decimal(code as int)
            + ")"@,
{
    let mut s = String::from_str("the agent reported an error: ");
    s.append(message);
    s.append(" (code ");
    push_signed(&mut s, code);
    s.append(")");
    s
}

/// Written to the stderr tail for an update that belongs to no live turn.
pub const DROPPED_UPDATE: &'static str = "dropped a session/update that arrived with no turn in flight";

/// Where the tool call `key` is kept, if it is.
pub open spec fn tool_index(tools: Seq<(String, ToolEntry)>, key: Seq<char>) -> Option<int> {
    if exists|i: int| 0 <= i < tools.len() && (#[trigger] tools[i]).0@ == key {
        Some(choose|i: int| 0 <= i < tools.len() && (#[trigger] tools[i]).0@ == key)
    } else {
        None
    }
}

/// `new` is `old` (or an empty entry) with what the update reports filled in:
/// a reported title, kind or status replaces the one known, and content
/// accumulates.
pub open spec fn tool_updated(
    old: Option<ToolEntry>,
    title: Option<String>,
    kind: Option<String>,
    status: Option<String>,
    content: Seq<char>,
    new: ToolEntry,
) -> bool {
    let (t0, k0, s0, c0) = match old {
        Some(e) => (opt_text(e.title), opt_text(e.kind), opt_text(e.status), e.content@),
        None => (None, None, None, Seq::<char>::empty()),
    };
    &&& opt_text(new.title) == if title is Some {
        opt_text(title)
    } else {
        t0
    }
    &&& opt_text(new.kind) == if kind is Some {
        opt_text(kind)
    } else {
        k0
    }
    &&& opt_text(new.status) == if status is Some {
        opt_text(status)
    } else {
        s0
    }
    &&& new.content@ == c0 + content
}

/// The user's message of `turn`, with its delivery status.
pub fn user_entry(turn: i64, text: &str, status: &str) -> (e: EntryUpdate)
    ensures
        entry_is(e, keyed("user:"@, turn), "user"@, turn, text@, Some(status@)),
{
    entry("user:", turn, "user", text, Some(status))
}

/// The delivery status of a message that could not be written to the agent.
pub fn not_sent_status(message: &str) -> (s: String)
    ensures
        s@ == "not sent: "@ + message@,
{
    let mut s = String::from_str("not sent: ");
    s.append(message);
    s
}

/// Why startup failed when `session/new` answered but its id could not be
/// recorded: such a run could not be identified after a restart, so it must
/// not be presented as a session the user can prompt.
pub fn unrecorded_session_detail(message: &str) -> (s: String)
    ensures
        s@ == "session/new answered, but its session id could not be recorded: "@ + message@,
{
    let mut s = String::from_str("session/new answered, but its session id could not be recorded: ");
    s.append(message);
    s
}


/// The settlement claim as a step of the state: the first claimant gets
/// `true` and marks the run claimed; any later claim gets `false`.
pub open spec fn claim_step(s: RunState) -> (bool, RunState) {
    if s.settlement_claimed || s.ended_at is Some {
        (false, s)
    } else {
        (true, RunState { settlement_claimed: true, ..s })
    }
}

/// A status change as a step of the state: a settled run is left as it is;
/// otherwise the status (and a given detail) is set and its event numbered.
pub open spec fn status_step(s: RunState, status: AgentStatus, detail: Option<String>) -> (Option<
    AgentEvent,
>, RunState) {
    if s.ended_at is Some {
        (None, s)
    } else {
        (
            Some(status_event(s.ident, s.next_seq, status, detail)),
            RunState {
                status,
                detail: if detail is Some {
                    detail
                } else {
                    s.detail
                },
                next_seq: (s.next_seq + 1) as u64,
                ..s
            },
        )
    }
}

/// Numbering one event as a step of the state.
pub open spec fn seq_step(s: RunState) -> (u64, RunState) {
    (s.next_seq, RunState { next_seq: (s.next_seq + 1) as u64, ..s })
}

impl RunState {
    /// A shutdown has begun or the run has been settled.
    pub open spec fn ending(&self) -> bool {
        self.closing || self.settlement_claimed || self.ended_at is Some
    }

    pub open spec fn wf(&self) -> bool {
        &&& self.stderr_tail@.len() <= MAX_STDERR_LINES
        &&& forall|i: int|
            0 <= i < self.stderr_tail@.len() ==> (#[trigger] self.stderr_tail@[i])@.len()
                <= MAX_STDERR_LINE_CHARS
        &&& forall|i: int, j: int|
            0 <= i < self.tools@.len() && 0 <= j < self.tools@.len() && i != j ==> (
            #[trigger] self.tools@[i]).0@ != (#[trigger] self.tools@[j]).0@
        &&& needs_session(self.status) ==> self.acp_session_id is Some
        &&& self.prompt_in_flight ==> self.acp_session_id is Some
        &&& self.permission is Some ==> self.acp_session_id is Some
        &&& self.closing ==> self.settlement_claimed
        &&& self.ended_at is Some ==> {
            &&& self.settlement_claimed
            &&& !self.prompt_in_flight
            &&& self.permission is None
        }
    }

    /// Room for one more transition without any counter overflowing.
    pub open spec fn has_room(&self) -> bool {
        &&& self.next_seq < u64::MAX - 8
        &&& self.next_request_id < u64::MAX - 2
        &&& self.turn < i64::MAX
        &&& self.unmatched_replies < u64::MAX
        &&& self.protocol_faults < u64::MAX
        &&& self.refused_requests < u64::MAX
        &&& self.unattributed_updates < u64::MAX
    }

    /// Whether [`RunState::has_room`] holds; a host checks it before each
    /// transition and stops the run when a counter is exhausted.
    pub fn room_left(&self) -> (b: bool)
        ensures
            b == self.has_room(),
    {
        self.next_seq < u64::MAX - 8 && self.next_request_id < u64::MAX - 2 && self.turn < i64::MAX
            && self.unmatched_replies < u64::MAX && self.protocol_faults < u64::MAX
            && self.refused_requests < u64::MAX && self.unattributed_updates < u64::MAX
    }

    /// A run that has just been spawned: `connecting`, with nothing numbered
    /// yet. Sequence numbers and request ids both start at 1.
    pub fn new(ident: RunIdentity) -> (s: RunState)
        ensures
            s.wf(),
            s.ident == ident,
            s.status == AgentStatus::Connecting,
            s.detail is None,
            s.acp_session_id is None,
            !s.prompt_in_flight,
            !s.closing,
            !s.settlement_claimed,
            s.ended_at is None,
            s.next_seq == 1,
            s.next_request_id == 1,
            s.turn == 0,
            s.agent_body@.len() == 0,
            s.thought_body@.len() == 0,
            s.tools@.len() == 0,
            s.unmatched_replies == 0,
            s.protocol_faults == 0,
            s.refused_requests == 0,
            s.unattributed_updates == 0,
            s.stderr_tail@.len() == 0,
            s.permission is None,
    {
        RunState {
            ident,
            status: AgentStatus::Connecting,
            detail: None,
            acp_session_id: None,
            prompt_in_flight: false,
            closing: false,
            settlement_claimed: false,
            ended_at: None,
            next_seq: 1,
            next_request_id: 1,
            turn: 0,
            agent_body: String::new(),
            thought_body: String::new(),
            tools: Vec::new(),
            unmatched_replies: 0,
            protocol_faults: 0,
            refused_requests: 0,
            unattributed_updates: 0,
            stderr_tail: VecDeque::new(),
            permission: None,
        }
    }

    /// Hands out the next event sequence number. Numbers are consecutive and
    /// never repeat.
    pub fn take_seq(&mut self) -> (seq: u64)
        requires
            old(self).next_seq < u64::MAX,
        ensures
            (seq, *final(self)) == seq_step(*old(self)),
    {
        let seq = self.next_seq;
        self.next_seq = self.next_seq + 1;
        seq
    }

    /// Hands out the next JSON-RPC request id.
    pub fn next_request_id(&mut self) -> (id: u64)
        requires
            old(self).next_request_id < u64::MAX,
        ensures
            id == old(self).next_request_id,
            *final(self) == (RunState {
                next_request_id: (old(self).next_request_id + 1) as u64,
                ..*old(self)
            }),
    {
        let id = self.next_request_id;
        self.next_request_id = self.next_request_id + 1;
        id
    }

    /// Sets the status whether or not the run has ended, and numbers the
    /// `Status` event that says so. A `None` detail keeps the previous one.
    pub fn force_status(&mut self, status: AgentStatus, detail: Option<String>) -> (ev: AgentEvent)
        requires
            old(self).wf(),
            old(self).next_seq < u64::MAX,
            needs_session(status) ==> old(self).acp_session_id is Some,
        ensures
            final(self).wf(),
            ev == status_event(old(self).ident, old(self).next_seq, status, detail),
            *final(self) == (RunState {
                status,
                detail: if detail is Some {
                    detail
                } else {
                    old(self).detail
                },
                next_seq: (old(self).next_seq + 1) as u64,
                ..*old(self)
            }),
    {
        self.status = status;
        if detail.is_some() {
            self.detail = clone_text(&detail);
        }
        let seq = self.take_seq();
        AgentEvent::Status {
            run_id: self.ident.run_id.clone(),
            epoch: self.ident.epoch,
            seq,
            status,
            detail,
        }
    }

    /// Sets the status of a run that has not ended. A settled run's status is
    /// frozen: a turn waiter waking after the child died must not repaint the
    /// run as though it were still working, so then nothing changes and no
    /// event is made.
    pub fn set_status(&mut self, status: AgentStatus, detail: Option<String>) -> (ev: Option<
        AgentEvent,
    >)
        requires
            old(self).wf(),
            old(self).next_seq < u64::MAX,
            needs_session(status) ==> old(self).acp_session_id is Some,
        ensures
            final(self).wf(),
            (ev, *final(self)) == status_step(*old(self), status, detail),
    {
        if self.ended_at.is_some() {
            return None;
        }
        Some(self.force_status(status, detail))
    }

    /// The run as a view shows it.
    pub fn info(&self) -> (i: AgentRunInfo)
        ensures
            i == (AgentRunInfo {
                run_id: self.ident.run_id,
                session_id: self.ident.session_id,
                epoch: self.ident.epoch,
                pid: self.ident.pid,
                program: self.ident.program,
                source: self.ident.source,
                cwd: self.ident.cwd,
                acp_session_id: self.acp_session_id,
                status: self.status,
                detail: self.detail,
                started_at: self.ident.started_at,
                ended_at: self.ended_at,
                prompt_in_flight: self.prompt_in_flight,
                disclosure: i.disclosure,
            }),
            i.disclosure@ == AUTHORITY_DISCLOSURE@,
    {
        AgentRunInfo {
            run_id: self.ident.run_id.clone(),
            session_id: self.ident.session_id.clone(),
            epoch: self.ident.epoch,
            pid: self.ident.pid,
            program: self.ident.program.clone(),
            source: self.ident.source.clone(),
            cwd: self.ident.cwd.clone(),
            acp_session_id: clone_text(&self.acp_session_id),
            status: self.status,
            detail: clone_text(&self.detail),
            started_at: self.ident.started_at,
            ended_at: self.ended_at,
            prompt_in_flight: self.prompt_in_flight,
            disclosure: String::from_str(AUTHORITY_DISCLOSURE),
        }
    }

    /// The run's counters and its stderr tail, lines joined by newlines.
    pub fn diagnostics(&self) -> (d: AgentDiagnostics)
        ensures
            d.run_id == self.ident.run_id,
            d.unmatched_replies == self.unmatched_replies,
            d.protocol_faults == self.protocol_faults,
            d.refused_requests == self.refused_requests,
            d.unattributed_updates == self.unattributed_updates,
            d.stderr_tail@ == joined(texts(self.stderr_tail@)),
    {
        let mut tail = String::new();
        let n = self.stderr_tail.len();
        let mut i: usize = 0;
        while i < n
            invariant
                n == self.stderr_tail@.len(),
                i <= n,
                tail@ == joined(texts(self.stderr_tail@.take(i as int))),
            decreases n - i,
        {
            let ghost prefix = self.stderr_tail@.take(i as int);
            if i > 0 {
                tail.append("\n");
            }
            tail.append(self.stderr_tail[i].as_str());
            proof {
                let next = self.stderr_tail@.take(i + 1);
                assert(next.drop_last() =~= prefix);
                assert(texts(next).drop_last() =~= texts(prefix));
                assert(texts(next).last() == self.stderr_tail@[i as int]@);
                if i == 0 {
                    assert(texts(next) =~= seq![self.stderr_tail@[0]@]);
                }
            }
            i = i + 1;
        }
        assert(self.stderr_tail@.take(n as int) =~= self.stderr_tail@);
        AgentDiagnostics {
            run_id: self.ident.run_id.clone(),
            unmatched_replies: self.unmatched_replies,
            protocol_faults: self.protocol_faults,
            refused_requests: self.refused_requests,
            unattributed_updates: self.unattributed_updates,
            stderr_tail: tail,
        }
    }

    /// Appends one diagnostic line, bounded in length, keeping only the newest
    /// lines.
    pub fn push_stderr(&mut self, line: &str)
        requires
            old(self).wf(),
        ensures
            final(self).wf(),
            texts(final(self).stderr_tail@) == stderr_after(texts(old(self).stderr_tail@), line@),
            *final(self) == (RunState { stderr_tail: final(self).stderr_tail, ..*old(self) }),
    {
        let len = line.unicode_len();
        let cut: &str = if len <= MAX_STDERR_LINE_CHARS {
            line
        } else {
            line.substring_char(0, MAX_STDERR_LINE_CHARS)
        };
        let ghost before = self.stderr_tail@;
        self.stderr_tail.push_back(String::from_str(cut));
        let ghost pushed = self.stderr_tail@;
        assert(texts(pushed) =~= texts(before).push(cut@));
        if self.stderr_tail.len() > MAX_STDERR_LINES {
            let _ = self.stderr_tail.pop_front();
            assert(texts(self.stderr_tail@) =~= texts(pushed).skip(1));
        }
        assert(cut@ =~= (if line@.len() <= MAX_STDERR_LINE_CHARS {
            line@
        } else {
            line@.take(MAX_STDERR_LINE_CHARS as int)
        }));
        assert(texts(self.stderr_tail@) =~= stderr_after(texts(before), line@));
        assert forall|i: int| 0 <= i < self.stderr_tail@.len() implies (
        #[trigger] self.stderr_tail@[i])@.len() <= MAX_STDERR_LINE_CHARS by {
            assert(texts(self.stderr_tail@)[i] == self.stderr_tail@[i]@);
        }
    }

    /// One line that was not usable protocol: counted, and described in the
    /// stderr tail.
    pub fn count_fault(&mut self, fault: &ProtocolError)
        requires
            old(self).wf(),
            old(self).protocol_faults < u64::MAX,
        ensures
            final(self).wf(),
            texts(final(self).stderr_tail@) == stderr_after(
                texts(old(self).stderr_tail@),
                "protocol fault: "@ + protocol_error_text(*fault),
            ),
            *final(self) == (RunState {
                protocol_faults: (old(self).protocol_faults + 1) as u64,
                stderr_tail: final(self).stderr_tail,
                ..*old(self)
            }),
    {
        self.protocol_faults = self.protocol_faults + 1;
        let mut line = String::from_str("protocol fault: ");
        let described = fault.display_text();
        line.append(described.as_str());
        self.push_stderr(line.as_str());
    }

    /// A reply to an id this run never issued or already settled, or an update
    /// naming a session this run does not own: counted, never applied.
    pub fn note_unmatched_reply(&mut self)
        requires
            old(self).unmatched_replies < u64::MAX,
        ensures
            *final(self) == (RunState {
                unmatched_replies: (old(self).unmatched_replies + 1) as u64,
                ..*old(self)
            }),
    {
        self.unmatched_replies = self.unmatched_replies + 1;
    }

    /// Claims the terminal outcome before any teardown or durable work. The
    /// first claimant wins; every later claim is refused and changes nothing.
    pub fn claim_settlement(&mut self) -> (won: bool)
        requires
            old(self).wf(),
        ensures
            final(self).wf(),
            (won, *final(self)) == claim_step(*old(self)),
    {
        if self.settlement_claimed || self.ended_at.is_some() {
            return false;
        }
        self.settlement_claimed = true;
        true
    }

    /// Claims the terminal outcome and marks the run closing in one decision,
    /// so no frame still buffered in the pipe can become a new prompt.
    pub fn claim_settlement_and_begin_closing(&mut self) -> (won: bool)
        requires
            old(self).wf(),
        ensures
            final(self).wf(),
            won == !old(self).settlement_claimed,
            won ==> *final(self) == (RunState {
                settlement_claimed: true,
                closing: true,
                ..*old(self)
            }),
            !won ==> *final(self) == *old(self),
    {
        if self.settlement_claimed || self.ended_at.is_some() {
            return false;
        }
        self.settlement_claimed = true;
        self.closing = true;
        true
    }

    /// Records the instant a claimed settlement completed. Any pending
    /// permission has been answered before this point.
    pub fn mark_ended(&mut self, at: i64)
        requires
            old(self).wf(),
            old(self).settlement_claimed,
            old(self).permission is None,
        ensures
            final(self).wf(),
            *final(self) == (RunState { ended_at: Some(at), prompt_in_flight: false, ..*old(self) }),
    {
        self.ended_at = Some(at);
        self.prompt_in_flight = false;
    }

    /// The last two events of a run: its final status, whose detail is the
    /// outcome, and `Ended`.
    pub fn settle_events(&mut self, outcome: String, final_status: AgentStatus) -> (evs: (
        AgentEvent,
        AgentEvent,
    ))
        requires
            old(self).wf(),
            old(self).next_seq < u64::MAX - 1,
            !needs_session(final_status),
        ensures
            final(self).wf(),
            evs.0 == status_event(old(self).ident, old(self).next_seq, final_status, Some(outcome)),
            evs.1 == (AgentEvent::Ended {
                run_id: old(self).ident.run_id,
                epoch: old(self).ident.epoch,
                seq: (old(self).next_seq + 1) as u64,
                outcome,
            }),
            *final(self) == (RunState {
                status: final_status,
                detail: Some(outcome),
                next_seq: (old(self).next_seq + 2) as u64,
                ..*old(self)
            }),
    {
        let status = self.force_status(final_status, Some(outcome.clone()));
        let seq = self.take_seq();
        let ended = AgentEvent::Ended {
            run_id: self.ident.run_id.clone(),
            epoch: self.ident.epoch,
            seq,
            outcome,
        };
        (status, ended)
    }

    /// Why a permission request naming `claimed_session` must be refused
    /// without asking the user, or `None` when it is genuinely answerable.
    pub fn refusal_reason(&self, claimed_session: &str) -> (r: Option<String>)
        ensures
            opt_text(r) == refusal_text(*self, claimed_session@),
    {
        if self.closing || self.settlement_claimed || self.ended_at.is_some() {
            return Some(String::from_str("the agent session is ending or has already ended"));
        }
        match &self.acp_session_id {
            None => Some(String::from_str("no ACP session has been created for this run")),
            Some(ours) => {
                if !str_eq(ours.as_str(), claimed_session) {
                    let mut s = String::from_str("it names ACP session ");
                    s.append(claimed_session);
                    s.append(", which this run does not own");
                    Some(s)
                } else if self.prompt_in_flight {
                    None
                } else {
                    Some(String::from_str("no turn is in flight, so there is nothing to approve"))
                }
            },
        }
    }

    /// Starts a turn. Nothing is ever sent without this, and a turn already in
    /// flight is refused rather than queued or duplicated; a refusal changes
    /// nothing.
    pub fn begin_prompt(&mut self) -> (r: Result<PromptTicket, AppError>)
        requires
            old(self).wf(),
            old(self).has_room(),
        ensures
            final(self).wf(),
            match r {
                Ok(t) => {
                    &&& old(self).acp_session_id == Some(t.session_id)
                    &&& !old(self).closing && old(self).ended_at is None
                    &&& !old(self).prompt_in_flight
                    &&& t.turn == old(self).turn + 1
                    &&& t.request_id == old(self).next_request_id
                    &&& final(self).agent_body@.len() == 0
                    &&& final(self).thought_body@.len() == 0
                    &&& *final(self) == (RunState {
                        prompt_in_flight: true,
                        turn: t.turn,
                        next_request_id: (old(self).next_request_id + 1) as u64,
                        agent_body: final(self).agent_body,
                        thought_body: final(self).thought_body,
                        ..*old(self)
                    })
                },
                Err(e) => {
                    &&& *final(self) == *old(self)
                    &&& if old(self).acp_session_id is None {
                        is_conflict_error(e, "AGENT_NOT_READY"@, NOT_READY_TO_PROMPT@)
                    } else if old(self).closing || old(self).ended_at is Some {
                        is_conflict_error(e, "AGENT_DISCONNECTED"@, ENDED_NOTHING_SENT@)
                    } else {
                        old(self).prompt_in_flight && is_conflict_error(
                            e,
                            "AGENT_BUSY"@,
                            BUSY_NOTHING_SENT@,
                        )
                    }
                },
            },
    {
        let session_id = match &self.acp_session_id {
            None => return Err(AppError::conflict("AGENT_NOT_READY", NOT_READY_TO_PROMPT)),
            Some(s) => s.clone(),
        };
        if self.closing || self.ended_at.is_some() {
            return Err(AppError::conflict("AGENT_DISCONNECTED", ENDED_NOTHING_SENT));
        }
        if self.prompt_in_flight {
            return Err(AppError::conflict("AGENT_BUSY", BUSY_NOTHING_SENT));
        }
        self.prompt_in_flight = true;
        self.turn = self.turn + 1;
        self.agent_body = String::new();
        self.thought_body = String::new();
        let request_id = self.next_request_id();
        Ok(PromptTicket { session_id, turn: self.turn, request_id })
    }

    /// The turn just begun did not go out: it is no longer in flight.
    pub fn abandon_prompt(&mut self)
        requires
            old(self).wf(),
        ensures
            final(self).wf(),
            *final(self) == (RunState { prompt_in_flight: false, ..*old(self) }),
    {
        self.prompt_in_flight = false;
    }

    /// Numbers the `Message` event for a transcript entry the store has just
    /// written.
    pub fn message_event(&mut self, message: AgentMessage) -> (ev: AgentEvent)
        requires
            old(self).next_seq < u64::MAX,
        ensures
            ev == (AgentEvent::Message {
                run_id: old(self).ident.run_id,
                epoch: old(self).ident.epoch,
                seq: old(self).next_seq,
                message,
            }),
            *final(self) == (RunState { next_seq: (old(self).next_seq + 1) as u64, ..*old(self) }),
    {
        let seq = self.take_seq();
        AgentEvent::Message { run_id: self.ident.run_id.clone(), epoch: self.ident.epoch, seq, message }
    }

    /// The session a cancel goes to. A run without one has nothing to cancel.
    pub fn cancel_target(&self) -> (r: Result<String, AppError>)
        ensures
            match r {
                Ok(s) => self.acp_session_id == Some(s),
                Err(e) => self.acp_session_id is None && is_conflict_error(
                    e,
                    "AGENT_NOT_READY"@,
                    NOTHING_TO_CANCEL@,
                ),
            },
    {
        match &self.acp_session_id {
            Some(s) => Ok(s.clone()),
            None => Err(AppError::conflict("AGENT_NOT_READY", NOTHING_TO_CANCEL)),
        }
    }

    /// After `session/cancel` went out: a turn in flight is `cancelling` until
    /// the agent reports it over. Sending a cancel is not the turn being over.
    pub fn mark_cancelling(&mut self) -> (ev: Option<AgentEvent>)
        requires
            old(self).wf(),
            old(self).next_seq < u64::MAX,
        ensures
            final(self).wf(),
            (old(self).prompt_in_flight && old(self).ended_at is None) ==> {
                &&& ev == Some(
                    status_event(
                        old(self).ident,
                        old(self).next_seq,
                        AgentStatus::Cancelling,
                        Some(final(self).detail.unwrap()),
                    ),
                )
                &&& final(self).detail.unwrap()@ == CANCEL_SENT@
                &&& *final(self) == (RunState {
                    status: AgentStatus::Cancelling,
                    detail: final(self).detail,
                    next_seq: (old(self).next_seq + 1) as u64,
                    ..*old(self)
                })
            },
            !(old(self).prompt_in_flight && old(self).ended_at is None) ==> ev is None
                && *final(self) == *old(self),
    {
        if self.prompt_in_flight {
            self.set_status(AgentStatus::Cancelling, Some(String::from_str(CANCEL_SENT)))
        } else {
            None
        }
    }

    /// `session/new` answered with `session_id`, and it has been recorded:
    /// the run is now a session the user can prompt.
    pub fn handshake_complete(&mut self, session_id: String) -> (ev: Option<AgentEvent>)
        requires
            old(self).wf(),
            old(self).next_seq < u64::MAX,
        ensures
            final(self).wf(),
            old(self).ended_at is Some ==> ev is None && *final(self) == (RunState {
                acp_session_id: Some(session_id),
                ..*old(self)
            }),
            old(self).ended_at is None ==> {
                &&& ev == Some(
                    status_event(old(self).ident, old(self).next_seq, AgentStatus::Ready, None),
                )
                &&& *final(self) == (RunState {
                    acp_session_id: Some(session_id),
                    status: AgentStatus::Ready,
                    next_seq: (old(self).next_seq + 1) as u64,
                    ..*old(self)
                })
            },
    {
        self.acp_session_id = Some(session_id);
        self.set_status(AgentStatus::Ready, None)
    }

    /// Ends the turn in flight: what streamed during it is finalised by the
    /// entries [`RunState::turn_entries`] returns.
    pub fn finish_turn(&mut self)
        requires
            old(self).wf(),
        ensures
            final(self).wf(),
            *final(self) == (RunState { prompt_in_flight: false, ..*old(self) }),
    {
        self.prompt_in_flight = false;
    }

    /// The streamed entries of `turn`, marked complete: the agent's message and
    /// its thoughts, each only when something streamed.
    pub fn turn_entries(&self, turn: i64) -> (entries: Vec<EntryUpdate>)
        ensures
            entries@.len() == (if self.agent_body@.len() > 0 { 1nat } else { 0nat }) + (
            if self.thought_body@.len() > 0 {
                1nat
            } else {
                0nat
            }),
            self.agent_body@.len() > 0 ==> entry_is(
                entries@[0],
                keyed("agent:"@, turn),
                "agent"@,
                turn,
                self.agent_body@,
                Some("complete"@),
            ),
            self.thought_body@.len() > 0 ==> entry_is(
                entries@[entries@.len() - 1],
                keyed("thought:"@, turn),
                "thought"@,
                turn,
                self.thought_body@,
                Some("complete"@),
            ),
    {
        let mut entries: Vec<EntryUpdate> = Vec::new();
        if self.agent_body.unicode_len() > 0 {
            entries.push(entry("agent:", turn, "agent", self.agent_body.as_str(), Some("complete")));
        }
        if self.thought_body.unicode_len() > 0 {
            entries.push(
                entry("thought:", turn, "thought", self.thought_body.as_str(), Some("complete")),
            );
        }
        entries
    }

    /// True while `request_id` is the request awaiting an answer.
    pub fn awaits(&self, request_id: &str) -> (b: bool)
        ensures
            b == (self.permission matches Some(p) && p.prompt.request_id@ == request_id@),
    {
        match &self.permission {
            Some(p) => str_eq(p.prompt.request_id.as_str(), request_id),
            None => false,
        }
    }

    /// Removes the pending request, if any, so that it is answered once.
    pub fn take_permission(&mut self) -> (p: Option<PendingPermission>)
        requires
            old(self).wf(),
        ensures
            final(self).wf(),
            p == old(self).permission,
            *final(self) == (RunState { permission: None, ..*old(self) }),
    {
        self.permission.take()
    }

    /// The user's answer to the pending request `request_id`. Only the request
    /// that is actually pending can be answered, and only with an option the
    /// agent offered; a refused answer changes nothing. An answer given while
    /// the run is ending is turned into "not allowed", never an allow. On
    /// success the request is taken, with the decision and the reason to
    /// resolve it with.
    pub fn answer_permission(&mut self, request_id: &str, option_id: Option<&str>) -> (r: Result<
        (PendingPermission, PermissionDecision, &'static str),
        AppError,
    >)
        requires
            old(self).wf(),
        ensures
            final(self).wf(),
            ({
                let pending = old(self).permission matches Some(p) && p.prompt.request_id@
                    == request_id@;
                let options = old(self).permission.unwrap().prompt.options@;
                &&& !pending ==> (r is Err && is_conflict_error(
                    r->Err_0,
                    "PERMISSION_NOT_PENDING"@,
                    NOT_PENDING@,
                ))
                &&& (pending && old(self).ending()) ==> (r matches Ok((_, d, why)) && d
                    is Cancelled && why@ == WHY_ENDING@)
                &&& (pending && !old(self).ending() && option_id is None) ==> (r matches Ok(
                    (_, d, why),
                ) && d is Cancelled && why@ == ANSWERED_BY_USER@)
                &&& (pending && !old(self).ending() && option_id is Some) ==> if offered(
                    options,
                    option_id.unwrap()@,
                ) {
                    r matches Ok((_, d, why)) && d matches PermissionDecision::Selected {
                        option_id: chosen,
                    } && chosen@ == option_id.unwrap()@ && why@ == ANSWERED_BY_USER@
                } else {
                    r is Err && is_validation_error(
                        r->Err_0,
                        "optionId"@,
                        "the agent did not offer an option called "@ + option_id.unwrap()@,
                    )
                }
                &&& r is Err ==> *final(self) == *old(self)
                &&& r matches Ok((p, _, _)) ==> old(self).permission == Some(p) && *final(self)
                    == (RunState { permission: None, ..*old(self) })
            }),
    {
        let is_pending = match &self.permission {
            Some(p) => str_eq(p.prompt.request_id.as_str(), request_id),
            None => false,
        };
        if !is_pending {
            return Err(AppError::conflict("PERMISSION_NOT_PENDING", NOT_PENDING));
        }
        let ending = self.closing || self.settlement_claimed || self.ended_at.is_some();
        let (decision, why): (PermissionDecision, &'static str) = if ending {
            (PermissionDecision::Cancelled, WHY_ENDING)
        } else {
            match option_id {
                None => (PermissionDecision::Cancelled, ANSWERED_BY_USER),
                Some(o) => {
                    let pending = self.permission.as_ref().unwrap();
                    let options = &pending.prompt.options;
                    let mut found = false;
                    let mut i: usize = 0;
                    while i < options.len()
                        invariant
                            i <= options@.len(),
                            found <==> exists|k: int| 0 <= k < i && (#[trigger] options@[k]).option_id@ == o@,
                        decreases options@.len() - i,
                    {
                        if str_eq(options[i].option_id.as_str(), o) {
                            found = true;
                        }
                        i = i + 1;
                    }
                    if !found {
                        let mut m = String::from_str("the agent did not offer an option called ");
                        m.append(o);
                        return Err(AppError::validation("optionId", m.as_str()));
                    }
                    (PermissionDecision::Selected { option_id: String::from_str(o) }, ANSWERED_BY_USER)
                },
            }
        };
        let pending = self.permission.take().unwrap();
        Ok((pending, decision, why))
    }

    /// Answers a taken request with `decision`, whatever the reason: every
    /// fail-closed path funnels here. `audit` is how recording the resolution
    /// went. An allow that could not be recorded is sent as "not allowed"
    /// instead, and reported; a request Faiden answered without the user goes
    /// to the review inbox. The resolution is published, and a run that was
    /// waiting on it goes back to `responding` or `ready`.
    pub fn resolve_taken(
        &mut self,
        pending: PendingPermission,
        decision: PermissionDecision,
        why: &str,
        audit: &Result<(), AppError>,
    ) -> (r: Resolution)
        requires
            old(self).wf(),
            old(self).next_seq < u64::MAX - 1,
        ensures
            final(self).wf(),
            ({
                let sent = wire_decision(decision, *audit);
                let reason = resolution_why(decision, why@, *audit);
                let waiting = old(self).status == AgentStatus::AwaitingPermission
                    && old(self).ended_at is None;
                let next = if old(self).prompt_in_flight {
                    AgentStatus::Responding
                } else {
                    AgentStatus::Ready
                };
                &&& r.decision == sent
                &&& r.frame@ == json_written(permission_response_model(pending.rpc_id@, sent))
                &&& forall|i: int| 0 <= i < r.frame@.len() ==> r.frame@[i] != '\n'
                &&& opt_text(r.review) == if sent is Cancelled && reason != ANSWERED_BY_USER@ {
                    Some(not_allowed_review(reason, pending.prompt.title@))
                } else {
                    None
                }
                &&& r.resolved matches AgentEvent::PermissionResolved {
                    run_id,
                    epoch,
                    seq,
                    request_id,
                    resolution,
                } && run_id == old(self).ident.run_id && epoch == old(self).ident.epoch && seq
                    == old(self).next_seq && request_id == pending.prompt.request_id
                    && resolution@ == resolution_record(decision_resolution(sent)) + " ("@
                    + reason + ")"@
                &&& waiting ==> r.status == Some(
                    status_event(old(self).ident, (old(self).next_seq + 1) as u64, next, None),
                ) && *final(self) == (RunState {
                    status: next,
                    next_seq: (old(self).next_seq + 2) as u64,
                    ..*old(self)
                })
                &&& !waiting ==> r.status is None && *final(self) == (RunState {
                    next_seq: (old(self).next_seq + 1) as u64,
                    ..*old(self)
                })
                &&& match *audit {
                    Err(e) => if decision is Selected {
                        is_conflict_error(
                            r.result->Err_0,
                            "PERMISSION_NOT_RECORDED"@,
                            "the approval could not be recorded, so the agent was told \"not allowed\" instead: "@
                                + error_message(e),
                        ) && r.result is Err
                    } else {
                        r.result == Ok::<String, AppError>(pending.prompt.request_id)
                    },
                    Ok(_) => r.result == Ok::<String, AppError>(pending.prompt.request_id),
                }
            }),
    {
        let mut reason = String::from_str(why);
        let mut failure: Option<AppError> = None;
        let mut sent = decision;
        match audit {
            Err(e) => {
                if sent.is_selected() {
                    sent = PermissionDecision::Cancelled;
                    let message = e.message();
                    reason = String::from_str("the approval could not be recorded: ");
                    reason.append(message.as_str());
                    let mut m = String::from_str(
                        "the approval could not be recorded, so the agent was told \"not allowed\" instead: ",
                    );
                    m.append(message.as_str());
                    failure = Some(AppError::conflict("PERMISSION_NOT_RECORDED", m.as_str()));
                }
            },
            Ok(_) => {},
        }
        let recorded = stored_resolution(&sent).as_record();
        let frame = permission_response(&pending.rpc_id, sent.duplicate());
        let review = if sent.is_cancelled() && !str_eq(reason.as_str(), ANSWERED_BY_USER) {
            Some(not_allowed_text(reason.as_str(), pending.prompt.title.as_str()))
        } else {
            None
        };
        let mut resolution = recorded;
        resolution.append(" (");
        resolution.append(reason.as_str());
        resolution.append(")");
        let seq = self.take_seq();
        let resolved = AgentEvent::PermissionResolved {
            run_id: self.ident.run_id.clone(),
            epoch: self.ident.epoch,
            seq,
            request_id: pending.prompt.request_id.clone(),
            resolution,
        };
        let status = if self.status == AgentStatus::AwaitingPermission {
            let next = if self.prompt_in_flight {
                AgentStatus::Responding
            } else {
                AgentStatus::Ready
            };
            self.set_status(next, None)
        } else {
            None
        };
        let result = match failure {
            Some(e) => Err(e),
            None => Ok(pending.prompt.request_id),
        };
        Resolution { decision: sent, frame, review, resolved, status, result }
    }

    /// A permission request refused without asking: counted, and the reason
    /// kept in the stderr tail.
    pub fn refuse_permission(&mut self, reason: &str)
        requires
            old(self).wf(),
            old(self).refused_requests < u64::MAX,
        ensures
            final(self).wf(),
            texts(final(self).stderr_tail@) == stderr_after(
                texts(old(self).stderr_tail@),
                "refused a permission request: "@ + reason@,
            ),
            *final(self) == (RunState {
                refused_requests: (old(self).refused_requests + 1) as u64,
                stderr_tail: final(self).stderr_tail,
                ..*old(self)
            }),
    {
        self.refused_requests = self.refused_requests + 1;
        let mut line = String::from_str("refused a permission request: ");
        line.append(reason);
        self.push_stderr(line.as_str());
    }

    /// Decides an inbound permission request before anything is recorded or
    /// shown. Permissions fail closed: a deadline that cannot be represented is
    /// denied; a request this run must refuse (it is ending, the session is not
    /// its own, no turn is in flight) is refused, counted and kept in the
    /// stderr tail; anything else is a prompt to record.
    pub fn screen_permission(&mut self, request: &PermissionRequest, created_at: i64, permission_ms: u64) -> (d:
        InboundPermission)
        requires
            old(self).wf(),
        ensures
            final(self).wf(),
            deadline_overflows(created_at, permission_ms) ==> (d is Deny && *final(self) == *old(self)),
            !deadline_overflows(created_at, permission_ms) ==> match refusal_text(*old(self), request.session_id@) {
                Some(reason) => {
                    &&& d matches InboundPermission::Refuse { prompt, audit_cancelled }
                        && audit_cancelled == old(self).ending()
                        && prompt_for(*old(self), *request, created_at, permission_ms, prompt)
                    &&& old(self).refused_requests < u64::MAX ==> {
                        &&& texts(final(self).stderr_tail@) == stderr_after(
                            texts(old(self).stderr_tail@),
                            "refused a permission request: "@ + reason,
                        )
                        &&& *final(self) == (RunState {
                            refused_requests: (old(self).refused_requests + 1) as u64,
                            stderr_tail: final(self).stderr_tail,
                            ..*old(self)
                        })
                    }
                    &&& old(self).refused_requests == u64::MAX ==> *final(self) == *old(self)
                },
                None => (d matches InboundPermission::Record(prompt) && prompt_for(
                    *old(self),
                    *request,
                    created_at,
                    permission_ms,
                    prompt,
                )) && *final(self) == *old(self),
            },
    {
        if permission_ms > i64::MAX as u64 || created_at > i64::MAX - permission_ms as i64 {
            return InboundPermission::Deny;
        }
        let prompt = self.permission_prompt(request, created_at, permission_ms);
        match self.refusal_reason(request.session_id.as_str()) {
            Some(reason) => {
                let audit_cancelled = self.closing || self.settlement_claimed || self.ended_at.is_some();
                if self.refused_requests < u64::MAX {
                    self.refuse_permission(reason.as_str());
                }
                InboundPermission::Refuse { prompt, audit_cancelled }
            },
            None => InboundPermission::Record(prompt),
        }
    }

    /// The prompt shown for `request`, under a fresh id `perm_{uuid}`, made at
    /// `created_at` and expiring `permission_ms` later.
    pub fn permission_prompt(&self, request: &PermissionRequest, created_at: i64, permission_ms: u64) -> (p:
        PermissionPrompt)
        requires
            permission_ms <= i64::MAX,
            created_at + permission_ms <= i64::MAX,
        ensures
            exists|u: Seq<char>| is_simple_uuid(u) && p.request_id@ == "perm_"@ + u,
            p.run_id == self.ident.run_id,
            p.tool_call_id == request.tool_call_id,
            p.title == request.title,
            p.detail == request.detail,
            p.options@ == request.options@,
            p.created_at == created_at,
            p.expires_at == created_at + permission_ms,
    {
        let request_id = new_id("perm");
        proof {
            reveal_strlit("perm");
            reveal_strlit("_");
            reveal_strlit("perm_");
            assert("perm"@ + "_"@ =~= "perm_"@);
            let u = choose|u: Seq<char>| is_simple_uuid(u) && request_id@ == "perm"@ + "_"@ + u;
            assert(request_id@ =~= "perm_"@ + u);
        }
        PermissionPrompt {
            request_id,
            run_id: self.ident.run_id.clone(),
            tool_call_id: request.tool_call_id.clone(),
            title: request.title.clone(),
            detail: request.detail.clone(),
            options: copy_options(&request.options),
            created_at,
            expires_at: created_at + permission_ms as i64,
        }
    }

    /// Makes `prompt` the request awaiting an answer, and numbers the
    /// `Permission` event that shows it. A request already pending is handed
    /// back so that it can be answered "not allowed": replace-and-deny, never a
    /// silent drop that would leave the agent waiting forever.
    pub fn install_permission(&mut self, prompt: PermissionPrompt, rpc_id: Json) -> (r: (
        Option<PendingPermission>,
        AgentEvent,
    ))
        requires
            old(self).wf(),
            old(self).next_seq < u64::MAX,
            !old(self).ending(),
            old(self).acp_session_id is Some,
        ensures
            final(self).wf(),
            r.0 == old(self).permission,
            r.1 matches AgentEvent::Permission { run_id, epoch, seq, request } && run_id
                == old(self).ident.run_id && epoch == old(self).ident.epoch && seq == old(
                self,
            ).next_seq && same_prompt(request, prompt),
            *final(self) == (RunState {
                permission: Some(PendingPermission { prompt, rpc_id }),
                next_seq: (old(self).next_seq + 1) as u64,
                ..*old(self)
            }),
    {
        let shown = copy_prompt(&prompt);
        let previous = self.permission.take();
        self.permission = Some(PendingPermission { prompt, rpc_id });
        let seq = self.take_seq();
        let ev = AgentEvent::Permission {
            run_id: self.ident.run_id.clone(),
            epoch: self.ident.epoch,
            seq,
            request: shown,
        };
        (previous, ev)
    }

    /// Applies one `session/update`. An update naming a session this run does
    /// not own is counted and not applied. An update with no turn in flight
    /// belongs to no entry: appending it would repaint a finished turn or
    /// attribute one turn's output to the next, so it is counted and dropped.
    /// Otherwise the streamed text accumulates in the turn's entry, and the
    /// entry to persist is returned.
    pub fn apply_update(&mut self, update: SessionUpdate) -> (r: Option<EntryUpdate>)
        requires
            old(self).wf(),
            old(self).has_room(),
        ensures
            final(self).wf(),
            ({
                let foreign = old(self).acp_session_id matches Some(ours) && ours@
                    != update.session_id@;
                let turn = old(self).turn;
                &&& foreign ==> (r is None && *final(self) == (RunState {
                    unmatched_replies: (old(self).unmatched_replies + 1) as u64,
                    ..*old(self)
                }))
                &&& (!foreign && !old(self).prompt_in_flight) ==> {
                    &&& r is None
                    &&& texts(final(self).stderr_tail@) == stderr_after(
                        texts(old(self).stderr_tail@),
                        DROPPED_UPDATE@,
                    )
                    &&& *final(self) == (RunState {
                        unattributed_updates: (old(self).unattributed_updates + 1) as u64,
                        stderr_tail: final(self).stderr_tail,
                        ..*old(self)
                    })
                }
                &&& (!foreign && old(self).prompt_in_flight) ==> match update.delta {
                    TranscriptDelta::AgentMessage { text } => {
                        &&& final(self).agent_body@ == old(self).agent_body@ + text@
                        &&& *final(self) == (RunState {
                            agent_body: final(self).agent_body,
                            ..*old(self)
                        })
                        &&& r matches Some(e) && entry_is(
                            e,
                            keyed("agent:"@, turn),
                            "agent"@,
                            turn,
                            final(self).agent_body@,
                            Some("streaming"@),
                        )
                    },
                    TranscriptDelta::Thought { text } => {
                        &&& final(self).thought_body@ == old(self).thought_body@ + text@
                        &&& *final(self) == (RunState {
                            thought_body: final(self).thought_body,
                            ..*old(self)
                        })
                        &&& r matches Some(e) && entry_is(
                            e,
                            keyed("thought:"@, turn),
                            "thought"@,
                            turn,
                            final(self).thought_body@,
                            Some("streaming"@),
                        )
                    },
                    TranscriptDelta::ToolCall { tool_call_id, title, kind, status, content } => {
                        let idx = tool_index(old(self).tools@, tool_call_id@);
                        let k = match idx {
                            Some(i) => i,
                            None => old(self).tools@.len() as int,
                        };
                        let stored = final(self).tools@[k].1;
                        &&& final(self).tools@.len() == old(self).tools@.len() + (if idx is None {
                            1int
                        } else {
                            0int
                        })
                        &&& final(self).tools@[k].0@ == tool_call_id@
                        &&& tool_updated(
                            match idx {
                                Some(i) => Some(old(self).tools@[i].1),
                                None => None,
                            },
                            title,
                            kind,
                            status,
                            content@,
                            stored,
                        )
                        &&& forall|j: int|
                            0 <= j < old(self).tools@.len() && j != k ==> final(self).tools@[j]
                                == old(self).tools@[j]
                        &&& *final(self) == (RunState { tools: final(self).tools, ..*old(self) })
                        &&& r matches Some(e) && entry_is(
                            e,
                            "tool:"@ + tool_call_id@,
                            "tool"@,
                            turn,
                            tool_body(stored),
                            opt_text(stored.status),
                        )
                    },
                    TranscriptDelta::Other { .. } => r is None && *final(self) == *old(self),
                }
            }),
    {
        let foreign = match &self.acp_session_id {
            Some(ours) => !str_eq(ours.as_str(), update.session_id.as_str()),
            None => false,
        };
        if foreign {
            self.note_unmatched_reply();
            return None;
        }
        if !self.prompt_in_flight {
            self.unattributed_updates = self.unattributed_updates + 1;
            self.push_stderr(DROPPED_UPDATE);
            return None;
        }
        let turn = self.turn;
        match update.delta {
            TranscriptDelta::AgentMessage { text } => {
                self.agent_body.append(text.as_str());
                Some(entry("agent:", turn, "agent", self.agent_body.as_str(), Some("streaming")))
            },
            TranscriptDelta::Thought { text } => {
                self.thought_body.append(text.as_str());
                Some(entry("thought:", turn, "thought", self.thought_body.as_str(), Some("streaming")))
            },
            TranscriptDelta::ToolCall { tool_call_id, title, kind, status, content } => {
                let n = self.tools.len();
                let mut i: usize = 0;
                let mut found = false;
                while i < n && !found
                    invariant
                        n == self.tools@.len(),
                        i <= n,
                        found ==> i < n && self.tools@[i as int].0@ == tool_call_id@,
                        !found ==> forall|j: int| 0 <= j < i ==> (#[trigger] self.tools@[j]).0@
                            != tool_call_id@,
                    decreases n - i + (if found { 0int } else { 1int }),
                {
                    if str_eq(self.tools[i].0.as_str(), tool_call_id.as_str()) {
                        found = true;
                    } else {
                        i = i + 1;
                    }
                }
                let ghost old_tools = self.tools@;
                let k: usize = if found { i } else { n };
                proof {
                    if found {
                        assert(exists|j: int| 0 <= j < old_tools.len() && (#[trigger] old_tools[j]).0@
                            == tool_call_id@);
                        let c = choose|j: int| 0 <= j < old_tools.len() && (#[trigger] old_tools[j]).0@
                            == tool_call_id@;
                        assert(c == i as int);
                    } else {
                        assert(!(exists|j: int| 0 <= j < old_tools.len() && (#[trigger] old_tools[j]).0@
                            == tool_call_id@));
                    }
                }
                let (previous_title, previous_kind, previous_status, previous_content) = if found {
                    let e = &self.tools[i].1;
                    (clone_text(&e.title), clone_text(&e.kind), clone_text(&e.status), e.content.clone())
                } else {
                    (None, None, None, String::new())
                };
                let new_title = if title.is_some() { title } else { previous_title };
                let new_kind = if kind.is_some() { kind } else { previous_kind };
                let new_status = if status.is_some() { status } else { previous_status };
                let mut new_content = previous_content;
                new_content.append(content.as_str());
                let stored = ToolEntry {
                    title: new_title,
                    kind: new_kind,
                    status: new_status,
                    content: new_content,
                };
                let body = stored.body();
                let entry_status = clone_text(&stored.status);
                let mut key = String::from_str("tool:");
                key.append(tool_call_id.as_str());
                if found {
                    let name = self.tools[i].0.clone();
                    self.tools.set(i, (name, stored));
                } else {
                    self.tools.push((tool_call_id, stored));
                }
                proof {
                    assert forall|a: int, b: int|
                        0 <= a < self.tools@.len() && 0 <= b < self.tools@.len() && a != b implies (
                    #[trigger] self.tools@[a]).0@ != (#[trigger] self.tools@[b]).0@ by {
                        if a != k && b != k {
                            assert(self.tools@[a] == old_tools[a]);
                            assert(self.tools@[b] == old_tools[b]);
                        } else if a == k {
                            assert(self.tools@[b] == old_tools[b]);
                        } else {
                            assert(self.tools@[a] == old_tools[a]);
                        }
                    }
                }
                Some(EntryUpdate {
                    key,
                    role: String::from_str("tool"),
                    turn,
                    body: bound_body(body.as_str()),
                    status: entry_status,
                })
            },
            TranscriptDelta::Other { .. } => None,
        }
    }
}

} // verus!
