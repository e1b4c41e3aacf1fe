//! The observable shape of one agent run: its status vocabulary, the events a
//! view subscribes to, and the records a snapshot hands out.
//!
//! Design notes the tests pin down:
//!
//! * **Status is derived from protocol events, never from liveness.** A running
//!   child that has not completed `initialize` *and* `session/new` is
//!   `connecting`, not `ready`.
//! * **Every event carries `epoch` and `seq`.** A view subscribes, then
//!   snapshots, and discards anything below the snapshot's `next_seq` — the same
//!   discipline the terminal uses.
//! * **Permissions fail closed.** Timeout, cancel, disconnect and quit all
//!   answer `{"outcome":"cancelled"}`. No path turns silence into an allow.
//! * **`turn_complete` is not success.** It records the literal `stopReason`.
//!
//! The decisions themselves live in [`crate::agent::run_state`].

use vstd::prelude::*;
use crate::agent::protocol::PermissionOption;
use crate::agent::locate::{HermesInstall, probed};
use crate::AgentCwd;
use crate::error::{AppError, is_conflict_error, is_validation_error};
use crate::store::{AgentMessage, LIMIT_AGENT_BODY_CHARS, LIMIT_SUMMARY_CHARS, blank};
use crate::text::str_trim;

verus! {

/// Transcript entries kept for one run. Older entries stay in SQLite; the view
/// is told it is looking at a truncated tail rather than a whole history.
pub const MAX_TRANSCRIPT_ENTRIES: usize = 500;
/// Bounded stderr diagnostics. stdout is protocol-only; stderr is where the
/// adapter logs, and it must never grow without limit.
pub const MAX_STDERR_LINES: usize = 200;
pub const MAX_STDERR_LINE_CHARS: usize = 2_000;
/// Backstop for a single turn, in seconds (six hours). Turns are legitimately
/// long, so this is only a last resort against a waiter parked forever; EOF and
/// `stop` are the normal ways a wait ends.
pub const TURN_BACKSTOP_SECS: u64 = 21_600;
/// Stated in the UI. Faiden hosts the process; it does not contain it.
pub const AUTHORITY_DISCLOSURE: &'static str = "This agent runs the Hermes you installed, with your user's authority, your Hermes configuration and your Hermes tools, including any MCP servers you configured globally. It is not a sandbox. Faiden removes inherited approval-bypass variables before starting it, but a bypass configured inside your own Hermes config or .env is loaded by Hermes itself and is outside Faiden's control.";

/// The `Duration` that `Duration::from_secs(secs)` makes.
pub uninterp spec fn duration_secs(secs: u64) -> std::time::Duration;

/// `std::time::Duration::from_secs`.
#[verifier::external_body]
fn duration_from_secs(secs: u64) -> (d: std::time::Duration)
    ensures
        d == duration_secs(secs),
{
    std::time::Duration::from_secs(secs)
}

/// How long a Faiden-side operation may wait. Hermes auto-denies a permission
/// request after 60 s of its own, so `permission` is deliberately shorter: the
/// answer the user sees must be the answer that lands.
#[derive(Debug, Clone, Copy)]
pub struct AgentTimeouts {
    pub handshake: std::time::Duration,
    pub permission: std::time::Duration,
    pub shutdown: std::time::Duration,
}

impl Default for AgentTimeouts {
    fn default() -> (t: AgentTimeouts)
        ensures
            t.handshake == duration_secs(45),
            t.permission == duration_secs(45),
            t.shutdown == duration_secs(5),
    {
        AgentTimeouts {
            handshake: duration_from_secs(45),
            permission: duration_from_secs(45),
            shutdown: duration_from_secs(5),
        }
    }
}

/// The one argument a Hermes adapter is started with: its ACP mode.
pub const HERMES_ACP_ARG: &'static str = "acp";

/// What to start. The command layer never forwards a caller-supplied `program`
/// or `args`: it resolves the executable itself, exactly as the terminal
/// refuses to let web content choose a command.
#[derive(Debug, Clone)]
pub struct AgentSpec {
    /// The Faiden session this run belongs to.
    pub session_id: String,
    pub program: String,
    pub args: Vec<String>,
    /// Absolute. `session/new` is told this same directory.
    pub cwd: String,
    /// Extra variables merged over the inherited environment. Approval-bypass
    /// names are stripped from the result, so nothing here can reintroduce one.
    pub env: Vec<(String, String)>,
    /// Where the executable was found. Provenance for display.
    pub source: String,
    pub timeouts: AgentTimeouts,
}

impl AgentSpec {
    /// The run that an explicit "start agent" asks for: the located Hermes, in
    /// the planned directory, with a fixed argv. Nothing from the view reaches
    /// the argv, and no auto-approval flag appears anywhere in it.
    pub fn for_hermes(session_id: String, install: HermesInstall, cwd: AgentCwd) -> (spec: AgentSpec)
        ensures
            spec.session_id@ == session_id@,
            spec.program@ == install.program@,
            spec.source@ == install.source@,
            spec.cwd@ == cwd.path@,
            spec.args@.len() == 1,
            spec.args@[0]@ == HERMES_ACP_ARG@,
            spec.env@.len() == 0,
            spec.timeouts.handshake == duration_secs(45),
            spec.timeouts.permission == duration_secs(45),
            spec.timeouts.shutdown == duration_secs(5),
    {
        let mut args: Vec<String> = Vec::new();
        args.push(HERMES_ACP_ARG.to_string());
        AgentSpec {
            session_id,
            program: install.program,
            args,
            cwd: cwd.path,
            env: Vec::new(),
            source: install.source,
            timeouts: AgentTimeouts::default(),
        }
    }
}

#[derive(Debug, Clone, Copy, PartialEq, Eq, Structural)]
pub enum AgentStatus {
    /// The child is alive but the handshake has not finished. Never "ready".
    Connecting,
    Ready,
    Responding,
    AwaitingPermission,
    /// A cancel has been sent; the turn has not returned yet.
    Cancelling,
    /// A turn returned a `stopReason`. Not a claim that anything succeeded.
    TurnComplete,
    Disconnected,
    Error,
}

/// The wire spelling of a status.
pub open spec fn status_text(s: AgentStatus) -> Seq<char> {
    match s {
        AgentStatus::Connecting => "connecting"@,
        AgentStatus::Ready => "ready"@,
        AgentStatus::Responding => "responding"@,
        AgentStatus::AwaitingPermission => "awaitingPermission"@,
        AgentStatus::Cancelling => "cancelling"@,
        AgentStatus::TurnComplete => "turnComplete"@,
        AgentStatus::Disconnected => "disconnected"@,
        AgentStatus::Error => "error"@,
    }
}

/// The statuses that describe a live ACP session. None of them can be reached
/// before `session/new` has answered with a session id.
pub open spec fn needs_session(s: AgentStatus) -> bool {
    match s {
        AgentStatus::Ready | AgentStatus::Responding | AgentStatus::AwaitingPermission
        | AgentStatus::Cancelling | AgentStatus::TurnComplete => true,
        _ => false,
    }
}

impl AgentStatus {
    /// Whether this status describes a live ACP session.
    pub fn needs_session(&self) -> (b: bool)
        ensures
            b == needs_session(*self),
    {
        match self {
            AgentStatus::Ready | AgentStatus::Responding | AgentStatus::AwaitingPermission
            | AgentStatus::Cancelling | AgentStatus::TurnComplete => true,
            _ => false,
        }
    }

    pub fn as_str(&self) -> (s: &'static str)
        ensures
            s@ == status_text(*self),
    {
        match self {
            AgentStatus::Connecting => "connecting",
            AgentStatus::Ready => "ready",
            AgentStatus::Responding => "responding",
            AgentStatus::AwaitingPermission => "awaitingPermission",
            AgentStatus::Cancelling => "cancelling",
            AgentStatus::TurnComplete => "turnComplete",
            AgentStatus::Disconnected => "disconnected",
            AgentStatus::Error => "error",
        }
    }
}

/// A permission request awaiting a human answer. `request_id` is Faiden's own
/// id: the webview never learns, and never supplies, a JSON-RPC id.
#[derive(Debug, Clone, PartialEq, Eq)]
pub struct PermissionPrompt {
    pub request_id: String,
    pub run_id: String,
    pub tool_call_id: String,
    pub title: String,
    pub detail: String,
    pub options: Vec<PermissionOption>,
    pub created_at: i64,
    /// When Faiden will answer `cancelled` on the user's behalf.
    pub expires_at: i64,
}

#[derive(Debug, Clone, PartialEq, Eq)]
pub struct AgentRunInfo {
    pub run_id: String,
    pub session_id: String,
    pub epoch: u64,
    pub pid: Option<u32>,
    pub program: String,
    /// Where the executable was found.
    pub source: String,
    /// The directory the child was started in and that `session/new` was told.
    /// Not an observed tool cwd.
    pub cwd: String,
    pub acp_session_id: Option<String>,
    pub status: AgentStatus,
    /// The agent's own words for the last thing that happened.
    pub detail: Option<String>,
    pub started_at: i64,
    pub ended_at: Option<i64>,
    pub prompt_in_flight: bool,
    pub disclosure: String,
}

#[derive(Debug, Clone)]
pub struct AgentSnapshot {
    pub info: AgentRunInfo,
    pub messages: Vec<AgentMessage>,
    /// True when older entries exist that this snapshot does not include.
    pub truncated: bool,
    pub pending_permission: Option<PermissionPrompt>,
    pub next_seq: u64,
}

#[derive(Debug, Clone)]
pub struct AgentDiagnostics {
    pub run_id: String,
    /// Replies whose id we had not issued, or had already settled.
    pub unmatched_replies: u64,
    /// Lines that were not usable protocol: malformed, alien or oversized.
    pub protocol_faults: u64,
    /// Requests refused fail-closed: a session this run does not own, no turn
    /// in flight, or a run that has already ended.
    pub refused_requests: u64,
    /// `session/update` notifications that belonged to no live turn and were
    /// therefore not written to any transcript entry.
    pub unattributed_updates: u64,
    /// Bounded tail of the child's stderr. Diagnostics, not protocol.
    pub stderr_tail: String,
}

#[derive(Debug, Clone, PartialEq)]
pub enum AgentEvent {
    Status { run_id: String, epoch: u64, seq: u64, status: AgentStatus, detail: Option<String> },
    Message { run_id: String, epoch: u64, seq: u64, message: AgentMessage },
    Permission { run_id: String, epoch: u64, seq: u64, request: PermissionPrompt },
    PermissionResolved {
        run_id: String,
        epoch: u64,
        seq: u64,
        request_id: String,
        resolution: String,
    },
    Ended { run_id: String, epoch: u64, seq: u64, outcome: String },
}

/// The run an event belongs to.
pub open spec fn event_run_id(e: AgentEvent) -> String {
    match e {
        AgentEvent::Status { run_id, .. } => run_id,
        AgentEvent::Message { run_id, .. } => run_id,
        AgentEvent::Permission { run_id, .. } => run_id,
        AgentEvent::PermissionResolved { run_id, .. } => run_id,
        AgentEvent::Ended { run_id, .. } => run_id,
    }
}

/// An event's place in its run's sequence.
pub open spec fn event_seq(e: AgentEvent) -> u64 {
    match e {
        AgentEvent::Status { seq, .. } => seq,
        AgentEvent::Message { seq, .. } => seq,
        AgentEvent::Permission { seq, .. } => seq,
        AgentEvent::PermissionResolved { seq, .. } => seq,
        AgentEvent::Ended { seq, .. } => seq,
    }
}

impl AgentEvent {
    pub fn run_id(&self) -> (r: &str)
        ensures
            r@ == event_run_id(*self)@,
    {
        match self {
            AgentEvent::Status { run_id, .. } => run_id.as_str(),
            AgentEvent::Message { run_id, .. } => run_id.as_str(),
            AgentEvent::Permission { run_id, .. } => run_id.as_str(),
            AgentEvent::PermissionResolved { run_id, .. } => run_id.as_str(),
            AgentEvent::Ended { run_id, .. } => run_id.as_str(),
        }
    }

    pub fn seq(&self) -> (s: u64)
        ensures
            s == event_seq(*self),
    {
        match self {
            AgentEvent::Status { seq, .. } => *seq,
            AgentEvent::Message { seq, .. } => *seq,
            AgentEvent::Permission { seq, .. } => *seq,
            AgentEvent::PermissionResolved { seq, .. } => *seq,
            AgentEvent::Ended { seq, .. } => *seq,
        }
    }
}

pub trait AgentEvents: Send + Sync + 'static {
    fn emit(&self, event: AgentEvent);
}

/// Used where events are not wanted.
pub struct NoAgentEvents;

impl AgentEvents for NoAgentEvents {
    fn emit(&self, _event: AgentEvent) {
    }
}

// --- transcript bodies --------------------------------------------------------

/// What one tool call has reported so far. Later updates fill in what they
/// know; content accumulates.
#[derive(Debug, Default, Clone)]
pub struct ToolEntry {
    pub title: Option<String>,
    pub kind: Option<String>,
    pub status: Option<String>,
    pub content: String,
}

/// The first line of a tool entry: its title (or `Tool call`), then its kind
/// in brackets when one is known.
pub open spec fn tool_head(e: ToolEntry) -> Seq<char> {
    let title = match e.title {
        Some(t) => t@,
        None => "Tool call"@,
    };
    match e.kind {
        Some(k) => title + " ["@ + k@ + "]"@,
        None => title,
    }
}

/// The transcript text of a tool entry: the head, then the content on the next
/// line unless it is blank.
pub open spec fn tool_body(e: ToolEntry) -> Seq<char> {
    if blank(e.content@) {
        tool_head(e)
    } else {
        tool_head(e) + "\n"@ + e.content@
    }
}

impl ToolEntry {
    pub fn body(&self) -> (s: String)
        ensures
            s@ == tool_body(*self),
    {
        let mut head = match &self.title {
            Some(t) => t.clone(),
            None => String::from_str("Tool call"),
        };
        match &self.kind {
            Some(k) => {
                head.append(" [");
                head.append(k.as_str());
                head.append("]");
            },
            None => {},
        }
        if str_trim(self.content.as_str()).unicode_len() == 0 {
            head
        } else {
            head.append("\n");
            head.append(self.content.as_str());
            head
        }
    }
}

/// The banner that replaces the oldest text of an over-long entry.
pub const BODY_DROPPED_BANNER: &'static str =
    "[earlier output dropped: this entry exceeded 200000 characters]\n";

/// A transcript body as it is persisted: unchanged up to the limit; past it,
/// the banner and then the newest text, so the whole stays under the limit.
pub open spec fn bounded_body(body: Seq<char>) -> Seq<char> {
    if body.len() <= LIMIT_AGENT_BODY_CHARS {
        body
    } else {
        BODY_DROPPED_BANNER@ + body.skip(body.len() - LIMIT_AGENT_BODY_CHARS + 200)
    }
}

/// Bounds a body before it reaches the store; the bound is a hard limit, not a
/// silent trim. Keeps the newest text: that is what a reader is watching.
pub fn bound_body(body: &str) -> (s: String)
    ensures
        s@ == bounded_body(body@),
        s@.len() <= LIMIT_AGENT_BODY_CHARS,
{
    let len = body.unicode_len();
    if len <= LIMIT_AGENT_BODY_CHARS {
        return String::from_str(body);
    }
    let skip = len - LIMIT_AGENT_BODY_CHARS + 200;
    let tail = body.substring_char(skip, len);
    let mut s = String::from_str(BODY_DROPPED_BANNER);
    s.append(tail);
    proof {
        reveal_strlit("[earlier output dropped: this entry exceeded 200000 characters]\n");
        assert(tail@ =~= body@.skip(skip as int));
    }
    s
}


/// A review-inbox summary keeps at most its first `LIMIT_SUMMARY_CHARS`
/// characters.
pub fn bounded_summary(summary: &str) -> (s: String)
    ensures
        s@ == if summary@.len() <= LIMIT_SUMMARY_CHARS {
            summary@
        } else {
            summary@.take(LIMIT_SUMMARY_CHARS as int)
        },
{
    if summary.unicode_len() <= LIMIT_SUMMARY_CHARS {
        String::from_str(summary)
    } else {
        String::from_str(summary.substring_char(0, LIMIT_SUMMARY_CHARS))
    }
}

pub const NEEDS_ABSOLUTE_CWD: &'static str = "an agent session needs an absolute working directory";
pub const SESSION_HAS_AGENT: &'static str = "this session already owns a running agent";

/// What an agent's start is checked against before anything is recorded or
/// spawned: its working directory is absolute and, by `is_dir`, an existing
/// directory, and its session does not already own a live run
/// (`session_busy`).
pub fn check_agent_start<F: Fn(&str) -> bool>(cwd: &str, is_dir: F, session_busy: bool) -> (r: Result<
    (),
    AppError,
>)
    requires
        forall|p: &str| is_dir.requires((p,)),
    ensures
        (cwd@.len() == 0 || cwd@[0] != '/') ==> (r matches Err(e) && is_validation_error(
            e,
            "cwd"@,
            NEEDS_ABSOLUTE_CWD@,
        )),
        r is Ok ==> (cwd@.len() > 0 && cwd@[0] == '/' && probed(is_dir, cwd@, true) && !session_busy),
        r matches Err(e) ==> {
            ||| (cwd@.len() == 0 || cwd@[0] != '/')
            ||| (probed(is_dir, cwd@, false) && is_validation_error(
                e,
                "cwd"@,
                cwd@ + " is not an existing directory"@,
            ))
            ||| (probed(is_dir, cwd@, true) && session_busy && is_conflict_error(
                e,
                "AGENT_ALREADY_RUNNING"@,
                SESSION_HAS_AGENT@,
            ))
        },
{
    if cwd.unicode_len() == 0 || cwd.get_char(0) != '/' {
        return Err(AppError::validation("cwd", NEEDS_ABSOLUTE_CWD));
    }
    let exists = is_dir(cwd);
    proof {
        assert(is_dir.ensures((cwd,), exists));
    }
    if !exists {
        let mut m = String::from_str(cwd);
        m.append(" is not an existing directory");
        return Err(AppError::validation("cwd", m.as_str()));
    }
    if session_busy {
        return Err(AppError::conflict("AGENT_ALREADY_RUNNING", SESSION_HAS_AGENT));
    }
    Ok(())
}

} // verus!
