//! Thread-first records and the rules the SQLite store applies to them.
//!
//! A thread is the durable unit: it needs no repository, no worktree and no
//! terminal. Sessions hang underneath a thread and may point at a predecessor.
//! Human review state (`seen` / `reviewed`) is deliberately separate from any
//! execution state.
//!
//! This module holds the records, the text bounds every write is checked
//! against, identifier minting and the handoff draft composer. The SQL itself
//! is driven by the application shell, which calls these functions on every
//! write.

mod rows;
mod ops;
pub mod laws;

pub use rows::{
    agent_run_from_row, message_from_row, permission_from_row, review_item_from_row,
    session_from_row, thread_from_row,
};

use vstd::prelude::*;
use crate::clock::{MonotonicClock, format_utc, utc_text};
use crate::db::SqlModel;
use crate::error::{AppError, is_validation_error};
use crate::text::{decimal, push_decimal, str_trim, trimmed};

verus! {

pub const LIMIT_TITLE_CHARS: usize = 200;
pub const LIMIT_NOTES_CHARS: usize = 20_000;
pub const LIMIT_BRIEFING_CHARS: usize = 40_000;
pub const LIMIT_LABEL_CHARS: usize = 200;
pub const LIMIT_KIND_CHARS: usize = 64;
pub const LIMIT_SUMMARY_CHARS: usize = 1_000;
pub const LIMIT_PATH_CHARS: usize = 4_096;
/// Upper bound on one persisted agent transcript entry. A chunk stream that
/// exceeds it is refused rather than silently trimmed by SQLite.
pub const LIMIT_AGENT_BODY_CHARS: usize = 200_000;
pub const LIMIT_AGENT_DETAIL_CHARS: usize = 40_000;
pub const LIMIT_AGENT_KEY_CHARS: usize = 200;
/// Hard ceiling on how many transcript rows one read may return. The store owns
/// this bound, not its caller: a `usize` above `i64::MAX` would cast negative,
/// and SQLite reads a negative `LIMIT` as "no limit at all".
pub const LIMIT_AGENT_LIST_MAX: usize = 2_000;

/// Recorded for a run whose end was never observed, because the process that
/// owned it exited without saying how. It is deliberately not a success claim.
pub const OUTCOME_INTERRUPTED: &'static str =
    "unknown — Faiden exited without recording how this terminal ended";

/// Stated verbatim on every generated handoff draft. This slice has no model
/// integration at all, and the UI must never imply otherwise.
pub const HANDOFF_DISCLOSURE: &'static str = "This is a human-authored handoff draft. It does not resume an AI context: no model session was replayed, continued or contacted.";

/// Recorded for an agent run that was still open when Faiden exited. Agents are
/// owned by this application, so such a run belongs to a process that is gone.
/// It is a lifecycle fact, never a claim that the work finished.
pub const AGENT_OUTCOME_INTERRUPTED: &'static str =
    "disconnected — Faiden exited while this agent session was running";

#[derive(Debug, Clone, PartialEq, Eq)]
pub struct Thread {
    pub id: String,
    pub title: String,
    pub notes: String,
    pub workdir: Option<String>,
    pub created_at: i64,
    pub updated_at: i64,
    pub seen_at: Option<i64>,
    pub reviewed_at: Option<i64>,
}

#[derive(Debug, Clone, PartialEq, Eq)]
pub struct Session {
    pub id: String,
    pub thread_id: String,
    pub label: String,
    pub kind: String,
    pub predecessor_id: Option<String>,
    pub briefing: String,
    pub created_at: i64,
    pub ended_at: Option<i64>,
    pub outcome: Option<String>,
}

#[derive(Debug, Clone)]
pub struct NewSession {
    pub label: String,
    pub kind: String,
    pub predecessor_id: Option<String>,
    pub briefing: String,
}

#[derive(Debug, Clone, PartialEq, Eq)]
pub struct ReviewItem {
    pub id: String,
    pub thread_id: String,
    pub session_id: Option<String>,
    pub kind: String,
    pub summary: String,
    pub created_at: i64,
    pub seen_at: Option<i64>,
    pub reviewed_at: Option<i64>,
}

/// One owned `hermes acp` child process, bound to the Faiden session it serves.
#[derive(Debug, Clone, PartialEq, Eq)]
pub struct AgentRun {
    pub run_id: String,
    pub session_id: String,
    pub program: String,
    /// The directory the child was started in. Not an observed tool cwd.
    pub cwd: Option<String>,
    /// The agent's own session id, known only once `session/new` answered.
    pub acp_session_id: Option<String>,
    pub started_at: i64,
    pub ended_at: Option<i64>,
    pub outcome: Option<String>,
}

#[derive(Debug, Clone, PartialEq, Eq)]
pub struct AgentMessage {
    pub id: String,
    pub run_id: String,
    /// Streaming identity: repeated chunks for one turn share a key.
    pub key: String,
    /// `user` | `agent` | `thought` | `tool` | `system`.
    pub role: String,
    pub turn: i64,
    pub body: String,
    /// JSON side-channel for tool calls (kind, raw input); never rendered raw.
    pub detail: Option<String>,
    pub status: Option<String>,
    pub created_at: i64,
    pub updated_at: i64,
}

/// The fields of a transcript entry, passed as one value so streaming callers
/// read as data rather than as a long positional argument list.
#[derive(Debug, Clone, Copy)]
pub struct AgentMessageDraft<'a> {
    pub key: &'a str,
    pub role: &'a str,
    pub turn: i64,
    pub body: &'a str,
    pub detail: Option<&'a str>,
    pub status: Option<&'a str>,
}

#[derive(Debug, Clone, PartialEq, Eq)]
pub struct AgentPermissionRecord {
    pub id: String,
    pub run_id: String,
    pub title: String,
    pub detail: String,
    /// The offered options, verbatim JSON as the agent sent them.
    pub options: String,
    pub created_at: i64,
    pub resolved_at: Option<i64>,
    pub resolution: Option<String>,
}

/// Results waiting to be looked at on one thread. Independent of the thread's
/// own seen/reviewed state, which records what a human did rather than what an
/// agent produced afterwards.
#[derive(Debug, Clone, PartialEq, Eq)]
pub struct UnseenReviewCount {
    pub thread_id: String,
    pub unseen: i64,
}

/// How a permission request ended. `Cancelled` is ACP's spelling for "not
/// allowed" and is what every fail-closed path records.
#[derive(Debug, Clone, PartialEq, Eq)]
pub enum AgentPermissionResolution {
    Selected { option_id: String },
    Cancelled,
}

/// The text a resolution is stored as.
pub open spec fn resolution_record(r: AgentPermissionResolution) -> Seq<char> {
    match r {
        AgentPermissionResolution::Selected { option_id } => "selected:"@ + option_id@,
        AgentPermissionResolution::Cancelled => "cancelled"@,
    }
}

impl AgentPermissionResolution {
    pub fn as_record(&self) -> (s: String)
        ensures
            s@ == resolution_record(*self),
    {
        match self {
            AgentPermissionResolution::Selected { option_id } => {
                let mut s = String::from_str("selected:");
                s.append(option_id.as_str());
                s
            },
            AgentPermissionResolution::Cancelled => String::from_str("cancelled"),
        }
    }
}

/// The thread-first SQLite store. One connection; the host serializes access
/// to it.
pub struct Store {
    conn: rusqlite::Connection,
    clock: MonotonicClock,
    issued: Ghost<Seq<(Seq<char>, Seq<SqlModel>)>>,
    asked: Ghost<Seq<(Seq<char>, Seq<SqlModel>)>>,
    answered: Ghost<Seq<Seq<Vec<crate::db::SqlValue>>>>,
}

impl Store {
    /// Every query this store has handed to SQLite to read the database since
    /// it was opened, in order: its text and its parameters.
    pub closed spec fn asked(&self) -> Seq<(Seq<char>, Seq<SqlModel>)> {
        self.asked@
    }

    /// What SQLite answered to each query of [`Store::asked`], in the same
    /// order: the rows it returned, or none when the query failed.
    pub closed spec fn answers(&self) -> Seq<Seq<Vec<crate::db::SqlValue>>> {
        self.answered@
    }

    /// Every statement this store has handed to SQLite to change the database
    /// since it was opened, in order: its text and its parameters. Reads are
    /// listed by [`Store::asked`] instead.
    pub closed spec fn issued(&self) -> Seq<(Seq<char>, Seq<SqlModel>)> {
        self.issued@
    }

    /// The instant of the store's latest write, as its clock handed it out.
    pub closed spec fn time(&self) -> i64 {
        self.clock@
    }

    /// The store's clock can hand out another instant.
    pub closed spec fn clock_ok(&self) -> bool {
        self.clock@ < i64::MAX
    }

    /// Whether [`Store::clock_ok`] holds. A host checks it before each write;
    /// only a clock that has reached the end of time fails it.
    pub fn clock_left(&self) -> (b: bool)
        ensures
            b == self.clock_ok(),
    {
        self.clock.last_ms() < i64::MAX
    }
}

#[derive(Debug, Clone)]
pub struct HandoffDraft {
    pub thread_id: String,
    pub predecessor_session_id: Option<String>,
    pub text: String,
    pub disclosure: String,
    pub generated_at: i64,
}

// --- identifiers --------------------------------------------------------------

pub open spec fn is_lower_hex(c: char) -> bool {
    ('0' <= c && c <= '9') || ('a' <= c && c <= 'f')
}

/// The shape of a v4 UUID in its simple form: 32 lowercase hex digits.
pub open spec fn is_simple_uuid(s: Seq<char>) -> bool {
    s.len() == 32 && forall|i: int| 0 <= i < s.len() ==> is_lower_hex(#[trigger] s[i])
}

/// `uuid::Uuid::new_v4().simple()`, rendered. The value is random; what is
/// promised is its shape, which `Simple`'s `Display` writes as 32 lowercase
/// hex digits with no separators.
#[verifier::external_body]
fn simple_uuid_v4() -> (s: String)
    ensures
        is_simple_uuid(s@),
{
    uuid::Uuid::new_v4().simple().to_string()
}

/// A fresh identifier `{prefix}_{uuid}`.
pub fn new_id(prefix: &str) -> (id: String)
    ensures
        exists|u: Seq<char>| is_simple_uuid(u) && id@ == prefix@ + "_"@ + u,
{
    let u = simple_uuid_v4();
    let mut id = String::from_str(prefix);
    id.append("_");
    id.append(u.as_str());
    proof {
        reveal_strlit("_");
        assert(id@ == prefix@ + "_"@ + u@);
    }
    id
}

// --- text bounds --------------------------------------------------------------

/// The value a text field is checked and stored as.
pub open spec fn checked_value(value: Seq<char>, trim: bool) -> Seq<char> {
    if trim {
        trimmed(value)
    } else {
        value
    }
}

/// Why a value shorter than `min_chars` is refused.
pub open spec fn too_short_message(min_chars: nat) -> Seq<char> {
    if min_chars == 1 {
        "must not be blank"@
    } else {
        "must be at least "@ + decimal(min_chars) + " characters"@
    }
}

/// Why a value longer than `max_chars` is refused.
pub open spec fn too_long_message(max_chars: nat, len: nat) -> Seq<char> {
    "must be at most "@ + decimal(max_chars) + " characters (got "@ + decimal(len) + ")"@
}

/// True when `value` passes the bounds of [`validate_text`].
pub open spec fn within(value: Seq<char>, min_chars: nat, max_chars: nat, trim: bool) -> bool {
    let v = checked_value(value, trim);
    min_chars <= v.len() <= max_chars
}

/// `e` is how [`validate_text`] refuses `value` for `field`.
pub open spec fn refused_as(
    e: AppError,
    field: Seq<char>,
    value: Seq<char>,
    min_chars: nat,
    max_chars: nat,
    trim: bool,
) -> bool {
    let v = checked_value(value, trim);
    if v.len() < min_chars {
        is_validation_error(e, field, too_short_message(min_chars))
    } else {
        is_validation_error(e, field, too_long_message(max_chars, v.len()))
    }
}

/// Character-counted (not byte-counted) bounds, so multi-byte titles are not
/// silently rejected. With `trim`, surrounding whitespace is dropped first and
/// the trimmed text is what is checked and returned.
pub fn validate_text(field: &str, value: &str, min_chars: usize, max_chars: usize, trim: bool) -> (r:
    Result<String, AppError>)
    ensures
        match r {
            Ok(s) => within(value@, min_chars as nat, max_chars as nat, trim) && s@
                == checked_value(value@, trim),
            Err(e) => !within(value@, min_chars as nat, max_chars as nat, trim) && refused_as(
                e,
                field@,
                value@,
                min_chars as nat,
                max_chars as nat,
                trim,
            ),
        },
{
    let checked: &str = if trim {
        str_trim(value)
    } else {
        value
    };
    let len = checked.unicode_len();
    if len < min_chars {
        let message = if min_chars == 1 {
            String::from_str("must not be blank")
        } else {
            let mut m = String::from_str("must be at least ");
            push_decimal(&mut m, min_chars as u64);
            m.append(" characters");
            m
        };
        return Err(AppError::validation(field, message.as_str()));
    }
    if len > max_chars {
        let mut m = String::from_str("must be at most ");
        push_decimal(&mut m, max_chars as u64);
        m.append(" characters (got ");
        push_decimal(&mut m, len as u64);
        m.append(")");
        return Err(AppError::validation(field, m.as_str()));
    }
    Ok(String::from_str(checked))
}


// --- handoff drafts -----------------------------------------------------------

/// The closing checklist of every handoff draft.
pub const HANDOFF_CARRY_FORWARD: &'static str = "\n\n## Carry forward (edit before use)\n- Goal:\n- Decisions made:\n- Approaches rejected:\n- Open tasks:\n- Verified evidence (link artifacts, do not assert success):\n- Active work still running:\n";

/// True when `s` holds nothing but whitespace.
pub open spec fn blank(s: Seq<char>) -> bool {
    trimmed(s).len() == 0
}

pub open spec fn or_placeholder(s: Seq<char>, placeholder: Seq<char>) -> Seq<char> {
    if blank(s) {
        placeholder
    } else {
        s
    }
}

pub open spec fn predecessor_section(predecessor: Option<Session>) -> Seq<char> {
    match predecessor {
        Some(s) => s.label@ + " ("@ + s.kind@ + "), started "@ + utc_text(s.created_at as int)
            + " (UTC), id "@ + s.id@ + "\n\n"@ + or_placeholder(
            s.briefing@,
            "(no briefing recorded on the predecessor)"@,
        ),
        None => "(none — this draft starts a new line of work)"@,
    }
}

pub open spec fn environment_section(workdir: Option<String>) -> Seq<char> {
    match workdir {
        Some(dir) => "Directory selected for this thread: "@ + dir@
            + "\nProvenance: user selection recorded in Faiden. Not observed from any running process."@,
        None => "No directory bound to this thread."@,
    }
}

/// The text of a handoff draft for `thread`, continuing from `predecessor`,
/// generated at `now`.
pub open spec fn handoff_text(thread: Thread, predecessor: Option<Session>, now: int) -> Seq<char> {
    "# Handoff draft — "@ + thread.title@ + "\n"@ + "Generated "@ + utc_text(now) + " (UTC)\n\n"@
        + HANDOFF_DISCLOSURE@ + "\n\n## Thread notes\n"@ + or_placeholder(
        thread.notes@,
        "(no notes recorded)"@,
    ) + "\n\n## Predecessor session\n"@ + predecessor_section(predecessor)
        + "\n\n## Environment\n"@ + environment_section(thread.workdir) + HANDOFF_CARRY_FORWARD@
}

fn is_blank(s: &str) -> (b: bool)
    ensures
        b == blank(s@),
{
    str_trim(s).unicode_len() == 0
}

/// Composes an editable handoff draft's text. Nothing is persisted: the user
/// reviews and edits the text, then explicitly creates a session from it.
#[verifier::rlimit(40)]
pub fn compose_handoff_text(thread: &Thread, predecessor: Option<&Session>, now: i64) -> (text:
    String)
    ensures
        text@ == handoff_text(
            *thread,
            match predecessor {
                Some(s) => Some(*s),
                None => None,
            },
            now as int,
        ),
{
    let mut out = String::from_str("# Handoff draft — ");
    out.append(thread.title.as_str());
    out.append("\n");
    out.append("Generated ");
    let generated = format_utc(now);
    out.append(generated.as_str());
    out.append(" (UTC)\n\n");
    out.append(HANDOFF_DISCLOSURE);
    out.append("\n\n## Thread notes\n");
    let ghost head = out@;
    if is_blank(thread.notes.as_str()) {
        out.append("(no notes recorded)");
    } else {
        out.append(thread.notes.as_str());
    }
    let ghost notes = out@;
    assert(notes == head + or_placeholder(thread.notes@, "(no notes recorded)"@));
    out.append("\n\n## Predecessor session\n");
    let ghost before = out@;
    match predecessor {
        Some(s) => {
            out.append(s.label.as_str());
            out.append(" (");
            out.append(s.kind.as_str());
            out.append("), started ");
            let started = format_utc(s.created_at);
            out.append(started.as_str());
            out.append(" (UTC), id ");
            out.append(s.id.as_str());
            out.append("\n\n");
            let ghost mid = out@;
            if is_blank(s.briefing.as_str()) {
                out.append("(no briefing recorded on the predecessor)");
            } else {
                out.append(s.briefing.as_str());
            }
            assert(out@ =~= before + predecessor_section(Some(*s)));
        },
        None => {
            out.append("(none — this draft starts a new line of work)");
            assert(out@ =~= before + predecessor_section(None));
        },
    }
    let ghost with_predecessor = out@;
    out.append("\n\n## Environment\n");
    let ghost env_head = out@;
    match &thread.workdir {
        Some(dir) => {
            out.append("Directory selected for this thread: ");
            out.append(dir.as_str());
            out.append(
                "\nProvenance: user selection recorded in Faiden. Not observed from any running process.",
            );
        },
        None => {
            out.append("No directory bound to this thread.");
        },
    }
    assert(out@ =~= env_head + environment_section(thread.workdir));
    out.append(HANDOFF_CARRY_FORWARD);
    assert(out@ =~= handoff_text(
        *thread,
        match predecessor {
            Some(s) => Some(*s),
            None => None,
        },
        now as int,
    ));
    out
}

/// The draft returned to the user: the composed text with its disclosure,
/// stamped with the instant it was generated.
pub fn handoff_draft(thread: &Thread, predecessor: Option<&Session>, generated_at: i64) -> (d:
    HandoffDraft)
    ensures
        d.thread_id@ == thread.id@,
        d.predecessor_session_id == (match predecessor {
            Some(s) => Some(s.id),
            None => None::<String>,
        }),
        d.text@ == handoff_text(
            *thread,
            match predecessor {
                Some(s) => Some(*s),
                None => None,
            },
            generated_at as int,
        ),
        d.disclosure@ == HANDOFF_DISCLOSURE@,
        d.generated_at == generated_at,
{
    let text = compose_handoff_text(thread, predecessor, generated_at);
    HandoffDraft {
        thread_id: thread.id.clone(),
        predecessor_session_id: match predecessor {
            Some(s) => Some(s.id.clone()),
            None => None,
        },
        text,
        disclosure: String::from_str(HANDOFF_DISCLOSURE),
        generated_at,
    }
}

} // verus!
