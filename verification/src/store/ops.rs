//! The store's operations. Every write validates its text first, checks that
//! what it refers to exists, and reports what the database holds afterwards.
//! Ends are first-writer-wins: a later, contradictory outcome never overwrites
//! the observed fact.

use vstd::prelude::*;
use crate::clock::MonotonicClock;
use crate::db::{
    SqlModel, SqlValue, db_error, execute, execute_batch, int_at, is_constraint_violation, models,
    open_connection, opt_text, query, text,
};
use crate::error::{AppError, is_conflict_error, is_internal_error, is_not_found_of,
    is_validation_error};
use crate::store::rows::{
    agent_run_from_row, message_from_row, permission_from_row, review_item_from_row,
    session_from_row, thread_from_row, thread_fits, thread_read, session_fits, session_read,
    message_fits, message_read,
    agent_run_read, review_item_read, permission_read, has_text, has_int,
};
use crate::store::{
    AgentMessage, AgentMessageDraft, AgentPermissionRecord, AgentPermissionResolution, AgentRun,
    HandoffDraft, NewSession, ReviewItem, Session, Store, Thread, UnseenReviewCount,
    AGENT_OUTCOME_INTERRUPTED, LIMIT_AGENT_BODY_CHARS, LIMIT_AGENT_DETAIL_CHARS,
    LIMIT_AGENT_KEY_CHARS, LIMIT_AGENT_LIST_MAX, LIMIT_BRIEFING_CHARS, LIMIT_KIND_CHARS,
    LIMIT_LABEL_CHARS, LIMIT_NOTES_CHARS, LIMIT_PATH_CHARS, LIMIT_SUMMARY_CHARS,
    LIMIT_TITLE_CHARS, OUTCOME_INTERRUPTED, checked_value, handoff_draft, is_simple_uuid, new_id,
    refused_as, resolution_record, validate_text, within,
};
use crate::text::{decimal, push_decimal, push_signed, signed_decimal};

verus! {

pub const SCHEMA: &'static str = "
CREATE TABLE IF NOT EXISTS threads (
    seq         INTEGER PRIMARY KEY AUTOINCREMENT,
    id          TEXT NOT NULL UNIQUE,
    title       TEXT NOT NULL,
    notes       TEXT NOT NULL DEFAULT '',
    workdir     TEXT,
    created_at  INTEGER NOT NULL,
    updated_at  INTEGER NOT NULL,
    seen_at     INTEGER,
    reviewed_at INTEGER
);

CREATE TABLE IF NOT EXISTS sessions (
    seq            INTEGER PRIMARY KEY AUTOINCREMENT,
    id             TEXT NOT NULL UNIQUE,
    thread_id      TEXT NOT NULL REFERENCES threads(id) ON DELETE CASCADE,
    label          TEXT NOT NULL,
    kind           TEXT NOT NULL,
    predecessor_id TEXT REFERENCES sessions(id) ON DELETE SET NULL,
    briefing       TEXT NOT NULL DEFAULT '',
    created_at     INTEGER NOT NULL,
    ended_at       INTEGER,
    outcome        TEXT
);
CREATE INDEX IF NOT EXISTS sessions_by_thread ON sessions(thread_id);

CREATE TABLE IF NOT EXISTS review_items (
    seq         INTEGER PRIMARY KEY AUTOINCREMENT,
    id          TEXT NOT NULL UNIQUE,
    thread_id   TEXT NOT NULL REFERENCES threads(id) ON DELETE CASCADE,
    session_id  TEXT REFERENCES sessions(id) ON DELETE SET NULL,
    kind        TEXT NOT NULL,
    summary     TEXT NOT NULL,
    created_at  INTEGER NOT NULL,
    seen_at     INTEGER,
    reviewed_at INTEGER
);
CREATE INDEX IF NOT EXISTS review_items_by_thread ON review_items(thread_id);

-- One row per PTY run, so a terminal's end can be attributed to the session it
-- belonged to even when the process that started it died without saying so.
CREATE TABLE IF NOT EXISTS terminal_runs (
    seq         INTEGER PRIMARY KEY AUTOINCREMENT,
    terminal_id TEXT NOT NULL UNIQUE,
    session_id  TEXT NOT NULL REFERENCES sessions(id) ON DELETE CASCADE,
    started_at  INTEGER NOT NULL,
    ended_at    INTEGER,
    outcome     TEXT
);
CREATE INDEX IF NOT EXISTS terminal_runs_open ON terminal_runs(ended_at);
";

/// Migration 2. Purely additive: it creates tables an older database never
/// had and touches nothing that already exists.
pub const SCHEMA_AGENT: &'static str = "
-- One row per owned `hermes acp` child process.
CREATE TABLE IF NOT EXISTS agent_runs (
    seq            INTEGER PRIMARY KEY AUTOINCREMENT,
    run_id         TEXT NOT NULL UNIQUE,
    session_id     TEXT NOT NULL REFERENCES sessions(id) ON DELETE CASCADE,
    program        TEXT NOT NULL,
    cwd            TEXT,
    acp_session_id TEXT,
    started_at     INTEGER NOT NULL,
    ended_at       INTEGER,
    outcome        TEXT
);
CREATE INDEX IF NOT EXISTS agent_runs_open ON agent_runs(ended_at);
CREATE INDEX IF NOT EXISTS agent_runs_by_session ON agent_runs(session_id);

-- Transcript. `key` is the streaming identity of an entry (an assistant turn,
-- a tool call id), so repeated chunks update one row instead of appending
-- thousands.
CREATE TABLE IF NOT EXISTS agent_messages (
    seq        INTEGER PRIMARY KEY AUTOINCREMENT,
    id         TEXT NOT NULL UNIQUE,
    run_id     TEXT NOT NULL REFERENCES agent_runs(run_id) ON DELETE CASCADE,
    key        TEXT NOT NULL,
    role       TEXT NOT NULL,
    turn       INTEGER NOT NULL,
    body       TEXT NOT NULL,
    detail     TEXT,
    status     TEXT,
    created_at INTEGER NOT NULL,
    updated_at INTEGER NOT NULL,
    UNIQUE(run_id, key)
);
CREATE INDEX IF NOT EXISTS agent_messages_by_run ON agent_messages(run_id, seq);

-- What the agent asked permission for, and the single answer it received.
CREATE TABLE IF NOT EXISTS agent_permission_requests (
    seq         INTEGER PRIMARY KEY AUTOINCREMENT,
    id          TEXT NOT NULL UNIQUE,
    run_id      TEXT NOT NULL REFERENCES agent_runs(run_id) ON DELETE CASCADE,
    title       TEXT NOT NULL,
    detail      TEXT NOT NULL,
    options     TEXT NOT NULL,
    created_at  INTEGER NOT NULL,
    resolved_at INTEGER,
    resolution  TEXT
);
CREATE INDEX IF NOT EXISTS agent_permissions_by_run ON agent_permission_requests(run_id);
";

/// Migration 3. Makes "one live agent per session" a database invariant
/// rather than a check some caller remembers to perform. Any run still open
/// when this runs belongs to a process that is gone, so settling them first is
/// both truthful and what lets the index be created on an existing file.
pub const SCHEMA_AGENT_SINGLE_OWNER: &'static str = "
UPDATE agent_runs
   SET ended_at = COALESCE(ended_at, strftime('%s','now') * 1000),
       outcome  = COALESCE(outcome, 'disconnected — Faiden exited while this agent session was running')
 WHERE ended_at IS NULL;

CREATE UNIQUE INDEX IF NOT EXISTS agent_runs_one_open_per_session
    ON agent_runs(session_id) WHERE ended_at IS NULL;
";

/// How many migrations this build knows.
pub const SCHEMA_VERSION: usize = 3;

pub const THREAD_COLS: &'static str = "id, title, notes, workdir, created_at, updated_at, seen_at, reviewed_at";

// --- the store's reads ---------------------------------------------------------

/// A read of the store.
pub const SELECT_THREAD: &'static str = "SELECT id, title, notes, workdir, created_at, updated_at, seen_at, reviewed_at FROM threads WHERE id = ?1";
/// A read of the store.
pub const THREAD_EXISTS: &'static str = "SELECT 1 FROM threads WHERE id = ?1";
/// A read of the store.
pub const SELECT_SESSION: &'static str = "SELECT id, thread_id, label, kind, predecessor_id, briefing, created_at, ended_at, outcome FROM sessions WHERE id = ?1";
/// A read of the store.
pub const SELECT_REVIEW_ITEM: &'static str = "SELECT id, thread_id, session_id, kind, summary, created_at, seen_at, reviewed_at FROM review_items WHERE id = ?1";
/// A read of the store.
pub const AGENT_RUN_EXISTS: &'static str = "SELECT 1 FROM agent_runs WHERE run_id = ?1";
/// A read of the store.
pub const SELECT_AGENT_RUN: &'static str = "SELECT run_id, session_id, program, cwd, acp_session_id, started_at, ended_at, outcome FROM agent_runs WHERE run_id = ?1";
/// A read of the store.
pub const SELECT_PERMISSION_REQUEST: &'static str = "SELECT id, run_id, title, detail, options, created_at, resolved_at, resolution FROM agent_permission_requests WHERE id = ?1";
/// A read of the store.
pub const LIST_THREADS: &'static str = "SELECT id, title, notes, workdir, created_at, updated_at, seen_at, reviewed_at FROM threads ORDER BY updated_at DESC, seq DESC";
/// A read of the store.
pub const LIST_SESSIONS: &'static str = "SELECT id, thread_id, label, kind, predecessor_id, briefing, created_at, ended_at, outcome FROM sessions WHERE thread_id = ?1 ORDER BY seq ASC";
/// A read of the store.
pub const TERMINAL_RUN_SESSION: &'static str = "SELECT session_id FROM terminal_runs WHERE terminal_id = ?1";
/// A read of the store.
pub const OPEN_TERMINAL_RUNS: &'static str = "SELECT terminal_id, session_id FROM terminal_runs WHERE ended_at IS NULL";
/// A read of the store.
pub const LIST_AGENT_RUNS: &'static str = "SELECT run_id, session_id, program, cwd, acp_session_id, started_at, ended_at, outcome FROM agent_runs WHERE session_id = ?1 ORDER BY seq ASC";
/// A read of the store.
pub const AGENT_RUN_SESSION: &'static str = "SELECT session_id FROM agent_runs WHERE run_id = ?1";
/// A read of the store.
pub const OPEN_AGENT_RUNS: &'static str = "SELECT run_id, session_id FROM agent_runs WHERE ended_at IS NULL";
/// A read of the store.
pub const SELECT_MESSAGE_BY_KEY: &'static str = "SELECT id, run_id, key, role, turn, body, detail, status, created_at, updated_at FROM agent_messages WHERE run_id = ?1 AND key = ?2";
/// A read of the store.
pub const COUNT_MESSAGES: &'static str = "SELECT COUNT(*) FROM agent_messages WHERE run_id = ?1";
/// A read of the store.
pub const NEWEST_MESSAGES: &'static str = "SELECT id, run_id, key, role, turn, body, detail, status, created_at, updated_at FROM agent_messages WHERE run_id = ?1 ORDER BY seq DESC LIMIT ?2";
/// A read of the store.
pub const LIST_REVIEW_ITEMS: &'static str = "SELECT id, thread_id, session_id, kind, summary, created_at, seen_at, reviewed_at FROM review_items WHERE thread_id = ?1 ORDER BY seq ASC";
/// A read of the store.
pub const UNSEEN_COUNTS: &'static str = "SELECT thread_id, COUNT(*) FROM review_items WHERE seen_at IS NULL GROUP BY thread_id ORDER BY thread_id";
/// A read of the store.
pub const REVIEW_ITEM_EXISTS: &'static str = "SELECT 1 FROM review_items WHERE id = ?1";

/// A database failure as an error of the store.
fn sql<T>(r: Result<T, rusqlite::Error>) -> (out: Result<T, AppError>)
    ensures
        match r {
            Ok(v) => out == Ok::<T, AppError>(v),
            Err(_) => out is Err && out->Err_0 is Internal,
        },
{
    match r {
        Ok(v) => Ok(v),
        Err(e) => Err(db_error(&e)),
    }
}

pub open spec fn schema_too_new_message(current: int) -> Seq<char> {
    "database reports schema version "@ + signed_decimal(current)
        + ", but this build only knows 3; refusing to touch it rather than risk destroying newer data"@
}

/// Which migrations a database at schema version `current` still needs:
/// those from `current` on. A version this build does not know is refused
/// rather than risk destroying newer data.
pub fn pending_migrations(current: i64) -> (r: Result<usize, AppError>)
    ensures
        0 <= current <= 3 ==> r == Ok::<usize, AppError>(current as usize),
        !(0 <= current <= 3) ==> (r is Err && is_internal_error(
            r->Err_0,
            schema_too_new_message(current as int),
        )),
{
    if current < 0 || current > 3 {
        let mut m = String::from_str("database reports schema version ");
        push_signed(&mut m, current);
        m.append(", but this build only knows 3; refusing to touch it rather than risk destroying newer data");
        return Err(AppError::internal(m.as_str()));
    }
    Ok(current as usize)
}

fn migration(index: usize) -> (s: &'static str)
    requires
        index < 3,
    ensures
        index == 0 ==> s@ == SCHEMA@,
        index == 1 ==> s@ == SCHEMA_AGENT@,
        index == 2 ==> s@ == SCHEMA_AGENT_SINGLE_OWNER@,
{
    if index == 0 {
        SCHEMA
    } else if index == 1 {
        SCHEMA_AGENT
    } else {
        SCHEMA_AGENT_SINGLE_OWNER
    }
}

/// Brings a database file up to the current schema, whatever version it is
/// at. Every step is additive, so an older database keeps all of its rows.
fn migrate(conn: &rusqlite::Connection) -> (r: Result<(), AppError>)
    ensures
        r matches Err(e) ==> e is Internal,
{
    let rows = sql(query(conn, "PRAGMA user_version", &Vec::new(), 1))?;
    if rows.len() == 0 {
        return Err(AppError::internal("sqlite: Query returned no rows"));
    }
    let current = int_at(&rows[0], 0)?;
    let start = pending_migrations(current)?;
    let mut index = start;
    while index < SCHEMA_VERSION
        decreases SCHEMA_VERSION - index,
    {
        sql(execute_batch(conn, migration(index)))?;
        let mut stamp = String::from_str("PRAGMA user_version = ");
        push_decimal(&mut stamp, (index + 1) as u64);
        sql(execute_batch(conn, stamp.as_str()))?;
        index = index + 1;
    }
    Ok(())
}

/// The first row of `rows`, or that the `entity` with `id` does not exist.
fn first_row<'a>(rows: &'a Vec<Vec<SqlValue>>, entity: &str, id: &str) -> (r: Result<
    &'a Vec<SqlValue>,
    AppError,
>)
    ensures
        rows@.len() > 0 ==> r == Ok::<&Vec<SqlValue>, AppError>(&rows@[0]),
        rows@.len() == 0 ==> (r is Err && is_not_found_of(r->Err_0, entity@, id@)),
{
    if rows.len() == 0 {
        return Err(AppError::not_found(entity, id));
    }
    Ok(&rows[0])
}

/// `session {id} belongs to a different thread`: lineage never crosses
/// threads.
pub fn check_same_thread(session: Session, id: &str, thread_id: &str) -> (r: Result<Session, AppError>)
    ensures
        session.thread_id@ == thread_id@ ==> r == Ok::<Session, AppError>(session),
        session.thread_id@ != thread_id@ ==> (r is Err && is_validation_error(
            r->Err_0,
            "predecessor_id"@,
            "session "@ + id@ + " belongs to a different thread"@,
        )),
{
    if !crate::json::str_eq(session.thread_id.as_str(), thread_id) {
        let mut m = String::from_str("session ");
        m.append(id);
        m.append(" belongs to a different thread");
        return Err(AppError::validation("predecessor_id", m.as_str()));
    }
    Ok(session)
}

/// The rows a query's result holds, or none when it failed.
pub open spec fn answer_of(r: Result<Vec<Vec<SqlValue>>, AppError>) -> Seq<Vec<SqlValue>> {
    match r {
        Ok(rows) => rows@,
        Err(_) => Seq::empty(),
    }
}

/// `after` has one answer more than `before`, and the earlier ones unchanged.
pub open spec fn one_more_answer(before: Store, after: Store) -> bool {
    after.answers().len() == before.answers().len() + 1 && after.answers() == before.answers().push(
        after.answers().last(),
    )
}

/// The first row of the latest answer, if there is one.
pub open spec fn latest_first_row(s: Store) -> Option<Seq<SqlValue>> {
    if s.answers().len() > 0 && s.answers().last().len() > 0 {
        Some(s.answers().last()[0]@)
    } else {
        None
    }
}

/// `thread`, and `predecessor` when there is one, are what SQLite answered to
/// the first reads `after` made beyond `before`: the thread from the first new
/// answer's first row, the predecessor from the second's.
pub open spec fn stored_handoff(before: Store, after: Store, thread: Thread, predecessor: Option<Session>) -> bool {
    let a = after.answers();
    let k = before.answers().len() as int;
    &&& a.len() > k
    &&& a[k].len() > 0
    &&& thread_read(a[k][0]@, thread)
    &&& (predecessor matches Some(s) ==> a.len() > k + 1 && a[k + 1].len() > 0 && session_read(a[k + 1][0]@, s))
}

/// A read changes nothing of what the store has written, nor its clock.
pub open spec fn reads_only(before: Store, after: Store) -> bool {
    after.issued() == before.issued() && after.time() == before.time()
}

impl Store {
    /// Hands one query to SQLite and logs it.
    fn ask(&mut self, statement: &str, params: Vec<SqlValue>, columns: usize) -> (r: Result<Vec<Vec<SqlValue>>, AppError>)
        ensures
            final(self).asked() == old(self).asked().push((statement@, models(params@))),
            final(self).answers() == old(self).answers().push(answer_of(r)),
            reads_only(*old(self), *final(self)),
            r matches Err(e) ==> e is Internal,
    {
        let r = sql(query(&self.conn, statement, &params, columns));
        proof {
            self.asked@ = self.asked@.push((statement@, models(params@)));
            self.answered@ = self.answered@.push(answer_of(r));
        }
        r
    }

    /// A query with no parameter.
    fn ask_all(&mut self, statement: &str, columns: usize) -> (r: Result<Vec<Vec<SqlValue>>, AppError>)
        ensures
            final(self).asked() == old(self).asked().push((statement@, Seq::<SqlModel>::empty())),
            final(self).answers() == old(self).answers().push(answer_of(r)),
            reads_only(*old(self), *final(self)),
            r matches Err(e) ==> e is Internal,
    {
        let params: Vec<SqlValue> = Vec::new();
        assert(models(params@) =~= Seq::<SqlModel>::empty());
        self.ask(statement, params, columns)
    }

    /// A query whose one parameter is the text `key`.
    fn ask_by(&mut self, statement: &str, key: &str, columns: usize) -> (r: Result<Vec<Vec<SqlValue>>, AppError>)
        ensures
            final(self).asked() == old(self).asked().push((statement@, seq![SqlModel::Text(key@)])),
            final(self).answers() == old(self).answers().push(answer_of(r)),
            reads_only(*old(self), *final(self)),
            r matches Err(e) ==> e is Internal,
    {
        let params = vec![text(key)];
        assert(models(params@) =~= seq![SqlModel::Text(key@)]);
        self.ask(statement, params, columns)
    }

    /// A query whose parameters are the texts `first` and `second`.
    fn ask_by_pair(&mut self, statement: &str, first: &str, second: &str, columns: usize) -> (r: Result<
        Vec<Vec<SqlValue>>,
        AppError,
    >)
        ensures
            final(self).asked() == old(self).asked().push(
                (statement@, seq![SqlModel::Text(first@), SqlModel::Text(second@)]),
            ),
            final(self).answers() == old(self).answers().push(answer_of(r)),
            reads_only(*old(self), *final(self)),
            r matches Err(e) ==> e is Internal,
    {
        let params = vec![text(first), text(second)];
        assert(models(params@) =~= seq![SqlModel::Text(first@), SqlModel::Text(second@)]);
        self.ask(statement, params, columns)
    }

    /// The newest `cap` transcript entries of `run_id`, newest first.
    fn ask_newest(&mut self, run_id: &str, cap: usize, columns: usize) -> (r: Result<Vec<Vec<SqlValue>>, AppError>)
        requires
            cap <= LIMIT_AGENT_LIST_MAX,
        ensures
            final(self).asked() == old(self).asked().push(
                (NEWEST_MESSAGES@, seq![SqlModel::Text(run_id@), SqlModel::Integer(cap as i64)]),
            ),
            final(self).answers() == old(self).answers().push(answer_of(r)),
            reads_only(*old(self), *final(self)),
            r matches Err(e) ==> e is Internal,
    {
        let params = vec![text(run_id), SqlValue::Integer(cap as i64)];
        assert(models(params@) =~= seq![SqlModel::Text(run_id@), SqlModel::Integer(cap as i64)]);
        self.ask(NEWEST_MESSAGES, params, columns)
    }

fn read_thread(&mut self, id: &str) -> (r: Result<Thread, AppError>)
    ensures
        final(self).asked() == old(self).asked().push((SELECT_THREAD@, seq![SqlModel::Text(id@)])),
        reads_only(*old(self), *final(self)),
        one_more_answer(*old(self), *final(self)),
        r matches Ok(t) ==> latest_first_row(*final(self)) matches Some(row) && thread_read(row, t),
        r matches Ok(t) ==> exists|row: Seq<SqlValue>| thread_read(row, t),
        r matches Err(e) ==> e is Internal || is_not_found_of(e, "thread"@, id@),
{
    let rows = self.ask_by(SELECT_THREAD, id, 8)?;
    thread_from_row(first_row(&rows, "thread", id)?)
}

fn require_thread(&mut self, id: &str) -> (r: Result<(), AppError>)
    ensures
        final(self).asked() == old(self).asked().push((THREAD_EXISTS@, seq![SqlModel::Text(id@)])),
        reads_only(*old(self), *final(self)),
        one_more_answer(*old(self), *final(self)),
        r matches Err(e) ==> e is Internal || is_not_found_of(e, "thread"@, id@),
{
    let rows = self.ask_by(THREAD_EXISTS, id, 1)?;
    first_row(&rows, "thread", id)?;
    Ok(())
}

fn require_session(&mut self, id: &str) -> (r: Result<Session, AppError>)
    ensures
        final(self).asked() == old(self).asked().push((SELECT_SESSION@, seq![SqlModel::Text(id@)])),
        reads_only(*old(self), *final(self)),
        one_more_answer(*old(self), *final(self)),
        r matches Ok(t) ==> latest_first_row(*final(self)) matches Some(row) && session_read(row, t),
        r matches Ok(t) ==> exists|row: Seq<SqlValue>| session_read(row, t),
        r matches Err(e) ==> e is Internal || is_not_found_of(e, "session"@, id@),
{
    let rows = self.ask_by(SELECT_SESSION, id, 9)?;
    session_from_row(first_row(&rows, "session", id)?)
}

/// Fails closed on both unknown ids and ids belonging to a different thread,
/// so lineage can never cross threads.
fn require_session_in_thread(&mut self, id: &str, thread_id: &str) -> (r: Result<
    Session,
    AppError,
>)
    ensures
        final(self).asked() == old(self).asked().push((SELECT_SESSION@, seq![SqlModel::Text(id@)])),
        reads_only(*old(self), *final(self)),
        one_more_answer(*old(self), *final(self)),
        r matches Ok(t) ==> latest_first_row(*final(self)) matches Some(row) && session_read(row, t),
        r matches Ok(s) ==> s.thread_id@ == thread_id@,
        r matches Err(e) ==> e is Internal || is_not_found_of(e, "session"@, id@) || is_validation_error(
            e,
            "predecessor_id"@,
            "session "@ + id@ + " belongs to a different thread"@,
        ),
{
    let session = self.require_session(id)?;
    check_same_thread(session, id, thread_id)
}

fn read_review_item(&mut self, id: &str) -> (r: Result<ReviewItem, AppError>)
    ensures
        final(self).asked() == old(self).asked().push((SELECT_REVIEW_ITEM@, seq![SqlModel::Text(id@)])),
        reads_only(*old(self), *final(self)),
        one_more_answer(*old(self), *final(self)),
        r matches Ok(t) ==> latest_first_row(*final(self)) matches Some(row) && review_item_read(row, t),
        r matches Ok(t) ==> exists|row: Seq<SqlValue>| review_item_read(row, t),
        r matches Err(e) ==> e is Internal || is_not_found_of(e, "review_item"@, id@),
{
    let rows = self.ask_by(SELECT_REVIEW_ITEM, id, 8)?;
    review_item_from_row(first_row(&rows, "review_item", id)?)
}

fn require_agent_run(&mut self, run_id: &str) -> (r: Result<(), AppError>)
    ensures
        final(self).asked() == old(self).asked().push((AGENT_RUN_EXISTS@, seq![SqlModel::Text(run_id@)])),
        reads_only(*old(self), *final(self)),
        one_more_answer(*old(self), *final(self)),
        r matches Err(e) ==> e is Internal || is_not_found_of(e, "agent_run"@, run_id@),
{
    let rows = self.ask_by(AGENT_RUN_EXISTS, run_id, 1)?;
    first_row(&rows, "agent_run", run_id)?;
    Ok(())
}

fn read_agent_run(&mut self, run_id: &str) -> (r: Result<AgentRun, AppError>)
    ensures
        final(self).asked() == old(self).asked().push((SELECT_AGENT_RUN@, seq![SqlModel::Text(run_id@)])),
        reads_only(*old(self), *final(self)),
        one_more_answer(*old(self), *final(self)),
        r matches Ok(t) ==> latest_first_row(*final(self)) matches Some(row) && agent_run_read(row, t),
        r matches Ok(t) ==> exists|row: Seq<SqlValue>| agent_run_read(row, t),
        r matches Err(e) ==> e is Internal || is_not_found_of(e, "agent_run"@, run_id@),
{
    let rows = self.ask_by(SELECT_AGENT_RUN, run_id, 8)?;
    agent_run_from_row(first_row(&rows, "agent_run", run_id)?)
}

fn read_permission_request(&mut self, id: &str) -> (r: Result<
    AgentPermissionRecord,
    AppError,
>)
    ensures
        final(self).asked() == old(self).asked().push((SELECT_PERMISSION_REQUEST@, seq![SqlModel::Text(id@)])),
        reads_only(*old(self), *final(self)),
        one_more_answer(*old(self), *final(self)),
        r matches Ok(t) ==> latest_first_row(*final(self)) matches Some(row) && permission_read(row, t),
        r matches Ok(t) ==> exists|row: Seq<SqlValue>| permission_read(row, t),
        r matches Err(e) ==> e is Internal || is_not_found_of(e, "agent_permission_request"@, id@),
{
    let rows = self.ask_by(SELECT_PERMISSION_REQUEST, id, 8)?;
    permission_from_row(first_row(&rows, "agent_permission_request", id)?)
}

}

/// `v` is `rows` read one record per row, in order.
pub open spec fn threads_read(rows: Seq<Vec<SqlValue>>, v: Seq<Thread>) -> bool {
    v.len() == rows.len() && forall|i: int| 0 <= i < rows.len() ==> thread_read(rows[i]@, #[trigger] v[i])
}

/// `v` is `rows` read one record per row, in order.
pub open spec fn sessions_read(rows: Seq<Vec<SqlValue>>, v: Seq<Session>) -> bool {
    v.len() == rows.len() && forall|i: int| 0 <= i < rows.len() ==> session_read(rows[i]@, #[trigger] v[i])
}

/// `v` is `rows` read one record per row, in order.
pub open spec fn agent_runs_read(rows: Seq<Vec<SqlValue>>, v: Seq<AgentRun>) -> bool {
    v.len() == rows.len() && forall|i: int| 0 <= i < rows.len() ==> agent_run_read(rows[i]@, #[trigger] v[i])
}

/// `v` is `rows` read one record per row, in order.
pub open spec fn review_items_read(rows: Seq<Vec<SqlValue>>, v: Seq<ReviewItem>) -> bool {
    v.len() == rows.len() && forall|i: int| 0 <= i < rows.len() ==> review_item_read(rows[i]@, #[trigger] v[i])
}

/// `v` is `rows` read one transcript entry per row, in order.
pub open spec fn messages_read(rows: Seq<Vec<SqlValue>>, v: Seq<AgentMessage>) -> bool {
    v.len() == rows.len() && forall|i: int| 0 <= i < rows.len() ==> message_read(rows[i]@, #[trigger] v[i])
}

/// `v` is `rows` read as `(thread_id, count)` pairs, in order.
pub open spec fn counts_read(rows: Seq<Vec<SqlValue>>, v: Seq<UnseenReviewCount>) -> bool {
    v.len() == rows.len() && forall|i: int|
        0 <= i < rows.len() ==> has_text(rows[i]@, 0, #[trigger] v[i].thread_id) && has_int(rows[i]@, 1, v[i].unseen)
}

/// Every row read as one record.
fn agent_runs_from_rows(rows: &Vec<Vec<SqlValue>>) -> (r: Result<Vec<AgentRun>, AppError>)
    ensures
        r matches Ok(v) ==> agent_runs_read(rows@, v@),
        r matches Err(e) ==> e is Internal,
{
    let mut out: Vec<AgentRun> = Vec::new();
    let mut i: usize = 0;
    while i < rows.len()
        invariant
            i <= rows@.len(),
            agent_runs_read(rows@.take(i as int), out@),
        decreases rows@.len() - i,
    {
        out.push(agent_run_from_row(&rows[i])?);
        i = i + 1;
        assert(agent_runs_read(rows@.take(i as int), out@));
    }
    assert(rows@.take(i as int) =~= rows@);
    Ok(out)
}

/// Every row read as one record.
fn review_items_from_rows(rows: &Vec<Vec<SqlValue>>) -> (r: Result<Vec<ReviewItem>, AppError>)
    ensures
        r matches Ok(v) ==> review_items_read(rows@, v@),
        r matches Err(e) ==> e is Internal,
{
    let mut out: Vec<ReviewItem> = Vec::new();
    let mut i: usize = 0;
    while i < rows.len()
        invariant
            i <= rows@.len(),
            review_items_read(rows@.take(i as int), out@),
        decreases rows@.len() - i,
    {
        out.push(review_item_from_row(&rows[i])?);
        i = i + 1;
        assert(review_items_read(rows@.take(i as int), out@));
    }
    assert(rows@.take(i as int) =~= rows@);
    Ok(out)
}

/// Every row read as a thread's unseen count.
fn counts_from_rows(rows: &Vec<Vec<SqlValue>>) -> (r: Result<Vec<UnseenReviewCount>, AppError>)
    ensures
        r matches Ok(v) ==> counts_read(rows@, v@),
        r matches Err(e) ==> e is Internal,
{
    let mut out: Vec<UnseenReviewCount> = Vec::new();
    let mut i: usize = 0;
    while i < rows.len()
        invariant
            i <= rows@.len(),
            counts_read(rows@.take(i as int), out@),
        decreases rows@.len() - i,
    {
        let thread_id = crate::db::text_at(&rows[i], 0)?;
        let unseen = int_at(&rows[i], 1)?;
        out.push(UnseenReviewCount { thread_id, unseen });
        i = i + 1;
        assert(counts_read(rows@.take(i as int), out@));
    }
    assert(rows@.take(i as int) =~= rows@);
    Ok(out)
}

/// Every row read as a thread.
fn threads_from_rows(rows: &Vec<Vec<SqlValue>>) -> (r: Result<Vec<Thread>, AppError>)
    ensures
        r is Ok <==> forall|i: int| 0 <= i < rows@.len() ==> #[trigger] thread_fits(rows@[i]@),
        r matches Ok(v) ==> v@.len() == rows@.len() && forall|i: int|
            0 <= i < rows@.len() ==> thread_read(rows@[i]@, #[trigger] v@[i]),
        r matches Err(e) ==> e is Internal,
{
    let mut out: Vec<Thread> = Vec::new();
    let mut i: usize = 0;
    while i < rows.len()
        invariant
            i <= rows@.len(),
            out@.len() == i,
            forall|j: int| 0 <= j < i ==> #[trigger] thread_fits(rows@[j]@),
            forall|j: int| 0 <= j < i ==> thread_read(rows@[j]@, #[trigger] out@[j]),
        decreases rows@.len() - i,
    {
        out.push(thread_from_row(&rows[i])?);
        i = i + 1;
    }
    Ok(out)
}

/// Every row read as a session.
fn sessions_from_rows(rows: &Vec<Vec<SqlValue>>) -> (r: Result<Vec<Session>, AppError>)
    ensures
        r is Ok <==> forall|i: int| 0 <= i < rows@.len() ==> #[trigger] session_fits(rows@[i]@),
        r matches Ok(v) ==> v@.len() == rows@.len() && forall|i: int|
            0 <= i < rows@.len() ==> session_read(rows@[i]@, #[trigger] v@[i]),
        r matches Err(e) ==> e is Internal,
{
    let mut out: Vec<Session> = Vec::new();
    let mut i: usize = 0;
    while i < rows.len()
        invariant
            i <= rows@.len(),
            out@.len() == i,
            forall|j: int| 0 <= j < i ==> #[trigger] session_fits(rows@[j]@),
            forall|j: int| 0 <= j < i ==> session_read(rows@[j]@, #[trigger] out@[j]),
        decreases rows@.len() - i,
    {
        out.push(session_from_row(&rows[i])?);
        i = i + 1;
    }
    Ok(out)
}


pub open spec fn session_ended_message(session_id: Seq<char>) -> Seq<char> {
    "session "@ + session_id + " has already ended; start a new session"@
}

/// The refusal for a session that has already ended.
fn session_ended(session_id: &str) -> (e: AppError)
    ensures
        is_conflict_error(e, "SESSION_ENDED"@, session_ended_message(session_id@)),
{
    let mut m = String::from_str("session ");
    m.append(session_id);
    m.append(" has already ended; start a new session");
    AppError::conflict("SESSION_ENDED", m.as_str())
}

/// The texts an agent run is recorded with are within their limits.
pub open spec fn agent_run_inputs_ok(run_id: Seq<char>, program: Seq<char>, cwd: Option<Seq<char>>) -> bool {
    &&& within(run_id, 1, LIMIT_LABEL_CHARS as nat, true)
    &&& within(program, 1, LIMIT_PATH_CHARS as nat, true)
    &&& (cwd matches Some(c) ==> within(c, 1, LIMIT_PATH_CHARS as nat, true))
}

/// Whether an agent run may start in `session`, read under `session_id`: a
/// session that has ended takes no new run.
pub fn admit_agent_run(session: &Session, session_id: &str) -> (r: Result<(), AppError>)
    ensures
        r is Ok <==> session.ended_at is None,
        r matches Err(e) ==> is_conflict_error(e, "SESSION_ENDED"@, session_ended_message(session_id@)),
{
    if session.ended_at.is_some() {
        return Err(session_ended(session_id));
    }
    Ok(())
}

/// The refusal for a second live agent in one session.
fn already_running(session_id: &str) -> (e: AppError)
    ensures
        is_conflict_error(
            e,
            "AGENT_ALREADY_RUNNING"@,
            "session "@ + session_id@ + " already owns a running agent"@,
        ),
{
    let mut m = String::from_str("session ");
    m.append(session_id);
    m.append(" already owns a running agent");
    AppError::conflict("AGENT_ALREADY_RUNNING", m.as_str())
}

/// An update that changed nothing named nothing that exists.
fn changed_or_not_found(changed: usize, entity: &str, id: &str) -> (r: Result<(), AppError>)
    ensures
        changed > 0 ==> r is Ok,
        changed == 0 ==> (r is Err && is_not_found_of(r->Err_0, entity@, id@)),
{
    if changed == 0 {
        return Err(AppError::not_found(entity, id));
    }
    Ok(())
}


/// A caller's row limit, clamped to what one read may return.
pub fn clamp_limit(limit: usize) -> (n: usize)
    ensures
        n == if limit < LIMIT_AGENT_LIST_MAX {
            limit
        } else {
            LIMIT_AGENT_LIST_MAX
        },
{
    if limit < LIMIT_AGENT_LIST_MAX {
        limit
    } else {
        LIMIT_AGENT_LIST_MAX
    }
}

/// How many transcript entries one read returns at most for a caller's `limit`.
pub open spec fn list_cap(limit: usize) -> int {
    if limit < LIMIT_AGENT_LIST_MAX {
        limit as int
    } else {
        LIMIT_AGENT_LIST_MAX as int
    }
}

/// A count of `total` is more than `cap`.
pub open spec fn exceeds(total: i64, cap: int) -> bool {
    total > cap
}

/// Whether a run with `total` entries has more than the `limit` returned.
pub fn truncated(total: i64, limit: usize) -> (b: bool)
    requires
        limit <= LIMIT_AGENT_LIST_MAX,
    ensures
        b == (total > limit),
{
    total > limit as i64
}

/// At most `limit` rows read as transcript entries, in the order given.
fn messages_from_rows(rows: &Vec<Vec<SqlValue>>, limit: usize) -> (r: Result<Vec<AgentMessage>, AppError>)
    ensures
        r is Ok <==> forall|i: int| 0 <= i < rows@.len() && i < limit ==> #[trigger] message_fits(rows@[i]@),
        r matches Ok(v) ==> v@.len() <= limit && v@.len() <= rows@.len() && (v@.len() == rows@.len()
            || v@.len() == limit) && forall|i: int| 0 <= i < v@.len() ==> message_read(rows@[i]@, #[trigger] v@[i]),
        r matches Err(e) ==> e is Internal,
{
    let mut out: Vec<AgentMessage> = Vec::new();
    let mut i: usize = 0;
    while i < rows.len() && i < limit
        invariant
            i <= rows@.len(),
            out@.len() == i,
            i <= limit || rows@.len() == 0 || out@.len() <= limit,
            out@.len() <= limit,
            forall|j: int| 0 <= j < i ==> #[trigger] message_fits(rows@[j]@),
            forall|j: int| 0 <= j < i ==> message_read(rows@[j]@, #[trigger] out@[j]),
        decreases rows@.len() - i,
    {
        out.push(message_from_row(&rows[i])?);
        i = i + 1;
    }
    Ok(out)
}

/// `v` in reverse order.
pub fn oldest_first(v: Vec<AgentMessage>) -> (r: Vec<AgentMessage>)
    ensures
        r@ == v@.reverse(),
{
    let mut rest = v;
    let ghost all = rest@;
    let mut out: Vec<AgentMessage> = Vec::new();
    while rest.len() > 0
        invariant
            rest@ == all.take(rest@.len() as int),
            out@ == all.skip(rest@.len() as int).reverse(),
            rest@.len() <= all.len(),
        decreases rest@.len(),
    {
        let ghost n = rest@.len();
        let item = rest.pop().unwrap();
        out.push(item);
        assert(rest@ =~= all.take(n - 1));
        assert(out@ =~= all.skip(n - 1).reverse());
    }
    assert(all.skip(0) =~= all);
    out
}

// --- what the store writes ---------------------------------------------------

pub const INSERT_THREAD: &'static str = "INSERT INTO threads (id, title, notes, workdir, created_at, updated_at) VALUES (?1, ?2, '', NULL, ?3, ?3)";
pub const RENAME_THREAD: &'static str = "UPDATE threads SET title = ?2, updated_at = ?3 WHERE id = ?1";
pub const SET_THREAD_NOTES: &'static str = "UPDATE threads SET notes = ?2, updated_at = ?3 WHERE id = ?1";
pub const SET_THREAD_WORKDIR: &'static str = "UPDATE threads SET workdir = ?2, updated_at = ?3 WHERE id = ?1";
pub const MARK_THREAD_SEEN: &'static str = "UPDATE threads SET seen_at = ?2 WHERE id = ?1 AND seen_at IS NULL";
pub const MARK_ITEMS_SEEN: &'static str = "UPDATE review_items SET seen_at = ?2 WHERE thread_id = ?1 AND seen_at IS NULL";
pub const MARK_THREAD_REVIEWED: &'static str = "UPDATE threads SET reviewed_at = ?2, seen_at = COALESCE(seen_at, ?2) WHERE id = ?1";
pub const INSERT_SESSION: &'static str = "INSERT INTO sessions (id, thread_id, label, kind, predecessor_id, briefing, created_at) VALUES (?1, ?2, ?3, ?4, ?5, ?6, ?7)";
/// First-writer-wins: a session records how it ended once; a later,
/// contradictory outcome is dropped rather than overwriting the observed fact.
pub const END_SESSION: &'static str = "UPDATE sessions SET ended_at = COALESCE(ended_at, ?2), outcome = COALESCE(outcome, ?3) WHERE id = ?1";
pub const INSERT_TERMINAL_RUN: &'static str = "INSERT INTO terminal_runs (terminal_id, session_id, started_at) VALUES (?1, ?2, ?3)";
pub const END_TERMINAL_RUN: &'static str = "UPDATE terminal_runs SET ended_at = COALESCE(ended_at, ?2), outcome = COALESCE(outcome, ?3) WHERE terminal_id = ?1";
pub const SETTLE_TERMINAL_RUN: &'static str = "UPDATE terminal_runs SET ended_at = ?2, outcome = COALESCE(outcome, ?3) WHERE terminal_id = ?1";
pub const INSERT_AGENT_RUN: &'static str = "INSERT INTO agent_runs (run_id, session_id, program, cwd, started_at) VALUES (?1, ?2, ?3, ?4, ?5)";
pub const RECORD_ACP_SESSION: &'static str = "UPDATE agent_runs SET acp_session_id = ?2 WHERE run_id = ?1";
pub const END_AGENT_RUN: &'static str = "UPDATE agent_runs SET ended_at = COALESCE(ended_at, ?2), outcome = COALESCE(outcome, ?3) WHERE run_id = ?1";
pub const SETTLE_AGENT_RUN: &'static str = "UPDATE agent_runs SET ended_at = ?2, outcome = COALESCE(outcome, ?3) WHERE run_id = ?1";
/// A permission request nobody could answer is settled closed, never as an allow.
pub const CANCEL_OPEN_PERMISSIONS: &'static str = "UPDATE agent_permission_requests SET resolved_at = ?2, resolution = 'cancelled' WHERE run_id = ?1 AND resolved_at IS NULL";
pub const UPSERT_MESSAGE: &'static str = "INSERT INTO agent_messages (id, run_id, key, role, turn, body, detail, status, created_at, updated_at) VALUES (?1, ?2, ?3, ?4, ?5, ?6, ?7, ?8, ?9, ?9) ON CONFLICT(run_id, key) DO UPDATE SET role = excluded.role, turn = excluded.turn, body = excluded.body, detail = excluded.detail, status = excluded.status, updated_at = excluded.updated_at";
pub const INSERT_PERMISSION: &'static str = "INSERT INTO agent_permission_requests (id, run_id, title, detail, options, created_at) VALUES (?1, ?2, ?3, ?4, ?5, ?6)";
/// First answer wins: a late cancel cannot overwrite what the user chose, and
/// an allow can never overwrite a recorded denial.
pub const RESOLVE_PERMISSION: &'static str = "UPDATE agent_permission_requests SET resolved_at = COALESCE(resolved_at, ?2), resolution = COALESCE(resolution, ?3) WHERE id = ?1";
pub const INSERT_REVIEW_ITEM: &'static str = "INSERT INTO review_items (id, thread_id, session_id, kind, summary, created_at) VALUES (?1, ?2, ?3, ?4, ?5, ?6)";
pub const MARK_ITEM_REVIEWED: &'static str = "UPDATE review_items SET reviewed_at = ?2, seen_at = COALESCE(seen_at, ?2) WHERE id = ?1";
pub const BEGIN: &'static str = "BEGIN";
pub const COMMIT: &'static str = "COMMIT";
pub const ROLLBACK: &'static str = "ROLLBACK";

/// A statement as it is handed to SQLite: its text and its parameters.
pub type Statement = (Seq<char>, Seq<SqlModel>);

/// A statement without parameters.
pub open spec fn bare(sql: Seq<char>) -> Statement {
    (sql, Seq::empty())
}

/// `id` is a fresh identifier `{prefix}_{uuid}`.
pub open spec fn minted(id: Seq<char>, prefix: Seq<char>) -> bool {
    exists|u: Seq<char>| is_simple_uuid(u) && id == prefix + "_"@ + u
}

/// `new` is `old` with more statements after it (or none).
pub open spec fn only_appends(old: Seq<Statement>, new: Seq<Statement>) -> bool {
    &&& old.len() <= new.len()
    &&& forall|i: int| 0 <= i < old.len() ==> #[trigger] new[i] == old[i]
}

/// `Null` for no value, otherwise the text.
pub open spec fn opt_model(v: Option<Seq<char>>) -> SqlModel {
    match v {
        Some(s) => SqlModel::Text(s),
        None => SqlModel::Null,
    }
}

/// The statements that end a run and its session with one outcome, at `now`.
pub open spec fn end_run_writes(update: Seq<char>, run: Seq<char>, session: Seq<char>, now: i64, outcome: Seq<char>) -> Seq<Statement> {
    seq![
        (update, seq![SqlModel::Text(run), SqlModel::Integer(now), SqlModel::Text(outcome)]),
        (END_SESSION@, seq![SqlModel::Text(session), SqlModel::Integer(now), SqlModel::Text(outcome)]),
    ]
}

/// The statements that settle each `(run, session)` of `runs`, in order: the
/// run with `update`, its unanswered permission requests as cancelled when
/// `agent` holds, and its session, all with `outcome` at `now`.
pub open spec fn settle_writes(
    runs: Seq<(Seq<char>, Seq<char>)>,
    update: Seq<char>,
    now: i64,
    outcome: Seq<char>,
    agent: bool,
) -> Seq<Statement>
    decreases runs.len(),
{
    if runs.len() == 0 {
        Seq::empty()
    } else {
        let (run, session) = runs.last();
        let own = if agent {
            seq![
                (update, seq![SqlModel::Text(run), SqlModel::Integer(now), SqlModel::Text(outcome)]),
                (CANCEL_OPEN_PERMISSIONS@, seq![SqlModel::Text(run), SqlModel::Integer(now)]),
                (END_SESSION@, seq![SqlModel::Text(session), SqlModel::Integer(now), SqlModel::Text(outcome)]),
            ]
        } else {
            seq![
                (update, seq![SqlModel::Text(run), SqlModel::Integer(now), SqlModel::Text(outcome)]),
                (END_SESSION@, seq![SqlModel::Text(session), SqlModel::Integer(now), SqlModel::Text(outcome)]),
            ]
        };
        settle_writes(runs.drop_last(), update, now, outcome, agent) + own
    }
}

/// The `(run, session)` texts of each row.
pub open spec fn pairs(rows: Seq<Vec<SqlValue>>) -> Seq<(Seq<char>, Seq<char>)> {
    rows.map_values(|row: Vec<SqlValue>| run_pair(row@))
}

/// The `(run, session)` texts of a row that holds them.
pub open spec fn run_pair(row: Seq<SqlValue>) -> (Seq<char>, Seq<char>) {
    (
        match row[0] {
            SqlValue::Text(t) => t@,
            _ => Seq::empty(),
        },
        match row[1] {
            SqlValue::Text(t) => t@,
            _ => Seq::empty(),
        },
    )
}

impl Store {
    /// Opens (creating if needed) the database file at `path` and brings it up
    /// to the current schema. Write-ahead logging and foreign keys are on.
    pub fn open(path: &str) -> (r: Result<Store, AppError>)
        ensures
            r matches Ok(s) ==> s.clock_ok() && s.issued().len() == 0 && s.asked().len() == 0 && s.answers().len() == 0,
            r matches Err(e) ==> e is Internal,
    {
        let conn = sql(open_connection(path))?;
        sql(execute_batch(&conn, "PRAGMA journal_mode = WAL; PRAGMA foreign_keys = ON;"))?;
        migrate(&conn)?;
        Ok(Store { conn, clock: MonotonicClock::new(), issued: Ghost(Seq::empty()), asked: Ghost(Seq::empty()), answered: Ghost(Seq::empty()) })
    }

    fn now(&mut self) -> (t: i64)
        requires
            old(self).clock_ok(),
        ensures
            t == final(self).time(),
            t > old(self).time(),
            final(self).issued() == old(self).issued(),
            final(self).asked() == old(self).asked(),
            final(self).answers() == old(self).answers(),
    {
        self.clock.now_ms()
    }

    /// Hands one statement to SQLite.
    fn write_raw(&mut self, statement: &str, params: Vec<SqlValue>) -> (r: Result<usize, rusqlite::Error>)
        ensures
            final(self).issued() == old(self).issued().push((statement@, models(params@))),
            final(self).time() == old(self).time(),
    {
        let r = execute(&self.conn, statement, &params);
        self.issued = Ghost(self.issued@.push((statement@, models(params@))));
        r
    }

    fn write(&mut self, statement: &str, params: Vec<SqlValue>) -> (r: Result<usize, AppError>)
        ensures
            final(self).issued() == old(self).issued().push((statement@, models(params@))),
            final(self).time() == old(self).time(),
    {
        sql(self.write_raw(statement, params))
    }

    fn write_batch(&mut self, statement: &str) -> (r: Result<(), AppError>)
        ensures
            final(self).issued() == old(self).issued().push(bare(statement@)),
            final(self).time() == old(self).time(),
    {
        let r = sql(execute_batch(&self.conn, statement));
        self.issued = Ghost(self.issued@.push(bare(statement@)));
        r
    }

    /// Starts a transaction; it is then committed or rolled back.
    fn begin(&mut self) -> (r: Result<(), AppError>)
        ensures
            final(self).issued() == old(self).issued().push(bare(BEGIN@)),
            final(self).time() == old(self).time(),
    {
        self.write_batch(BEGIN)
    }

    /// Commits on success; on failure rolls back and hands the failure on.
    fn finish(&mut self, outcome: Result<(), AppError>) -> (r: Result<(), AppError>)
        ensures
            outcome is Ok ==> final(self).issued() == old(self).issued().push(bare(COMMIT@)),
            outcome is Err ==> r == outcome && final(self).issued() == old(self).issued().push(
                bare(ROLLBACK@),
            ),
            final(self).time() == old(self).time(),
    {
        match outcome {
            Ok(()) => self.write_batch(COMMIT),
            Err(e) => {
                let _ = self.write_batch(ROLLBACK);
                Err(e)
            },
        }
    }

    /// Ends `session_id` with `outcome` at `now`, first writer winning.
    fn end_session_row(&mut self, session_id: &str, now: i64, outcome: &str) -> (r: Result<(), AppError>)
        ensures
            final(self).issued() == old(self).issued().push(
                (
                    END_SESSION@,
                    seq![SqlModel::Text(session_id@), SqlModel::Integer(now), SqlModel::Text(outcome@)],
                ),
            ),
            final(self).time() == old(self).time(),
    {
        let params = vec![text(session_id), SqlValue::Integer(now), text(outcome)];
        assert(models(params@) =~= seq![SqlModel::Text(session_id@), SqlModel::Integer(now), SqlModel::Text(outcome@)]);
        self.write(END_SESSION, params)?;
        Ok(())
    }

    // --- threads ------------------------------------------------------------

    pub fn create_thread(&mut self, title: &str) -> (r: Result<Thread, AppError>)
        requires
            old(self).clock_ok(),
        ensures
            !within(title@, 1, LIMIT_TITLE_CHARS as nat, true) ==> (r is Err && refused_as(
                r->Err_0,
                "title"@,
                title@,
                1,
                LIMIT_TITLE_CHARS as nat,
                true,
            )),
            !within(title@, 1, LIMIT_TITLE_CHARS as nat, true) ==> final(self).issued() == old(
                self,
            ).issued(),
            within(title@, 1, LIMIT_TITLE_CHARS as nat, true) ==> {
                &&& final(self).time() > old(self).time()
                &&& exists|id: Seq<char>|
                    minted(id, "thr"@) && final(self).issued() == old(self).issued().push(
                        (
                            INSERT_THREAD@,
                            seq![
                                SqlModel::Text(id),
                                SqlModel::Text(checked_value(title@, true)),
                                SqlModel::Integer(final(self).time()),
                            ],
                        ),
                    )
            },
            r matches Ok(t) ==> final(self).asked().last() == (SELECT_THREAD@, seq![final(self).issued().last().1[0]]) && exists|row: Seq<SqlValue>| thread_read(row, t),
    {
        let title = validate_text("title", title, 1, LIMIT_TITLE_CHARS, true)?;
        let now = self.now();
        let id = new_id("thr");
        let params = vec![text(id.as_str()), text(title.as_str()), SqlValue::Integer(now)];
        proof {
            reveal_strlit("thr");
            assert(minted(id@, "thr"@));
            assert(models(params@) =~= seq![
                SqlModel::Text(id@),
                SqlModel::Text(title@),
                SqlModel::Integer(now),
            ]);
        }
        self.write(INSERT_THREAD, params)?;
        self.read_thread(id.as_str())
    }

    /// Most recently updated first.
    pub fn list_threads(&mut self) -> (r: Result<Vec<Thread>, AppError>)
        ensures
            one_more_answer(*old(self), *final(self)),
            r matches Ok(v) ==> threads_read(final(self).answers().last(), v@),
            final(self).asked() == old(self).asked().push((LIST_THREADS@, Seq::<SqlModel>::empty())),
            reads_only(*old(self), *final(self)),
            r matches Err(e) ==> e is Internal,
            r matches Ok(v) ==> exists|rows: Seq<Vec<SqlValue>>| threads_read(rows, v@),
    {
        let rows = self.ask_all(LIST_THREADS, 8)?;
        let v = threads_from_rows(&rows)?;
        assert(threads_read(rows@, v@));
        Ok(v)
    }

    pub fn get_thread(&mut self, id: &str) -> (r: Result<Thread, AppError>)
        ensures
            one_more_answer(*old(self), *final(self)),
            r matches Ok(t) ==> latest_first_row(*final(self)) matches Some(row) && thread_read(row, t),
            final(self).asked() == old(self).asked().push((SELECT_THREAD@, seq![SqlModel::Text(id@)])),
            reads_only(*old(self), *final(self)),
            r matches Ok(t) ==> exists|row: Seq<SqlValue>| thread_read(row, t),
            r matches Err(e) ==> e is Internal || is_not_found_of(e, "thread"@, id@),
    {
        self.read_thread(id)
    }

    pub fn rename_thread(&mut self, id: &str, title: &str) -> (r: Result<Thread, AppError>)
        requires
            old(self).clock_ok(),
        ensures
            !within(title@, 1, LIMIT_TITLE_CHARS as nat, true) ==> (r is Err && refused_as(
                r->Err_0,
                "title"@,
                title@,
                1,
                LIMIT_TITLE_CHARS as nat,
                true,
            )),
            r is Ok ==> final(self).issued() == old(self).issued().push(
                (RENAME_THREAD@, seq![SqlModel::Text(id@), SqlModel::Text(checked_value(title@, true)), SqlModel::Integer(final(self).time())]),
            ),
            only_appends(old(self).issued(), final(self).issued()),
            r matches Ok(t) ==> final(self).asked().last() == (SELECT_THREAD@, seq![SqlModel::Text(id@)]) && exists|row: Seq<SqlValue>| thread_read(row, t),
    {
        let title = validate_text("title", title, 1, LIMIT_TITLE_CHARS, true)?;
        let now = self.now();
        self.require_thread(id)?;
        let params = vec![text(id), text(title.as_str()), SqlValue::Integer(now)];
        assert(models(params@) =~= seq![
            SqlModel::Text(id@),
            SqlModel::Text(title@),
            SqlModel::Integer(now),
        ]);
        self.write(RENAME_THREAD, params)?;
        self.read_thread(id)
    }

    /// Notes keep their whitespace: they are free-form brainstorming text.
    pub fn set_thread_notes(&mut self, id: &str, notes: &str) -> (r: Result<Thread, AppError>)
        requires
            old(self).clock_ok(),
        ensures
            !within(notes@, 0, LIMIT_NOTES_CHARS as nat, false) ==> (r is Err && refused_as(
                r->Err_0,
                "notes"@,
                notes@,
                0,
                LIMIT_NOTES_CHARS as nat,
                false,
            )),
            r is Ok ==> final(self).issued() == old(self).issued().push(
                (SET_THREAD_NOTES@, seq![SqlModel::Text(id@), SqlModel::Text(notes@), SqlModel::Integer(final(self).time())]),
            ),
            only_appends(old(self).issued(), final(self).issued()),
            r matches Ok(t) ==> final(self).asked().last() == (SELECT_THREAD@, seq![SqlModel::Text(id@)]) && exists|row: Seq<SqlValue>| thread_read(row, t),
    {
        let notes = validate_text("notes", notes, 0, LIMIT_NOTES_CHARS, false)?;
        let now = self.now();
        self.require_thread(id)?;
        let params = vec![text(id), text(notes.as_str()), SqlValue::Integer(now)];
        assert(models(params@) =~= seq![SqlModel::Text(id@), SqlModel::Text(notes@), SqlModel::Integer(now)]);
        self.write(SET_THREAD_NOTES, params)?;
        self.read_thread(id)
    }

    /// Binds (or with `None` clears) a thread's directory. The store is the
    /// authority for this invariant, not only the command layer: a thread never
    /// displays a directory that was not there when it was bound. `is_dir`
    /// reports whether a path is an existing directory.
    pub fn set_thread_workdir<F: Fn(&str) -> bool>(&mut self, id: &str, workdir: Option<&str>, is_dir: F) -> (r:
        Result<Thread, AppError>)
        requires
            old(self).clock_ok(),
            forall|p: &str| is_dir.requires((p,)),
        ensures
            workdir matches Some(w) ==> {
                let v = crate::store::checked_value(w@, true);
                &&& !within(w@, 1, LIMIT_PATH_CHARS as nat, true) ==> (r is Err && refused_as(
                    r->Err_0,
                    "workdir"@,
                    w@,
                    1,
                    LIMIT_PATH_CHARS as nat,
                    true,
                ))
                &&& (within(w@, 1, LIMIT_PATH_CHARS as nat, true) && v[0] != '/') ==> (r is Err
                    && is_validation_error(
                    r->Err_0,
                    "workdir"@,
                    "a bound directory must be an absolute path"@,
                ))
                &&& (within(w@, 1, LIMIT_PATH_CHARS as nat, true) && v[0] == '/' && r is Ok)
                    ==> crate::agent::locate::probed(is_dir, v, true)
            },
            r is Ok ==> final(self).issued() == old(self).issued().push(
                (
                    SET_THREAD_WORKDIR@,
                    seq![
                        SqlModel::Text(id@),
                        opt_model(
                            match workdir {
                                Some(w) => Some(checked_value(w@, true)),
                                None => None,
                            },
                        ),
                        SqlModel::Integer(final(self).time()),
                    ],
                ),
            ),
            only_appends(old(self).issued(), final(self).issued()),
            r matches Ok(t) ==> final(self).asked().last() == (SELECT_THREAD@, seq![SqlModel::Text(id@)]) && exists|row: Seq<SqlValue>| thread_read(row, t),
    {
        let value: Option<String> = match workdir {
            None => None,
            Some(raw) => {
                let value = validate_text("workdir", raw, 1, LIMIT_PATH_CHARS, true)?;
                if value.get_char(0) != '/' {
                    return Err(
                        AppError::validation("workdir", "a bound directory must be an absolute path"),
                    );
                }
                let p: &str = value.as_str();
                let exists = is_dir(p);
                proof {
                    assert(is_dir.ensures((p,), exists));
                }
                if !exists {
                    let mut m = value.clone();
                    m.append(" is not an existing directory");
                    return Err(AppError::validation("workdir", m.as_str()));
                }
                Some(value)
            },
        };
        let now = self.now();
        self.require_thread(id)?;
        let params = vec![
            text(id),
            match &value {
                Some(v) => text(v.as_str()),
                None => SqlValue::Null,
            },
            SqlValue::Integer(now),
        ];
        assert(models(params@) =~= seq![
            SqlModel::Text(id@),
            opt_model(
                match workdir {
                    Some(w) => Some(checked_value(w@, true)),
                    None => None,
                },
            ),
            SqlModel::Integer(now),
        ]);
        self.write(SET_THREAD_WORKDIR, params)?;
        self.read_thread(id)
    }

    /// Records that a human looked at the thread and its inbox. Deliberately
    /// does NOT set `reviewed_at` on the thread or on any of its inbox items.
    pub fn mark_thread_seen(&mut self, id: &str) -> (r: Result<Thread, AppError>)
        requires
            old(self).clock_ok(),
        ensures
            r is Ok ==> final(self).issued() == old(self).issued() + seq![
                bare(BEGIN@),
                (MARK_THREAD_SEEN@, seq![SqlModel::Text(id@), SqlModel::Integer(final(self).time())]),
                (MARK_ITEMS_SEEN@, seq![SqlModel::Text(id@), SqlModel::Integer(final(self).time())]),
                bare(COMMIT@),
            ],
            only_appends(old(self).issued(), final(self).issued()),
            r matches Ok(t) ==> final(self).asked().last() == (SELECT_THREAD@, seq![SqlModel::Text(id@)]) && exists|row: Seq<SqlValue>| thread_read(row, t),
    {
        let now = self.now();
        self.require_thread(id)?;
        self.begin()?;
        let done = self.mark_seen_rows(id, now);
        self.finish(done)?;
        self.read_thread(id)
    }

    fn mark_seen_rows(&mut self, id: &str, now: i64) -> (r: Result<(), AppError>)
        ensures
            r is Ok ==> final(self).issued() == old(self).issued() + seq![
                (MARK_THREAD_SEEN@, seq![SqlModel::Text(id@), SqlModel::Integer(now)]),
                (MARK_ITEMS_SEEN@, seq![SqlModel::Text(id@), SqlModel::Integer(now)]),
            ],
            only_appends(old(self).issued(), final(self).issued()),
            final(self).time() == old(self).time(),
    {
        let params = vec![text(id), SqlValue::Integer(now)];
        assert(models(params@) =~= seq![SqlModel::Text(id@), SqlModel::Integer(now)]);
        self.write(MARK_THREAD_SEEN, params)?;
        let params = vec![text(id), SqlValue::Integer(now)];
        assert(models(params@) =~= seq![SqlModel::Text(id@), SqlModel::Integer(now)]);
        self.write(MARK_ITEMS_SEEN, params)?;
        Ok(())
    }

    /// An explicit human act, never implied by opening or by a process exiting.
    pub fn mark_thread_reviewed(&mut self, id: &str) -> (r: Result<Thread, AppError>)
        requires
            old(self).clock_ok(),
        ensures
            r is Ok ==> final(self).issued() == old(self).issued().push(
                (MARK_THREAD_REVIEWED@, seq![SqlModel::Text(id@), SqlModel::Integer(final(self).time())]),
            ),
            only_appends(old(self).issued(), final(self).issued()),
            r matches Ok(t) ==> final(self).asked().last() == (SELECT_THREAD@, seq![SqlModel::Text(id@)]) && exists|row: Seq<SqlValue>| thread_read(row, t),
    {
        let now = self.now();
        self.require_thread(id)?;
        let params = vec![text(id), SqlValue::Integer(now)];
        assert(models(params@) =~= seq![SqlModel::Text(id@), SqlModel::Integer(now)]);
        self.write(MARK_THREAD_REVIEWED, params)?;
        self.read_thread(id)
    }

    // --- sessions -----------------------------------------------------------

    /// A session under `thread_id`, optionally continuing a predecessor in the
    /// same thread. The briefing keeps its whitespace.
    pub fn create_session(&mut self, thread_id: &str, new: NewSession) -> (r: Result<Session, AppError>)
        requires
            old(self).clock_ok(),
        ensures
            !within(new.label@, 1, LIMIT_LABEL_CHARS as nat, true) ==> (r is Err && refused_as(
                r->Err_0,
                "label"@,
                new.label@,
                1,
                LIMIT_LABEL_CHARS as nat,
                true,
            )),
            (within(new.label@, 1, LIMIT_LABEL_CHARS as nat, true) && !within(
                new.kind@,
                1,
                LIMIT_KIND_CHARS as nat,
                true,
            )) ==> (r is Err && refused_as(
                r->Err_0,
                "kind"@,
                new.kind@,
                1,
                LIMIT_KIND_CHARS as nat,
                true,
            )),
            (within(new.label@, 1, LIMIT_LABEL_CHARS as nat, true) && within(
                new.kind@,
                1,
                LIMIT_KIND_CHARS as nat,
                true,
            ) && !within(new.briefing@, 0, LIMIT_BRIEFING_CHARS as nat, false)) ==> (r is Err
                && refused_as(
                r->Err_0,
                "briefing"@,
                new.briefing@,
                0,
                LIMIT_BRIEFING_CHARS as nat,
                false,
            )),
            r is Ok ==> exists|id: Seq<char>|
                minted(id, "ses"@) && final(self).issued() == old(self).issued().push(
                    (
                        INSERT_SESSION@,
                        seq![
                            SqlModel::Text(id),
                            SqlModel::Text(thread_id@),
                            SqlModel::Text(checked_value(new.label@, true)),
                            SqlModel::Text(checked_value(new.kind@, true)),
                            opt_model(
                                match new.predecessor_id {
                                    Some(p) => Some(p@),
                                    None => None,
                                },
                            ),
                            SqlModel::Text(new.briefing@),
                            SqlModel::Integer(final(self).time()),
                        ],
                    ),
                ),
            only_appends(old(self).issued(), final(self).issued()),
            r matches Ok(t) ==> final(self).asked().last() == (SELECT_SESSION@, seq![final(self).issued().last().1[0]]) && exists|row: Seq<SqlValue>| session_read(row, t),
    {
        let label = validate_text("label", new.label.as_str(), 1, LIMIT_LABEL_CHARS, true)?;
        let kind = validate_text("kind", new.kind.as_str(), 1, LIMIT_KIND_CHARS, true)?;
        let briefing = validate_text("briefing", new.briefing.as_str(), 0, LIMIT_BRIEFING_CHARS, false)?;
        let now = self.now();
        let id = new_id("ses");
        self.require_thread(thread_id)?;
        match &new.predecessor_id {
            Some(pred) => {
                self.require_session_in_thread(pred.as_str(), thread_id)?;
            },
            None => {},
        }
        let params = vec![
            text(id.as_str()),
            text(thread_id),
            text(label.as_str()),
            text(kind.as_str()),
            match &new.predecessor_id {
                Some(p) => text(p.as_str()),
                None => SqlValue::Null,
            },
            text(briefing.as_str()),
            SqlValue::Integer(now),
        ];
        proof {
            reveal_strlit("ses");
            assert(minted(id@, "ses"@));
            assert(models(params@) =~= seq![
                SqlModel::Text(id@),
                SqlModel::Text(thread_id@),
                SqlModel::Text(checked_value(new.label@, true)),
                SqlModel::Text(checked_value(new.kind@, true)),
                opt_model(
                    match new.predecessor_id {
                        Some(p) => Some(p@),
                        None => None,
                    },
                ),
                SqlModel::Text(new.briefing@),
                SqlModel::Integer(now),
            ]);
        }
        self.write(INSERT_SESSION, params)?;
        self.require_session(id.as_str())
    }

    /// In creation order.
    pub fn list_sessions(&mut self, thread_id: &str) -> (r: Result<Vec<Session>, AppError>)
        ensures
            r matches Ok(v) ==> final(self).answers().len() == old(self).answers().len() + 2
                && final(self).answers().take(old(self).answers().len() as int) == old(self).answers()
                && sessions_read(final(self).answers().last(), v@),
            r is Ok ==> final(self).asked() == old(self).asked() + seq![(THREAD_EXISTS@, seq![SqlModel::Text(thread_id@)]), (LIST_SESSIONS@, seq![SqlModel::Text(thread_id@)])],
            only_appends(old(self).asked(), final(self).asked()),
            reads_only(*old(self), *final(self)),
            r matches Err(e) ==> e is Internal || is_not_found_of(e, "thread"@, thread_id@),
            r matches Ok(v) ==> exists|rows: Seq<Vec<SqlValue>>| sessions_read(rows, v@),
    {
        self.require_thread(thread_id)?;
        let rows = self.ask_by(LIST_SESSIONS, thread_id, 9)?;
        let v = sessions_from_rows(&rows)?;
        assert(sessions_read(rows@, v@));
        Ok(v)
    }

    pub fn get_session(&mut self, id: &str) -> (r: Result<Session, AppError>)
        ensures
            one_more_answer(*old(self), *final(self)),
            r matches Ok(t) ==> latest_first_row(*final(self)) matches Some(row) && session_read(row, t),
            final(self).asked() == old(self).asked().push((SELECT_SESSION@, seq![SqlModel::Text(id@)])),
            reads_only(*old(self), *final(self)),
            r matches Ok(t) ==> exists|row: Seq<SqlValue>| session_read(row, t),
            r matches Err(e) ==> e is Internal || is_not_found_of(e, "session"@, id@),
    {
        self.require_session(id)
    }

    /// Records how a session ended. This is a lifecycle fact only; it makes no
    /// claim about whether the work succeeded or was reviewed.
    pub fn end_session(&mut self, id: &str, outcome: &str) -> (r: Result<Session, AppError>)
        requires
            old(self).clock_ok(),
        ensures
            !within(outcome@, 0, LIMIT_SUMMARY_CHARS as nat, true) ==> (r is Err && refused_as(
                r->Err_0,
                "outcome"@,
                outcome@,
                0,
                LIMIT_SUMMARY_CHARS as nat,
                true,
            )),
            r is Ok ==> final(self).issued() == old(self).issued().push(
                (
                    END_SESSION@,
                    seq![
                        SqlModel::Text(id@),
                        SqlModel::Integer(final(self).time()),
                        SqlModel::Text(checked_value(outcome@, true)),
                    ],
                ),
            ),
            only_appends(old(self).issued(), final(self).issued()),
            r matches Ok(t) ==> final(self).asked().last() == (SELECT_SESSION@, seq![SqlModel::Text(id@)]) && exists|row: Seq<SqlValue>| session_read(row, t),
    {
        let outcome = validate_text("outcome", outcome, 0, LIMIT_SUMMARY_CHARS, true)?;
        let now = self.now();
        self.require_session(id)?;
        self.end_session_row(id, now, outcome.as_str())?;
        self.require_session(id)
    }

    // --- terminal runs ------------------------------------------------------

    /// Binds a PTY run to the session it belongs to. Called before the child is
    /// spawned, so a terminal can never run without a durable owner.
    pub fn start_terminal_run(&mut self, terminal_id: &str, session_id: &str) -> (r: Result<(), AppError>)
        requires
            old(self).clock_ok(),
        ensures
            !within(terminal_id@, 1, LIMIT_LABEL_CHARS as nat, true) ==> (r is Err && refused_as(
                r->Err_0,
                "terminal_id"@,
                terminal_id@,
                1,
                LIMIT_LABEL_CHARS as nat,
                true,
            )),
            r is Ok ==> final(self).issued() == old(self).issued().push(
                (
                    INSERT_TERMINAL_RUN@,
                    seq![
                        SqlModel::Text(checked_value(terminal_id@, true)),
                        SqlModel::Text(session_id@),
                        SqlModel::Integer(final(self).time()),
                    ],
                ),
            ),
            only_appends(old(self).issued(), final(self).issued()),
    {
        let terminal_id = validate_text("terminal_id", terminal_id, 1, LIMIT_LABEL_CHARS, true)?;
        let now = self.now();
        self.require_session(session_id)?;
        let params = vec![text(terminal_id.as_str()), text(session_id), SqlValue::Integer(now)];
        assert(models(params@) =~= seq![
            SqlModel::Text(terminal_id@),
            SqlModel::Text(session_id@),
            SqlModel::Integer(now),
        ]);
        self.write(INSERT_TERMINAL_RUN, params)?;
        Ok(())
    }

    /// Records how a run ended and ends its session with the same factual
    /// outcome. Both are first-writer-wins, so calling this twice — a natural
    /// exit racing the quit path — cannot rewrite what was already observed.
    pub fn end_terminal_run(&mut self, terminal_id: &str, outcome: &str) -> (r: Result<(), AppError>)
        requires
            old(self).clock_ok(),
        ensures
            !within(outcome@, 1, LIMIT_SUMMARY_CHARS as nat, true) ==> (r is Err && refused_as(
                r->Err_0,
                "outcome"@,
                outcome@,
                1,
                LIMIT_SUMMARY_CHARS as nat,
                true,
            )),
            r is Ok ==> exists|session: Seq<char>|
                final(self).issued() == old(self).issued() + seq![bare(BEGIN@)] + end_run_writes(
                    END_TERMINAL_RUN@,
                    terminal_id@,
                    session,
                    final(self).time(),
                    checked_value(outcome@, true),
                ) + seq![bare(COMMIT@)],
            only_appends(old(self).issued(), final(self).issued()),
    {
        let outcome = validate_text("outcome", outcome, 1, LIMIT_SUMMARY_CHARS, true)?;
        let now = self.now();
        let rows = self.ask_by(TERMINAL_RUN_SESSION, terminal_id, 1)?;
        let session_id = crate::db::text_at(first_row(&rows, "terminal_run", terminal_id)?, 0)?;
        self.end_run(END_TERMINAL_RUN, terminal_id, session_id.as_str(), now, outcome.as_str())
    }

    /// Ends a run and its session with one outcome, in one transaction.
    fn end_run(&mut self, update: &str, run: &str, session_id: &str, now: i64, outcome: &str) -> (r:
        Result<(), AppError>)
        ensures
            r is Ok ==> final(self).issued() == old(self).issued() + seq![bare(BEGIN@)]
                + end_run_writes(update@, run@, session_id@, now, outcome@) + seq![bare(COMMIT@)],
            only_appends(old(self).issued(), final(self).issued()),
            final(self).time() == old(self).time(),
    {
        let ghost start = self.issued();
        self.begin()?;
        let done = self.end_run_rows(update, run, session_id, now, outcome);
        let r = self.finish(done);
        assert(r is Ok ==> self.issued() =~= start + seq![bare(BEGIN@)] + end_run_writes(
            update@,
            run@,
            session_id@,
            now,
            outcome@,
        ) + seq![bare(COMMIT@)]);
        r
    }

    fn end_run_rows(&mut self, update: &str, run: &str, session_id: &str, now: i64, outcome: &str) -> (r:
        Result<(), AppError>)
        ensures
            r is Ok ==> final(self).issued() == old(self).issued() + end_run_writes(
                update@,
                run@,
                session_id@,
                now,
                outcome@,
            ),
            only_appends(old(self).issued(), final(self).issued()),
            final(self).time() == old(self).time(),
    {
        let params = vec![text(run), SqlValue::Integer(now), text(outcome)];
        assert(models(params@) =~= seq![SqlModel::Text(run@), SqlModel::Integer(now), SqlModel::Text(outcome@)]);
        self.write(update, params)?;
        self.end_session_row(session_id, now, outcome)
    }

    /// Ends every run still marked open. Terminals do not survive this
    /// application's exit, so any open run at startup belongs to a process that
    /// is gone: it is reported as unknown, never as still live. Returns how many
    /// there were.
    pub fn reconcile_interrupted_runs(&mut self) -> (r: Result<usize, AppError>)
        requires
            old(self).clock_ok(),
        ensures
            r matches Ok(n) ==> exists|runs: Seq<(Seq<char>, Seq<char>)>|
                runs.len() == n && final(self).issued() == old(self).issued() + seq![bare(BEGIN@)]
                    + settle_writes(
                    runs,
                    SETTLE_TERMINAL_RUN@,
                    final(self).time(),
                    OUTCOME_INTERRUPTED@,
                    false,
                ) + seq![bare(COMMIT@)],
            only_appends(old(self).issued(), final(self).issued()),
    {
        let now = self.now();
        let open = self.ask_all(OPEN_TERMINAL_RUNS, 2)?;
        self.settle_all(&open, SETTLE_TERMINAL_RUN, now, OUTCOME_INTERRUPTED, false)?;
        Ok(open.len())
    }

    /// Settles every `(run, session)` row in one transaction.
    fn settle_all(&mut self, open: &Vec<Vec<SqlValue>>, update: &str, now: i64, outcome: &str, agent: bool) -> (r:
        Result<(), AppError>)
        ensures
            r is Ok ==> final(self).issued() == old(self).issued() + seq![bare(BEGIN@)]
                + settle_writes(pairs(open@), update@, now, outcome@, agent) + seq![bare(COMMIT@)],
            only_appends(old(self).issued(), final(self).issued()),
            final(self).time() == old(self).time(),
    {
        let ghost start = self.issued();
        self.begin()?;
        let done = self.settle_open_rows(open, update, now, outcome, agent);
        let r = self.finish(done);
        assert(r is Ok ==> self.issued() =~= start + seq![bare(BEGIN@)] + settle_writes(
            pairs(open@),
            update@,
            now,
            outcome@,
            agent,
        ) + seq![bare(COMMIT@)]);
        r
    }

    /// Settles each `(run, session)` row: the run with `update`, any permission
    /// request of an agent run closed as `cancelled` when `agent` holds, and the
    /// session with the same outcome.
    fn settle_open_rows(
        &mut self,
        open: &Vec<Vec<SqlValue>>,
        update: &str,
        now: i64,
        outcome: &str,
        agent: bool,
    ) -> (r: Result<(), AppError>)
        ensures
            r is Ok ==> final(self).issued() == old(self).issued() + settle_writes(
                pairs(open@),
                update@,
                now,
                outcome@,
                agent,
            ),
            only_appends(old(self).issued(), final(self).issued()),
            final(self).time() == old(self).time(),
    {
        let ghost start = self.issued();
        assert(start == old(self).issued());
        let mut i: usize = 0;
        assert(pairs(open@.take(0)) =~= Seq::<(Seq<char>, Seq<char>)>::empty());
        assert(self.issued() =~= start + settle_writes(pairs(open@.take(0)), update@, now, outcome@, agent));
        while i < open.len()
            invariant
                i <= open@.len(),
                self.issued() == start + settle_writes(pairs(open@.take(i as int)), update@, now, outcome@, agent),
                only_appends(start, self.issued()),
                start == old(self).issued(),
                self.time() == old(self).time(),
            decreases open@.len() - i,
        {
            let ghost before = self.issued();
            let run = match crate::db::text_at(&open[i], 0) {
                Ok(t) => t,
                Err(e) => {
                    assert(only_appends(start, self.issued()));
                    return Err(e);
                },
            };
            let session_id = match crate::db::text_at(&open[i], 1) {
                Ok(t) => t,
                Err(e) => return Err(e),
            };
            let ghost pair = run_pair(open@[i as int]@);
            assert(pair == (run@, session_id@));
            let params = vec![text(run.as_str()), SqlValue::Integer(now), text(outcome)];
            assert(models(params@) =~= seq![SqlModel::Text(run@), SqlModel::Integer(now), SqlModel::Text(outcome@)]);
            let w = self.write(update, params);
            if w.is_err() {
                return Err(w.unwrap_err());
            }
            if agent {
                let params = vec![text(run.as_str()), SqlValue::Integer(now)];
                assert(models(params@) =~= seq![SqlModel::Text(run@), SqlModel::Integer(now)]);
                let w = self.write(CANCEL_OPEN_PERMISSIONS, params);
                if w.is_err() {
                    return Err(w.unwrap_err());
                }
            }
            let w = self.end_session_row(session_id.as_str(), now, outcome);
            if w.is_err() {
                return w;
            }
            proof {
                let taken = open@.take(i + 1);
                assert(taken.drop_last() =~= open@.take(i as int));
                assert(pairs(taken) =~= pairs(open@.take(i as int)).push(pair));
                assert(pairs(taken).drop_last() =~= pairs(open@.take(i as int)));
                assert(pairs(taken).last() == pair);
                assert(self.issued() =~= start + settle_writes(pairs(taken), update@, now, outcome@, agent));
            }
            i = i + 1;
        }
        assert(open@.take(open@.len() as int) =~= open@);
        Ok(())
    }

    /// Composes an editable handoff draft for `thread_id`, continuing from the
    /// session `predecessor_id` of the same thread if one is named. Nothing is
    /// persisted: the user reviews and edits the text, then explicitly creates a
    /// session from it.
    pub fn build_handoff_draft(&mut self, thread_id: &str, predecessor_id: Option<&str>) -> (r: Result<
        HandoffDraft,
        AppError,
    >)
        requires
            old(self).clock_ok(),
        ensures
            r matches Ok(d) ==> {
                &&& d.disclosure@ == crate::store::HANDOFF_DISCLOSURE@
                &&& (predecessor_id is None <==> d.predecessor_session_id is None)
                &&& exists|t: Thread, p: Option<Session>|
                    #[trigger] crate::store::handoff_text(t, p, d.generated_at as int) == d.text@
                        && t.id@ == d.thread_id@
            },
            r matches Err(e) ==> e is Internal || is_not_found_of(e, "thread"@, thread_id@) || (
            predecessor_id matches Some(pid) && (is_not_found_of(e, "session"@, pid@) || is_validation_error(
                e,
                "predecessor_id"@,
                "session "@ + pid@ + " belongs to a different thread"@,
            ))),
            final(self).issued() == old(self).issued(),
            r matches Ok(d) ==> final(self).asked().len() > old(self).asked().len() && final(self).asked()[old(
                self,
            ).asked().len() as int] == (SELECT_THREAD@, seq![SqlModel::Text(thread_id@)]),
            r matches Ok(d) ==> exists|t: Thread, p: Option<Session>|
                #![trigger stored_handoff(*old(self), *final(self), t, p)]
                stored_handoff(*old(self), *final(self), t, p) && crate::store::handoff_text(t, p, d.generated_at as int)
                    == d.text@ && (p is None <==> predecessor_id is None),
    {
        let ghost a0 = self.answers();
        let thread = self.read_thread(thread_id)?;
        let ghost a1 = self.answers();
        let predecessor = match predecessor_id {
            None => None,
            Some(pid) => Some(self.require_session_in_thread(pid, thread_id)?),
        };
        let ghost a2 = self.answers();
        let generated_at = self.now();
        let d = handoff_draft(
            &thread,
            match &predecessor {
                Some(s) => Some(s),
                None => None,
            },
            generated_at,
        );
        let ghost p = match predecessor {
            Some(s) => Some(s),
            None => None::<Session>,
        };
        assert(crate::store::handoff_text(thread, p, d.generated_at as int) == d.text@);
        proof {
            assert(a1 == a0.push(a1.last()));
            assert(a1[a0.len() as int] == a1.last());
            if predecessor_id is Some {
                assert(a2 == a1.push(a2.last()));
                assert(a2[a0.len() as int] == a1.last());
                assert(a2[a0.len() + 1int] == a2.last());
            }
            assert(stored_handoff(*old(self), *self, thread, p));
        }
        Ok(d)
    }

    // --- agent runs ---------------------------------------------------------

    /// Binds an agent run to the session it belongs to. Called *before* the
    /// child is spawned, so an agent can never run without a durable owner. A
    /// session ends once, for good: an ended session takes no new agent. The
    /// insert is where "one live agent per session" is decided, across
    /// connections as well as threads.
    pub fn start_agent_run(&mut self, run_id: &str, session_id: &str, program: &str, cwd: Option<&str>) -> (r:
        Result<AgentRun, AppError>)
        requires
            old(self).clock_ok(),
        ensures
            !within(run_id@, 1, LIMIT_LABEL_CHARS as nat, true) ==> (r is Err && refused_as(
                r->Err_0,
                "run_id"@,
                run_id@,
                1,
                LIMIT_LABEL_CHARS as nat,
                true,
            )),
            (within(run_id@, 1, LIMIT_LABEL_CHARS as nat, true) && !within(
                program@,
                1,
                LIMIT_PATH_CHARS as nat,
                true,
            )) ==> (r is Err && refused_as(
                r->Err_0,
                "program"@,
                program@,
                1,
                LIMIT_PATH_CHARS as nat,
                true,
            )),
            r is Ok ==> final(self).issued() == old(self).issued().push(
                (
                    INSERT_AGENT_RUN@,
                    seq![
                        SqlModel::Text(checked_value(run_id@, true)),
                        SqlModel::Text(session_id@),
                        SqlModel::Text(checked_value(program@, true)),
                        opt_model(
                            match cwd {
                                Some(c) => Some(checked_value(c@, true)),
                                None => None,
                            },
                        ),
                        SqlModel::Integer(final(self).time()),
                    ],
                ),
            ),
            (within(run_id@, 1, LIMIT_LABEL_CHARS as nat, true) && within(program@, 1, LIMIT_PATH_CHARS as nat, true))
                ==> (cwd matches Some(c) ==> (!within(c@, 1, LIMIT_PATH_CHARS as nat, true) ==> (r is Err
                && refused_as(r->Err_0, "cwd"@, c@, 1, LIMIT_PATH_CHARS as nat, true)))),
            r matches Err(e) ==> (e is Validation && !agent_run_inputs_ok(run_id@, program@, crate::agent::locate::opt_view(cwd)))
                || e is Internal || is_not_found_of(e, "session"@, session_id@)
                || is_not_found_of(e, "agent_run"@, checked_value(run_id@, true)) || is_conflict_error(e, "SESSION_ENDED"@, session_ended_message(session_id@))
                || is_conflict_error(e, "AGENT_ALREADY_RUNNING"@, "session "@ + session_id@ + " already owns a running agent"@),
            only_appends(old(self).issued(), final(self).issued()),
            r matches Ok(t) ==> final(self).asked().last() == (SELECT_AGENT_RUN@, seq![SqlModel::Text(checked_value(run_id@, true))]) && exists|row: Seq<SqlValue>| agent_run_read(row, t),
    {
        let run_id = validate_text("run_id", run_id, 1, LIMIT_LABEL_CHARS, true)?;
        let program = validate_text("program", program, 1, LIMIT_PATH_CHARS, true)?;
        let checked_cwd: Option<String> = match cwd {
            None => None,
            Some(c) => Some(validate_text("cwd", c, 1, LIMIT_PATH_CHARS, true)?),
        };
        assert(match cwd {
            Some(c) => checked_cwd matches Some(v) && v@ == checked_value(c@, true),
            None => checked_cwd is None,
        });
        let now = self.now();
        let session = self.require_session(session_id)?;
        admit_agent_run(&session, session_id)?;
        let params = vec![
            text(run_id.as_str()),
            text(session_id),
            text(program.as_str()),
            match &checked_cwd {
                Some(c) => text(c.as_str()),
                None => SqlValue::Null,
            },
            SqlValue::Integer(now),
        ];
        assert(models(params@) =~= seq![
            SqlModel::Text(run_id@),
            SqlModel::Text(session_id@),
            SqlModel::Text(program@),
            opt_model(
                match cwd {
                    Some(c) => Some(checked_value(c@, true)),
                    None => None,
                },
            ),
            SqlModel::Integer(now),
        ]);
        match self.write_raw(INSERT_AGENT_RUN, params) {
            Ok(_) => {},
            Err(e) => {
                return Err(
                    if is_constraint_violation(&e) {
                        already_running(session_id)
                    } else {
                        db_error(&e)
                    },
                );
            },
        }
        self.read_agent_run(run_id.as_str())
    }

    /// Records the id the agent chose for its own session. Written once
    /// `session/new` has actually answered, never before.
    pub fn record_acp_session_id(&mut self, run_id: &str, acp_session_id: &str) -> (r: Result<(), AppError>)
        ensures
            !within(acp_session_id@, 1, LIMIT_LABEL_CHARS as nat, true) ==> (r is Err && refused_as(
                r->Err_0,
                "acp_session_id"@,
                acp_session_id@,
                1,
                LIMIT_LABEL_CHARS as nat,
                true,
            )),
            !within(acp_session_id@, 1, LIMIT_LABEL_CHARS as nat, true) ==> final(self).issued()
                == old(self).issued(),
            within(acp_session_id@, 1, LIMIT_LABEL_CHARS as nat, true) ==> final(self).issued()
                == old(self).issued().push(
                (
                    RECORD_ACP_SESSION@,
                    seq![SqlModel::Text(run_id@), SqlModel::Text(checked_value(acp_session_id@, true))],
                ),
            ),
    {
        let value = validate_text("acp_session_id", acp_session_id, 1, LIMIT_LABEL_CHARS, true)?;
        let params = vec![text(run_id), text(value.as_str())];
        assert(models(params@) =~= seq![
            SqlModel::Text(run_id@),
            SqlModel::Text(checked_value(acp_session_id@, true)),
        ]);
        let changed = self.write(RECORD_ACP_SESSION, params)?;
        changed_or_not_found(changed, "agent_run", run_id)
    }

    pub fn get_agent_run(&mut self, run_id: &str) -> (r: Result<AgentRun, AppError>)
        ensures
            one_more_answer(*old(self), *final(self)),
            r matches Ok(t) ==> latest_first_row(*final(self)) matches Some(row) && agent_run_read(row, t),
            final(self).asked() == old(self).asked().push((SELECT_AGENT_RUN@, seq![SqlModel::Text(run_id@)])),
            reads_only(*old(self), *final(self)),
            r matches Ok(t) ==> exists|row: Seq<SqlValue>| agent_run_read(row, t),
            r matches Err(e) ==> e is Internal || is_not_found_of(e, "agent_run"@, run_id@),
    {
        self.read_agent_run(run_id)
    }

    /// A session's runs, in the order they started.
    pub fn list_agent_runs(&mut self, session_id: &str) -> (r: Result<Vec<AgentRun>, AppError>)
        ensures
            one_more_answer(*old(self), *final(self)),
            r matches Ok(v) ==> agent_runs_read(final(self).answers().last(), v@),
            final(self).asked() == old(self).asked().push((LIST_AGENT_RUNS@, seq![SqlModel::Text(session_id@)])),
            reads_only(*old(self), *final(self)),
            r matches Ok(v) ==> exists|rows: Seq<Vec<SqlValue>>| agent_runs_read(rows, v@),
            r matches Err(e) ==> e is Internal,
    {
        let rows = self.ask_by(LIST_AGENT_RUNS, session_id, 8)?;
        let v = agent_runs_from_rows(&rows)?;
        assert(agent_runs_read(rows@, v@));
        Ok(v)
    }

    /// First-writer-wins, exactly like a terminal run: a natural exit racing
    /// the quit path cannot rewrite the outcome that was actually observed.
    pub fn end_agent_run(&mut self, run_id: &str, outcome: &str) -> (r: Result<(), AppError>)
        requires
            old(self).clock_ok(),
        ensures
            !within(outcome@, 1, LIMIT_SUMMARY_CHARS as nat, true) ==> (r is Err && refused_as(
                r->Err_0,
                "outcome"@,
                outcome@,
                1,
                LIMIT_SUMMARY_CHARS as nat,
                true,
            )),
            r is Ok ==> exists|session: Seq<char>|
                final(self).issued() == old(self).issued() + seq![bare(BEGIN@)] + end_run_writes(
                    END_AGENT_RUN@,
                    run_id@,
                    session,
                    final(self).time(),
                    checked_value(outcome@, true),
                ) + seq![bare(COMMIT@)],
            only_appends(old(self).issued(), final(self).issued()),
    {
        let outcome = validate_text("outcome", outcome, 1, LIMIT_SUMMARY_CHARS, true)?;
        let now = self.now();
        let rows = self.ask_by(AGENT_RUN_SESSION, run_id, 1)?;
        let session_id = crate::db::text_at(first_row(&rows, "agent_run", run_id)?, 0)?;
        self.end_run(END_AGENT_RUN, run_id, session_id.as_str(), now, outcome.as_str())
    }

    /// Settles every agent run still marked open. Agents do not survive this
    /// application's exit, so an open run at startup is a process that is gone.
    /// Nothing is reattached and no prompt is replayed; a permission request
    /// nobody could answer is settled closed. Returns how many there were.
    pub fn reconcile_interrupted_agent_runs(&mut self) -> (r: Result<usize, AppError>)
        requires
            old(self).clock_ok(),
        ensures
            r matches Ok(n) ==> exists|runs: Seq<(Seq<char>, Seq<char>)>|
                runs.len() == n && final(self).issued() == old(self).issued() + seq![bare(BEGIN@)]
                    + settle_writes(
                    runs,
                    SETTLE_AGENT_RUN@,
                    final(self).time(),
                    AGENT_OUTCOME_INTERRUPTED@,
                    true,
                ) + seq![bare(COMMIT@)],
            only_appends(old(self).issued(), final(self).issued()),
    {
        let now = self.now();
        let open = self.ask_all(OPEN_AGENT_RUNS, 2)?;
        self.settle_all(&open, SETTLE_AGENT_RUN, now, AGENT_OUTCOME_INTERRUPTED, true)?;
        Ok(open.len())
    }

    // --- agent transcript ---------------------------------------------------

    /// Inserts or updates the entry identified by `draft.key` within `run_id`.
    /// Bodies and details keep their whitespace: they are verbatim model and
    /// tool output.
    pub fn upsert_agent_message(&mut self, run_id: &str, draft: AgentMessageDraft<'_>) -> (r: Result<
        AgentMessage,
        AppError,
    >)
        requires
            old(self).clock_ok(),
        ensures
            !within(draft.key@, 1, LIMIT_AGENT_KEY_CHARS as nat, true) ==> (r is Err && refused_as(
                r->Err_0,
                "key"@,
                draft.key@,
                1,
                LIMIT_AGENT_KEY_CHARS as nat,
                true,
            )),
            (within(draft.key@, 1, LIMIT_AGENT_KEY_CHARS as nat, true) && !within(
                draft.role@,
                1,
                LIMIT_KIND_CHARS as nat,
                true,
            )) ==> (r is Err && refused_as(
                r->Err_0,
                "role"@,
                draft.role@,
                1,
                LIMIT_KIND_CHARS as nat,
                true,
            )),
            (within(draft.key@, 1, LIMIT_AGENT_KEY_CHARS as nat, true) && within(
                draft.role@,
                1,
                LIMIT_KIND_CHARS as nat,
                true,
            ) && !within(draft.body@, 0, LIMIT_AGENT_BODY_CHARS as nat, false)) ==> (r is Err
                && refused_as(
                r->Err_0,
                "body"@,
                draft.body@,
                0,
                LIMIT_AGENT_BODY_CHARS as nat,
                false,
            )),
            r is Ok ==> exists|id: Seq<char>|
                minted(id, "msg"@) && final(self).issued() == old(self).issued().push(
                    (
                        UPSERT_MESSAGE@,
                        seq![
                            SqlModel::Text(id),
                            SqlModel::Text(run_id@),
                            SqlModel::Text(checked_value(draft.key@, true)),
                            SqlModel::Text(checked_value(draft.role@, true)),
                            SqlModel::Integer(draft.turn),
                            SqlModel::Text(draft.body@),
                            opt_model(
                                match draft.detail {
                                    Some(d) => Some(d@),
                                    None => None,
                                },
                            ),
                            opt_model(
                                match draft.status {
                                    Some(st) => Some(checked_value(st@, true)),
                                    None => None,
                                },
                            ),
                            SqlModel::Integer(final(self).time()),
                        ],
                    ),
                ),
            only_appends(old(self).issued(), final(self).issued()),
            r matches Ok(m) ==> final(self).asked().last() == (SELECT_MESSAGE_BY_KEY@, seq![SqlModel::Text(run_id@), SqlModel::Text(checked_value(draft.key@, true))]) && exists|row: Seq<SqlValue>| message_read(row, m),
    {
        let key = validate_text("key", draft.key, 1, LIMIT_AGENT_KEY_CHARS, true)?;
        let role = validate_text("role", draft.role, 1, LIMIT_KIND_CHARS, true)?;
        let body = validate_text("body", draft.body, 0, LIMIT_AGENT_BODY_CHARS, false)?;
        let detail = match draft.detail {
            None => None,
            Some(d) => Some(validate_text("detail", d, 0, LIMIT_AGENT_DETAIL_CHARS, false)?),
        };
        let status = match draft.status {
            None => None,
            Some(st) => Some(validate_text("status", st, 0, LIMIT_KIND_CHARS, true)?),
        };
        let now = self.now();
        let id = new_id("msg");
        self.require_agent_run(run_id)?;
        let params = vec![
            text(id.as_str()),
            text(run_id),
            text(key.as_str()),
            text(role.as_str()),
            SqlValue::Integer(draft.turn),
            text(body.as_str()),
            match &detail {
                Some(d) => text(d.as_str()),
                None => SqlValue::Null,
            },
            match &status {
                Some(st) => text(st.as_str()),
                None => SqlValue::Null,
            },
            SqlValue::Integer(now),
        ];
        proof {
            reveal_strlit("msg");
            assert(minted(id@, "msg"@));
            assert(models(params@) =~= seq![
                SqlModel::Text(id@),
                SqlModel::Text(run_id@),
                SqlModel::Text(checked_value(draft.key@, true)),
                SqlModel::Text(checked_value(draft.role@, true)),
                SqlModel::Integer(draft.turn),
                SqlModel::Text(draft.body@),
                opt_model(
                    match draft.detail {
                        Some(d) => Some(d@),
                        None => None,
                    },
                ),
                opt_model(
                    match draft.status {
                        Some(st) => Some(checked_value(st@, true)),
                        None => None,
                    },
                ),
                SqlModel::Integer(now),
            ]);
        }
        self.write(UPSERT_MESSAGE, params)?;
        let rows = self.ask_by_pair(SELECT_MESSAGE_BY_KEY, run_id, key.as_str(), 10)?;
        message_from_row(first_row(&rows, "agent_message", key.as_str())?)
    }

    /// The newest `limit` entries in chronological order, plus whether older
    /// entries exist. Truncation is reported, never disguised as completeness.
    /// `limit` is clamped to [`LIMIT_AGENT_LIST_MAX`] here rather than trusted.
    pub fn list_agent_messages(&mut self, run_id: &str, limit: usize) -> (r: Result<
        (Vec<AgentMessage>, bool),
        AppError,
    >)
        ensures
            r matches Ok((messages, more)) ==> final(self).answers().len() == old(self).answers().len() + 3
                && final(self).answers().take(old(self).answers().len() as int) == old(self).answers()
                && final(self).answers()[old(self).answers().len() + 1int].len() > 0
                && exists|newest: Seq<AgentMessage>, total: i64|
                #![trigger messages_read(final(self).answers().last().take(newest.len() as int), newest), exceeds(total, list_cap(limit))]
                {
                    &&& messages_read(final(self).answers().last().take(newest.len() as int), newest)
                    &&& (newest.len() == final(self).answers().last().len() || newest.len() == list_cap(limit))
                    &&& messages@ == newest.reverse()
                    &&& has_int(final(self).answers()[old(self).answers().len() + 1int][0]@, 0, total)
                    &&& more == exceeds(total, list_cap(limit))
                },
            r is Ok ==> final(self).asked() == old(self).asked() + seq![
                (AGENT_RUN_EXISTS@, seq![SqlModel::Text(run_id@)]),
                (COUNT_MESSAGES@, seq![SqlModel::Text(run_id@)]),
                (NEWEST_MESSAGES@, seq![SqlModel::Text(run_id@), SqlModel::Integer(list_cap(limit) as i64)]),
            ],
            only_appends(old(self).asked(), final(self).asked()),
            reads_only(*old(self), *final(self)),
            r matches Ok((messages, _)) ==> messages@.len() <= LIMIT_AGENT_LIST_MAX && messages@.len()
                <= limit,
            r matches Err(e) ==> e is Internal || is_not_found_of(e, "agent_run"@, run_id@),
            r matches Ok((messages, more)) ==> exists|rows: Seq<Vec<SqlValue>>, newest: Seq<AgentMessage>, total: i64|
                #![trigger messages_read(rows, newest), exceeds(total, list_cap(limit))]
                messages_read(rows, newest) && rows.len() <= list_cap(limit) && messages@ == newest.reverse()
                    && more == exceeds(total, list_cap(limit)),
    {
        let cap = clamp_limit(limit);
        assert(cap == list_cap(limit));
        let ghost a0 = self.answers();
        self.require_agent_run(run_id)?;
        let ghost a1 = self.answers();
        let counted = self.ask_by(COUNT_MESSAGES, run_id, 1)?;
        let ghost a2 = self.answers();
        if counted.len() == 0 {
            return Err(AppError::internal("sqlite: Query returned no rows"));
        }
        let total = int_at(&counted[0], 0)?;
        let rows = self.ask_newest(run_id, cap, 10)?;
        proof {
            assert(a2 == a1.push(counted@));
            assert(self.answers() == a2.push(rows@));
            assert(self.answers().take(a0.len() as int) =~= a0);
            assert(self.answers()[a0.len() + 1int] == counted@);
        }
        let newest_first = messages_from_rows(&rows, cap)?;
        let ghost read = rows@.take(newest_first@.len() as int);
        assert(messages_read(read, newest_first@));
        let messages = oldest_first(newest_first);
        let more = truncated(total, cap);
        assert(more == exceeds(total, list_cap(limit)));
        proof {
            let fin = self.answers();
            assert(fin.len() == a0.len() + 3);
            assert(fin.last() == rows@);
            assert(messages_read(fin.last().take(newest_first@.len() as int), newest_first@));
            assert(newest_first@.len() == fin.last().len() || newest_first@.len() == list_cap(limit));
            assert(messages@ == newest_first@.reverse());
            assert(has_int(fin[a0.len() + 1int][0]@, 0, total));
        }
        Ok((messages, more))
    }

    // --- agent permission requests ------------------------------------------

    /// Records what the agent asked permission for, before anyone is asked.
    pub fn record_permission_request(
        &mut self,
        id: &str,
        run_id: &str,
        title: &str,
        detail: &str,
        options: &str,
    ) -> (r: Result<AgentPermissionRecord, AppError>)
        requires
            old(self).clock_ok(),
        ensures
            !within(id@, 1, LIMIT_LABEL_CHARS as nat, true) ==> (r is Err && refused_as(
                r->Err_0,
                "id"@,
                id@,
                1,
                LIMIT_LABEL_CHARS as nat,
                true,
            )),
            (within(id@, 1, LIMIT_LABEL_CHARS as nat, true) && !within(
                title@,
                0,
                LIMIT_SUMMARY_CHARS as nat,
                false,
            )) ==> (r is Err && refused_as(
                r->Err_0,
                "title"@,
                title@,
                0,
                LIMIT_SUMMARY_CHARS as nat,
                false,
            )),
            r is Ok ==> final(self).issued() == old(self).issued().push(
                (
                    INSERT_PERMISSION@,
                    seq![
                        SqlModel::Text(checked_value(id@, true)),
                        SqlModel::Text(run_id@),
                        SqlModel::Text(title@),
                        SqlModel::Text(detail@),
                        SqlModel::Text(options@),
                        SqlModel::Integer(final(self).time()),
                    ],
                ),
            ),
            only_appends(old(self).issued(), final(self).issued()),
            r matches Ok(t) ==> final(self).asked().last() == (SELECT_PERMISSION_REQUEST@, seq![SqlModel::Text(checked_value(id@, true))]) && exists|row: Seq<SqlValue>| permission_read(row, t),
    {
        let id = validate_text("id", id, 1, LIMIT_LABEL_CHARS, true)?;
        let title = validate_text("title", title, 0, LIMIT_SUMMARY_CHARS, false)?;
        let detail = validate_text("detail", detail, 0, LIMIT_AGENT_DETAIL_CHARS, false)?;
        let options = validate_text("options", options, 1, LIMIT_AGENT_DETAIL_CHARS, false)?;
        let now = self.now();
        self.require_agent_run(run_id)?;
        let params = vec![
            text(id.as_str()),
            text(run_id),
            text(title.as_str()),
            text(detail.as_str()),
            text(options.as_str()),
            SqlValue::Integer(now),
        ];
        assert(models(params@) =~= seq![
            SqlModel::Text(id@),
            SqlModel::Text(run_id@),
            SqlModel::Text(title@),
            SqlModel::Text(detail@),
            SqlModel::Text(options@),
            SqlModel::Integer(now),
        ]);
        self.write(INSERT_PERMISSION, params)?;
        self.read_permission_request(id.as_str())
    }

    /// First answer wins. A late cancel cannot overwrite what the user chose,
    /// and an allow can never overwrite a recorded denial.
    pub fn resolve_permission_request(&mut self, id: &str, resolution: AgentPermissionResolution) -> (r:
        Result<AgentPermissionRecord, AppError>)
        requires
            old(self).clock_ok(),
        ensures
            final(self).issued() == old(self).issued().push(
                (
                    RESOLVE_PERMISSION@,
                    seq![
                        SqlModel::Text(id@),
                        SqlModel::Integer(final(self).time()),
                        SqlModel::Text(resolution_record(resolution)),
                    ],
                ),
            ),
            r matches Ok(t) ==> final(self).asked().last() == (SELECT_PERMISSION_REQUEST@, seq![SqlModel::Text(id@)]) && exists|row: Seq<SqlValue>| permission_read(row, t),
    {
        let now = self.now();
        let record = resolution.as_record();
        let params = vec![text(id), SqlValue::Integer(now), text(record.as_str())];
        assert(models(params@) =~= seq![
            SqlModel::Text(id@),
            SqlModel::Integer(now),
            SqlModel::Text(resolution_record(resolution)),
        ]);
        let changed = self.write(RESOLVE_PERMISSION, params)?;
        changed_or_not_found(changed, "agent_permission_request", id)?;
        self.read_permission_request(id)
    }

    pub fn get_permission_request(&mut self, id: &str) -> (r: Result<AgentPermissionRecord, AppError>)
        ensures
            one_more_answer(*old(self), *final(self)),
            r matches Ok(t) ==> latest_first_row(*final(self)) matches Some(row) && permission_read(row, t),
            final(self).asked() == old(self).asked().push((SELECT_PERMISSION_REQUEST@, seq![SqlModel::Text(id@)])),
            reads_only(*old(self), *final(self)),
            r matches Ok(t) ==> exists|row: Seq<SqlValue>| permission_read(row, t),
            r matches Err(e) ==> e is Internal || is_not_found_of(e, "agent_permission_request"@, id@),
    {
        self.read_permission_request(id)
    }

    // --- review inbox -------------------------------------------------------

    /// Files something a human should read into a thread's inbox, unseen and
    /// unreviewed. A named session must belong to the same thread.
    pub fn add_review_item(&mut self, thread_id: &str, session_id: Option<&str>, kind: &str, summary: &str) -> (r:
        Result<ReviewItem, AppError>)
        requires
            old(self).clock_ok(),
        ensures
            !within(kind@, 1, LIMIT_KIND_CHARS as nat, true) ==> (r is Err && refused_as(
                r->Err_0,
                "kind"@,
                kind@,
                1,
                LIMIT_KIND_CHARS as nat,
                true,
            )),
            (within(kind@, 1, LIMIT_KIND_CHARS as nat, true) && !within(
                summary@,
                1,
                LIMIT_SUMMARY_CHARS as nat,
                true,
            )) ==> (r is Err && refused_as(
                r->Err_0,
                "summary"@,
                summary@,
                1,
                LIMIT_SUMMARY_CHARS as nat,
                true,
            )),
            r is Ok ==> exists|id: Seq<char>|
                minted(id, "rev"@) && final(self).issued() == old(self).issued().push(
                    (
                        INSERT_REVIEW_ITEM@,
                        seq![
                            SqlModel::Text(id),
                            SqlModel::Text(thread_id@),
                            opt_model(
                                match session_id {
                                    Some(sid) => Some(sid@),
                                    None => None,
                                },
                            ),
                            SqlModel::Text(checked_value(kind@, true)),
                            SqlModel::Text(checked_value(summary@, true)),
                            SqlModel::Integer(final(self).time()),
                        ],
                    ),
                ),
            only_appends(old(self).issued(), final(self).issued()),
            r matches Ok(t) ==> final(self).asked().last() == (SELECT_REVIEW_ITEM@, seq![final(self).issued().last().1[0]]) && exists|row: Seq<SqlValue>| review_item_read(row, t),
    {
        let kind = validate_text("kind", kind, 1, LIMIT_KIND_CHARS, true)?;
        let summary = validate_text("summary", summary, 1, LIMIT_SUMMARY_CHARS, true)?;
        let now = self.now();
        let id = new_id("rev");
        self.require_thread(thread_id)?;
        match session_id {
            Some(sid) => {
                self.require_session_in_thread(sid, thread_id)?;
            },
            None => {},
        }
        let params = vec![
            text(id.as_str()),
            text(thread_id),
            opt_text(session_id),
            text(kind.as_str()),
            text(summary.as_str()),
            SqlValue::Integer(now),
        ];
        proof {
            reveal_strlit("rev");
            assert(minted(id@, "rev"@));
            assert(models(params@) =~= seq![
                SqlModel::Text(id@),
                SqlModel::Text(thread_id@),
                opt_model(
                    match session_id {
                        Some(sid) => Some(sid@),
                        None => None,
                    },
                ),
                SqlModel::Text(kind@),
                SqlModel::Text(summary@),
                SqlModel::Integer(now),
            ]);
        }
        self.write(INSERT_REVIEW_ITEM, params)?;
        self.read_review_item(id.as_str())
    }

    /// A thread's inbox, oldest first.
    pub fn list_review_items(&mut self, thread_id: &str) -> (r: Result<Vec<ReviewItem>, AppError>)
        ensures
            r matches Ok(v) ==> final(self).answers().len() == old(self).answers().len() + 2
                && final(self).answers().take(old(self).answers().len() as int) == old(self).answers()
                && review_items_read(final(self).answers().last(), v@),
            r is Ok ==> final(self).asked() == old(self).asked() + seq![(THREAD_EXISTS@, seq![SqlModel::Text(thread_id@)]), (LIST_REVIEW_ITEMS@, seq![SqlModel::Text(thread_id@)])],
            only_appends(old(self).asked(), final(self).asked()),
            reads_only(*old(self), *final(self)),
            r matches Ok(v) ==> exists|rows: Seq<Vec<SqlValue>>| review_items_read(rows, v@),
            r matches Err(e) ==> e is Internal || is_not_found_of(e, "thread"@, thread_id@),
    {
        self.require_thread(thread_id)?;
        let rows = self.ask_by(LIST_REVIEW_ITEMS, thread_id, 8)?;
        let v = review_items_from_rows(&rows)?;
        assert(review_items_read(rows@, v@));
        Ok(v)
    }

    /// How many results are waiting to be looked at, per thread. This is what
    /// keeps a thread actionable after an agent produces something new: the
    /// thread's own seen/reviewed record what a human did and are never
    /// rewritten by an agent, so the unread signal comes from the items.
    pub fn unseen_review_counts(&mut self) -> (r: Result<Vec<UnseenReviewCount>, AppError>)
        ensures
            one_more_answer(*old(self), *final(self)),
            r matches Ok(v) ==> counts_read(final(self).answers().last(), v@),
            final(self).asked() == old(self).asked().push((UNSEEN_COUNTS@, Seq::<SqlModel>::empty())),
            reads_only(*old(self), *final(self)),
            r matches Ok(v) ==> exists|rows: Seq<Vec<SqlValue>>| counts_read(rows, v@),
            r matches Err(e) ==> e is Internal,
    {
        let rows = self.ask_all(UNSEEN_COUNTS, 2)?;
        let v = counts_from_rows(&rows)?;
        assert(counts_read(rows@, v@));
        Ok(v)
    }

    /// An explicit human act; it also counts as having seen the item.
    pub fn mark_review_item_reviewed(&mut self, id: &str) -> (r: Result<ReviewItem, AppError>)
        requires
            old(self).clock_ok(),
        ensures
            r is Ok ==> final(self).issued() == old(self).issued().push(
                (MARK_ITEM_REVIEWED@, seq![SqlModel::Text(id@), SqlModel::Integer(final(self).time())]),
            ),
            only_appends(old(self).issued(), final(self).issued()),
            r matches Ok(t) ==> final(self).asked().last() == (SELECT_REVIEW_ITEM@, seq![SqlModel::Text(id@)]) && exists|row: Seq<SqlValue>| review_item_read(row, t),
    {
        let now = self.now();
        let rows = self.ask_by(REVIEW_ITEM_EXISTS, id, 1)?;
        first_row(&rows, "review_item", id)?;
        let params = vec![text(id), SqlValue::Integer(now)];
        assert(models(params@) =~= seq![SqlModel::Text(id@), SqlModel::Integer(now)]);
        self.write(MARK_ITEM_REVIEWED, params)?;
        self.read_review_item(id)
    }
}

} // verus!
