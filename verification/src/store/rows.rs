//! Records read back from result rows, column by column in the order the
//! store's queries select them.

use vstd::prelude::*;
use crate::db::{SqlValue, int_at, opt_int_at, opt_text_at, text_at, unreadable_message};
use crate::error::{AppError, is_internal_error};
use crate::store::{AgentMessage, AgentPermissionRecord, AgentRun, ReviewItem, Session, Thread};

verus! {

/// Column `i` of `row` holds the text `s`.
pub open spec fn has_text(row: Seq<SqlValue>, i: int, s: String) -> bool {
    0 <= i < row.len() && row[i] == SqlValue::Text(s)
}

/// Column `i` of `row` holds the text `s`, or `NULL` for `None`.
pub open spec fn has_opt_text(row: Seq<SqlValue>, i: int, s: Option<String>) -> bool {
    0 <= i < row.len() && match s {
        Some(t) => row[i] == SqlValue::Text(t),
        None => row[i] is Null,
    }
}

/// Column `i` of `row` holds the integer `n`.
pub open spec fn has_int(row: Seq<SqlValue>, i: int, n: i64) -> bool {
    0 <= i < row.len() && row[i] == SqlValue::Integer(n)
}

/// Column `i` of `row` holds the integer `n`, or `NULL` for `None`.
pub open spec fn has_opt_int(row: Seq<SqlValue>, i: int, n: Option<i64>) -> bool {
    0 <= i < row.len() && match n {
        Some(v) => row[i] == SqlValue::Integer(v),
        None => row[i] is Null,
    }
}

/// Column `i` of `row` holds text.
pub open spec fn text_col(row: Seq<SqlValue>, i: int) -> bool {
    0 <= i < row.len() && row[i] is Text
}

/// Column `i` of `row` holds text or `NULL`.
pub open spec fn opt_text_col(row: Seq<SqlValue>, i: int) -> bool {
    0 <= i < row.len() && (row[i] is Text || row[i] is Null)
}

/// Column `i` of `row` holds an integer.
pub open spec fn int_col(row: Seq<SqlValue>, i: int) -> bool {
    0 <= i < row.len() && row[i] is Integer
}

/// Column `i` of `row` holds an integer or `NULL`.
pub open spec fn opt_int_col(row: Seq<SqlValue>, i: int) -> bool {
    0 <= i < row.len() && (row[i] is Integer || row[i] is Null)
}

/// Column `i` of a thread row holds what a thread keeps there.
pub open spec fn thread_col(row: Seq<SqlValue>, i: int) -> bool {
    if i <= 2 {
        text_col(row, i)
    } else if i == 3 {
        opt_text_col(row, i)
    } else if i <= 5 {
        int_col(row, i)
    } else {
        opt_int_col(row, i)
    }
}

/// Every column of `row` reads as a thread's.
pub open spec fn thread_fits(row: Seq<SqlValue>) -> bool {
    &&& thread_col(row, 0) &&& thread_col(row, 1) &&& thread_col(row, 2) &&& thread_col(row, 3)
    &&& thread_col(row, 4) &&& thread_col(row, 5) &&& thread_col(row, 6) &&& thread_col(row, 7)
}

/// `x` is what `row` holds, column by column.
pub open spec fn thread_read(row: Seq<SqlValue>, x: Thread) -> bool {
    &&& has_text(row, 0, x.id)
    &&& has_text(row, 1, x.title)
    &&& has_text(row, 2, x.notes)
    &&& has_opt_text(row, 3, x.workdir)
    &&& has_int(row, 4, x.created_at)
    &&& has_int(row, 5, x.updated_at)
    &&& has_opt_int(row, 6, x.seen_at)
    &&& has_opt_int(row, 7, x.reviewed_at)
}

/// `id, title, notes, workdir, created_at, updated_at, seen_at, reviewed_at`.
pub fn thread_from_row(row: &Vec<SqlValue>) -> (r: Result<Thread, AppError>)
    ensures
        r is Ok <==> thread_fits(row@),
        r matches Err(e) ==> exists|i: nat|
            i < 8 && !thread_col(row@, i as int) && #[trigger] is_internal_error(e, unreadable_message(i)),
        r matches Ok(t) ==> thread_read(row@, t),
{
    Ok(Thread {
        id: text_at(row, 0)?,
        title: text_at(row, 1)?,
        notes: text_at(row, 2)?,
        workdir: opt_text_at(row, 3)?,
        created_at: int_at(row, 4)?,
        updated_at: int_at(row, 5)?,
        seen_at: opt_int_at(row, 6)?,
        reviewed_at: opt_int_at(row, 7)?,
    })
}

/// Column `i` of a session row holds what a session keeps there.
pub open spec fn session_col(row: Seq<SqlValue>, i: int) -> bool {
    if i == 0 {
        text_col(row, i)
    } else if i == 1 {
        text_col(row, i)
    } else if i == 2 {
        text_col(row, i)
    } else if i == 3 {
        text_col(row, i)
    } else if i == 4 {
        opt_text_col(row, i)
    } else if i == 5 {
        text_col(row, i)
    } else if i == 6 {
        int_col(row, i)
    } else if i == 7 {
        opt_int_col(row, i)
    } else {
        opt_text_col(row, i)
    }
}

/// Every column of `row` reads as a session's.
pub open spec fn session_fits(row: Seq<SqlValue>) -> bool {
    &&& session_col(row, 0) &&& session_col(row, 1) &&& session_col(row, 2) &&& session_col(row, 3) &&& session_col(row, 4) &&& session_col(row, 5) &&& session_col(row, 6) &&& session_col(row, 7) &&& session_col(row, 8)
}

/// `x` is what `row` holds, column by column.
pub open spec fn session_read(row: Seq<SqlValue>, x: Session) -> bool {
    &&& has_text(row, 0, x.id)
    &&& has_text(row, 1, x.thread_id)
    &&& has_text(row, 2, x.label)
    &&& has_text(row, 3, x.kind)
    &&& has_opt_text(row, 4, x.predecessor_id)
    &&& has_text(row, 5, x.briefing)
    &&& has_int(row, 6, x.created_at)
    &&& has_opt_int(row, 7, x.ended_at)
    &&& has_opt_text(row, 8, x.outcome)
}

/// `id, thread_id, label, kind, predecessor_id, briefing, created_at,
/// ended_at, outcome`.
pub fn session_from_row(row: &Vec<SqlValue>) -> (r: Result<Session, AppError>)
    ensures
        r is Ok <==> session_fits(row@),
        r matches Err(e) ==> exists|i: nat|
            i < 9 && !session_col(row@, i as int) && #[trigger] is_internal_error(e, unreadable_message(i)),
        r matches Ok(s) ==> session_read(row@, s),
{
    Ok(Session {
        id: text_at(row, 0)?,
        thread_id: text_at(row, 1)?,
        label: text_at(row, 2)?,
        kind: text_at(row, 3)?,
        predecessor_id: opt_text_at(row, 4)?,
        briefing: text_at(row, 5)?,
        created_at: int_at(row, 6)?,
        ended_at: opt_int_at(row, 7)?,
        outcome: opt_text_at(row, 8)?,
    })
}

/// Column `i` of a review item row holds what a review item keeps there.
pub open spec fn review_item_col(row: Seq<SqlValue>, i: int) -> bool {
    if i == 0 {
        text_col(row, i)
    } else if i == 1 {
        text_col(row, i)
    } else if i == 2 {
        opt_text_col(row, i)
    } else if i == 3 {
        text_col(row, i)
    } else if i == 4 {
        text_col(row, i)
    } else if i == 5 {
        int_col(row, i)
    } else if i == 6 {
        opt_int_col(row, i)
    } else {
        opt_int_col(row, i)
    }
}

/// Every column of `row` reads as a review item's.
pub open spec fn review_item_fits(row: Seq<SqlValue>) -> bool {
    &&& review_item_col(row, 0) &&& review_item_col(row, 1) &&& review_item_col(row, 2) &&& review_item_col(row, 3) &&& review_item_col(row, 4) &&& review_item_col(row, 5) &&& review_item_col(row, 6) &&& review_item_col(row, 7)
}

/// `x` is what `row` holds, column by column.
pub open spec fn review_item_read(row: Seq<SqlValue>, x: ReviewItem) -> bool {
    &&& has_text(row, 0, x.id)
    &&& has_text(row, 1, x.thread_id)
    &&& has_opt_text(row, 2, x.session_id)
    &&& has_text(row, 3, x.kind)
    &&& has_text(row, 4, x.summary)
    &&& has_int(row, 5, x.created_at)
    &&& has_opt_int(row, 6, x.seen_at)
    &&& has_opt_int(row, 7, x.reviewed_at)
}

/// `id, thread_id, session_id, kind, summary, created_at, seen_at,
/// reviewed_at`.
pub fn review_item_from_row(row: &Vec<SqlValue>) -> (r: Result<ReviewItem, AppError>)
    ensures
        r is Ok <==> review_item_fits(row@),
        r matches Err(e) ==> exists|i: nat|
            i < 8 && !review_item_col(row@, i as int) && #[trigger] is_internal_error(e, unreadable_message(i)),
        r matches Ok(i) ==> review_item_read(row@, i),
{
    Ok(ReviewItem {
        id: text_at(row, 0)?,
        thread_id: text_at(row, 1)?,
        session_id: opt_text_at(row, 2)?,
        kind: text_at(row, 3)?,
        summary: text_at(row, 4)?,
        created_at: int_at(row, 5)?,
        seen_at: opt_int_at(row, 6)?,
        reviewed_at: opt_int_at(row, 7)?,
    })
}

/// Column `i` of an agent run row holds what an agent run keeps there.
pub open spec fn agent_run_col(row: Seq<SqlValue>, i: int) -> bool {
    if i == 0 {
        text_col(row, i)
    } else if i == 1 {
        text_col(row, i)
    } else if i == 2 {
        text_col(row, i)
    } else if i == 3 {
        opt_text_col(row, i)
    } else if i == 4 {
        opt_text_col(row, i)
    } else if i == 5 {
        int_col(row, i)
    } else if i == 6 {
        opt_int_col(row, i)
    } else {
        opt_text_col(row, i)
    }
}

/// Every column of `row` reads as an agent run's.
pub open spec fn agent_run_fits(row: Seq<SqlValue>) -> bool {
    &&& agent_run_col(row, 0) &&& agent_run_col(row, 1) &&& agent_run_col(row, 2) &&& agent_run_col(row, 3) &&& agent_run_col(row, 4) &&& agent_run_col(row, 5) &&& agent_run_col(row, 6) &&& agent_run_col(row, 7)
}

/// `x` is what `row` holds, column by column.
pub open spec fn agent_run_read(row: Seq<SqlValue>, x: AgentRun) -> bool {
    &&& has_text(row, 0, x.run_id)
    &&& has_text(row, 1, x.session_id)
    &&& has_text(row, 2, x.program)
    &&& has_opt_text(row, 3, x.cwd)
    &&& has_opt_text(row, 4, x.acp_session_id)
    &&& has_int(row, 5, x.started_at)
    &&& has_opt_int(row, 6, x.ended_at)
    &&& has_opt_text(row, 7, x.outcome)
}

/// `run_id, session_id, program, cwd, acp_session_id, started_at, ended_at,
/// outcome`.
pub fn agent_run_from_row(row: &Vec<SqlValue>) -> (r: Result<AgentRun, AppError>)
    ensures
        r is Ok <==> agent_run_fits(row@),
        r matches Err(e) ==> exists|i: nat|
            i < 8 && !agent_run_col(row@, i as int) && #[trigger] is_internal_error(e, unreadable_message(i)),
        r matches Ok(a) ==> agent_run_read(row@, a),
{
    Ok(AgentRun {
        run_id: text_at(row, 0)?,
        session_id: text_at(row, 1)?,
        program: text_at(row, 2)?,
        cwd: opt_text_at(row, 3)?,
        acp_session_id: opt_text_at(row, 4)?,
        started_at: int_at(row, 5)?,
        ended_at: opt_int_at(row, 6)?,
        outcome: opt_text_at(row, 7)?,
    })
}

/// Column `i` of a transcript entry row holds what a transcript entry keeps there.
pub open spec fn message_col(row: Seq<SqlValue>, i: int) -> bool {
    if i == 0 {
        text_col(row, i)
    } else if i == 1 {
        text_col(row, i)
    } else if i == 2 {
        text_col(row, i)
    } else if i == 3 {
        text_col(row, i)
    } else if i == 4 {
        int_col(row, i)
    } else if i == 5 {
        text_col(row, i)
    } else if i == 6 {
        opt_text_col(row, i)
    } else if i == 7 {
        opt_text_col(row, i)
    } else if i == 8 {
        int_col(row, i)
    } else {
        int_col(row, i)
    }
}

/// Every column of `row` reads as a transcript entry's.
pub open spec fn message_fits(row: Seq<SqlValue>) -> bool {
    &&& message_col(row, 0) &&& message_col(row, 1) &&& message_col(row, 2) &&& message_col(row, 3) &&& message_col(row, 4) &&& message_col(row, 5) &&& message_col(row, 6) &&& message_col(row, 7) &&& message_col(row, 8) &&& message_col(row, 9)
}

/// `x` is what `row` holds, column by column.
pub open spec fn message_read(row: Seq<SqlValue>, x: AgentMessage) -> bool {
    &&& has_text(row, 0, x.id)
    &&& has_text(row, 1, x.run_id)
    &&& has_text(row, 2, x.key)
    &&& has_text(row, 3, x.role)
    &&& has_int(row, 4, x.turn)
    &&& has_text(row, 5, x.body)
    &&& has_opt_text(row, 6, x.detail)
    &&& has_opt_text(row, 7, x.status)
    &&& has_int(row, 8, x.created_at)
    &&& has_int(row, 9, x.updated_at)
}

/// `id, run_id, key, role, turn, body, detail, status, created_at,
/// updated_at`.
pub fn message_from_row(row: &Vec<SqlValue>) -> (r: Result<AgentMessage, AppError>)
    ensures
        r is Ok <==> message_fits(row@),
        r matches Err(e) ==> exists|i: nat|
            i < 10 && !message_col(row@, i as int) && #[trigger] is_internal_error(e, unreadable_message(i)),
        r matches Ok(m) ==> message_read(row@, m),
{
    Ok(AgentMessage {
        id: text_at(row, 0)?,
        run_id: text_at(row, 1)?,
        key: text_at(row, 2)?,
        role: text_at(row, 3)?,
        turn: int_at(row, 4)?,
        body: text_at(row, 5)?,
        detail: opt_text_at(row, 6)?,
        status: opt_text_at(row, 7)?,
        created_at: int_at(row, 8)?,
        updated_at: int_at(row, 9)?,
    })
}

/// Column `i` of a permission request row holds what a permission request keeps there.
pub open spec fn permission_col(row: Seq<SqlValue>, i: int) -> bool {
    if i == 0 {
        text_col(row, i)
    } else if i == 1 {
        text_col(row, i)
    } else if i == 2 {
        text_col(row, i)
    } else if i == 3 {
        text_col(row, i)
    } else if i == 4 {
        text_col(row, i)
    } else if i == 5 {
        int_col(row, i)
    } else if i == 6 {
        opt_int_col(row, i)
    } else {
        opt_text_col(row, i)
    }
}

/// Every column of `row` reads as a permission request's.
pub open spec fn permission_fits(row: Seq<SqlValue>) -> bool {
    &&& permission_col(row, 0) &&& permission_col(row, 1) &&& permission_col(row, 2) &&& permission_col(row, 3) &&& permission_col(row, 4) &&& permission_col(row, 5) &&& permission_col(row, 6) &&& permission_col(row, 7)
}

/// `x` is what `row` holds, column by column.
pub open spec fn permission_read(row: Seq<SqlValue>, x: AgentPermissionRecord) -> bool {
    &&& has_text(row, 0, x.id)
    &&& has_text(row, 1, x.run_id)
    &&& has_text(row, 2, x.title)
    &&& has_text(row, 3, x.detail)
    &&& has_text(row, 4, x.options)
    &&& has_int(row, 5, x.created_at)
    &&& has_opt_int(row, 6, x.resolved_at)
    &&& has_opt_text(row, 7, x.resolution)
}

/// `id, run_id, title, detail, options, created_at, resolved_at, resolution`.
pub fn permission_from_row(row: &Vec<SqlValue>) -> (r: Result<AgentPermissionRecord, AppError>)
    ensures
        r is Ok <==> permission_fits(row@),
        r matches Err(e) ==> exists|i: nat|
            i < 8 && !permission_col(row@, i as int) && #[trigger] is_internal_error(e, unreadable_message(i)),
        r matches Ok(p) ==> permission_read(row@, p),
{
    Ok(AgentPermissionRecord {
        id: text_at(row, 0)?,
        run_id: text_at(row, 1)?,
        title: text_at(row, 2)?,
        detail: text_at(row, 3)?,
        options: text_at(row, 4)?,
        created_at: int_at(row, 5)?,
        resolved_at: opt_int_at(row, 6)?,
        resolution: opt_text_at(row, 7)?,
    })
}

} // verus!
