//! What the store's reads and drafts give back, whatever the database holds.

use vstd::prelude::*;
use crate::db::SqlValue;
use crate::store::{AgentRun, Session, Store, Thread, handoff_text};
use crate::store::ops::{agent_runs_read, stored_handoff};

verus! {

/// `part` occurs in `text`.
pub open spec fn holds_text(text: Seq<char>, part: Seq<char>) -> bool {
    exists|i: int| 0 <= i && i + part.len() <= text.len() && #[trigger] text.subrange(i, i + part.len()) == part
}

/// A draft for a thread bound to a directory names that directory in its
/// environment section.
pub proof fn law_draft_names_the_bound_directory(thread: Thread, predecessor: Option<Session>, now: int, dir: String)
    requires
        thread.workdir == Some(dir),
    ensures
        holds_text(handoff_text(thread, predecessor, now), "Directory selected for this thread: "@ + dir@),
{
    let part = "Directory selected for this thread: "@ + dir@;
    let text = handoff_text(thread, predecessor, now);
    let env_start = "# Handoff draft — "@ + thread.title@ + "\n"@ + "Generated "@ + crate::clock::utc_text(now)
        + " (UTC)\n\n"@ + crate::store::HANDOFF_DISCLOSURE@ + "\n\n## Thread notes\n"@
        + crate::store::or_placeholder(thread.notes@, "(no notes recorded)"@) + "\n\n## Predecessor session\n"@
        + crate::store::predecessor_section(predecessor) + "\n\n## Environment\n"@;
    let rest = "\nProvenance: user selection recorded in Faiden. Not observed from any running process."@
        + crate::store::HANDOFF_CARRY_FORWARD@;
    assert(text =~= env_start + part + rest);
    let i = env_start.len() as int;
    assert(text.subrange(i, i + part.len()) =~= part);
}

/// A draft is written from the thread as the database stores it: when the
/// stored row binds the thread to a directory, the draft names that directory.
pub proof fn law_draft_shows_the_stored_directory(
    before: Store,
    after: Store,
    thread: Thread,
    predecessor: Option<Session>,
    now: int,
    dir: String,
)
    requires
        stored_handoff(before, after, thread, predecessor),
        after.answers()[before.answers().len() as int][0]@[3] == SqlValue::Text(dir),
    ensures
        holds_text(handoff_text(thread, predecessor, now), "Directory selected for this thread: "@ + dir@),
{
    law_draft_names_the_bound_directory(thread, predecessor, now, dir);
}

/// A session's run history is every row the history query returned, one run
/// per row and in order: the `i`th run is the run the `i`th row names.
pub proof fn law_history_lists_every_returned_run(rows: Seq<Vec<SqlValue>>, runs: Seq<AgentRun>)
    requires
        agent_runs_read(rows, runs),
    ensures
        runs.len() == rows.len(),
        forall|i: int| 0 <= i < rows.len() ==> rows[i]@[0] == SqlValue::Text(#[trigger] runs[i].run_id),
{
    assert forall|i: int| 0 <= i < rows.len() implies rows[i]@[0] == SqlValue::Text(#[trigger] runs[i].run_id) by {
        assert(crate::store::rows::agent_run_read(rows[i]@, runs[i]));
    }
}

} // verus!
