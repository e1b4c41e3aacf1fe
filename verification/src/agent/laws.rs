//! What holds of every agent run, whatever happens to it.

use vstd::prelude::*;
use crate::agent::lines::line_result;
use crate::agent::locate::{child_env_of, is_bypass, without_bypasses, without_name};
use crate::agent::protocol::{PermissionDecision, content_of};
use crate::json::JsonModel;
use crate::agent::run_state::{
    RunState, claim_step, seq_step, status_step, wire_decision, resolution_why,
};
use crate::agent::runtime::{AgentStatus, bounded_body, needs_session};
use crate::error::{AppError, error_message};
use crate::store::LIMIT_AGENT_BODY_CHARS;

verus! {

/// Status is derived from protocol events, never from liveness: in every
/// well-formed state, a status that describes a live session (`ready`,
/// `responding`, `awaitingPermission`, `cancelling`, `turnComplete`) implies
/// `session/new` has answered with a session id. Every transition keeps the
/// state well-formed.
pub proof fn law_live_status_has_session(s: RunState)
    requires
        s.wf(),
    ensures
        needs_session(s.status) ==> s.acp_session_id is Some,
        s.status == AgentStatus::Connecting ==> !needs_session(s.status),
{
}

/// First claimant wins: once a run's settlement has been claimed, every later
/// claim is refused and leaves the run as it is.
pub proof fn law_first_claimant_wins(s: RunState)
    requires
        s.wf(),
    ensures
        !claim_step(claim_step(s).1).0,
        claim_step(claim_step(s).1).1 == claim_step(s).1,
        claim_step(s).1.settlement_claimed,
{
}

/// A settled run's status is frozen: no status change after the run has ended
/// alters it or publishes anything.
pub proof fn law_settled_status_is_frozen(
    s: RunState,
    status: AgentStatus,
    detail: Option<String>,
)
    requires
        s.ended_at is Some,
    ensures
        status_step(s, status, detail) == (None::<crate::agent::runtime::AgentEvent>, s),
{
}

/// Events are numbered in the order they are made: the next number is always
/// one past the last, so a subscriber can discard everything below a
/// snapshot's cursor.
pub proof fn law_events_numbered_in_order(s: RunState)
    requires
        s.next_seq < u64::MAX - 1,
    ensures
        seq_step(seq_step(s).1).0 == seq_step(s).0 + 1,
        seq_step(s).0 == s.next_seq,
{
}

/// Permissions fail closed: the agent is told "allowed" only for an explicit
/// selection whose resolution was recorded. Every other path — timeout,
/// cancel, disconnect, quit, an unrecordable approval — answers "not allowed".
pub proof fn law_allow_requires_recorded_selection(
    decision: PermissionDecision,
    audit: Result<(), AppError>,
)
    ensures
        wire_decision(decision, audit) is Selected ==> (decision is Selected && audit is Ok),
        decision is Cancelled ==> wire_decision(decision, audit) is Cancelled,
        audit is Err ==> wire_decision(decision, audit) is Cancelled,
        (decision is Selected && audit is Ok) ==> wire_decision(decision, audit) == decision,
{
}

/// An approval that could not be recorded is reported as such, with the
/// store's own words, rather than with the reason it was given.
pub proof fn law_unrecorded_approval_is_explained(
    decision: PermissionDecision,
    why: Seq<char>,
    e: AppError,
)
    requires
        decision is Selected,
    ensures
        resolution_why(decision, why, Err(e)) == "the approval could not be recorded: "@
            + error_message(e),
{
}

/// A persisted transcript body never exceeds the limit, and one within it is
/// kept exactly.
pub proof fn law_bodies_are_bounded(body: Seq<char>)
    ensures
        bounded_body(body).len() <= LIMIT_AGENT_BODY_CHARS,
        body.len() <= LIMIT_AGENT_BODY_CHARS ==> bounded_body(body) == body,
{
    reveal_strlit("[earlier output dropped: this entry exceeded 200000 characters]\n");
}

/// No line longer than the limit is ever handed on: an oversized line comes
/// out empty and flagged, and a line within the limit comes out whole.
pub proof fn law_lines_are_bounded(raw: Seq<u8>, limit: nat)
    ensures
        line_result(raw, limit).0.len() <= limit,
        line_result(raw, limit).1 <==> raw.len() > limit,
        raw.len() <= limit ==> line_result(raw, limit).0 == raw,
{
}

/// Removing a name never adds an entry: every entry kept was in `env`.
proof fn lemma_without_name_keeps_only(env: Seq<(String, String)>, name: Seq<char>)
    ensures
        forall|i: int|
            0 <= i < without_name(env, name).len() ==> (#[trigger] without_name(env, name)[i]).0@
                != name && env.contains(without_name(env, name)[i]),
    decreases env.len(),
{
    if env.len() > 0 {
        let init = env.drop_last();
        lemma_without_name_keeps_only(init, name);
        assert forall|i: int| 0 <= i < without_name(env, name).len() implies (
        #[trigger] without_name(env, name)[i]).0@ != name && env.contains(without_name(env, name)[i]) by {
            let w = without_name(env, name);
            if env.last().0@ != name && i == w.len() - 1 {
                assert(w[i] == env.last());
                assert(env[env.len() - 1] == env.last());
            } else {
                assert(w[i] == without_name(init, name)[i]);
                let k = choose|k: int| 0 <= k < init.len() && init[k] == w[i];
                assert(env[k] == init[k]);
            }
        }
    }
}

/// Every entry kept by the bypass scrub was in `env` and is not a bypass.
proof fn lemma_without_bypasses_keeps_only(env: Seq<(String, String)>)
    ensures
        forall|i: int|
            0 <= i < without_bypasses(env).len() ==> !is_bypass((#[trigger] without_bypasses(env)[i]).0@),
    decreases env.len(),
{
    if env.len() > 0 {
        let init = env.drop_last();
        lemma_without_bypasses_keeps_only(init);
        assert forall|i: int| 0 <= i < without_bypasses(env).len() implies !is_bypass(
            (#[trigger] without_bypasses(env)[i]).0@,
        ) by {
            let w = without_bypasses(env);
            if !is_bypass(env.last().0@) && i == w.len() - 1 {
                assert(w[i] == env.last());
            } else {
                assert(w[i] == without_bypasses(init)[i]);
            }
        }
    }
}

/// No approval bypass reaches the agent's child, whatever was inherited and
/// whatever was added: the environment before its own `PATH` holds no bypass
/// variable and no other `PATH`.
pub proof fn law_no_bypass_reaches_the_child(inherited: Seq<(String, String)>, extra: Seq<(String, String)>)
    ensures
        forall|i: int|
            0 <= i < child_env_of(inherited, extra).len() ==> {
                &&& !is_bypass((#[trigger] child_env_of(inherited, extra)[i]).0@)
                &&& child_env_of(inherited, extra)[i].0@ != "PATH"@
            },
{
    let scrubbed = without_bypasses(crate::agent::locate::merged(inherited, extra));
    lemma_without_bypasses_keeps_only(crate::agent::locate::merged(inherited, extra));
    lemma_without_name_keeps_only(scrubbed, "PATH"@);
    assert forall|i: int| 0 <= i < child_env_of(inherited, extra).len() implies {
        &&& !is_bypass((#[trigger] child_env_of(inherited, extra)[i]).0@)
        &&& child_env_of(inherited, extra)[i].0@ != "PATH"@
    } by {
        let e = child_env_of(inherited, extra)[i];
        assert(scrubbed.contains(e));
        let k = choose|k: int| 0 <= k < scrubbed.len() && scrubbed[k] == e;
        assert(!is_bypass(scrubbed[k].0@));
    }
}

/// The text of a tool's content, one block more: an array's text is the text
/// of its blocks before the last followed by the last block's text, so every
/// block is kept and in order. An empty array has no text.
pub proof fn law_tool_content_keeps_every_block(blocks: Seq<JsonModel>, next: JsonModel)
    ensures
        content_of(JsonModel::Array(Seq::empty())) == Seq::<char>::empty(),
        content_of(JsonModel::Array(blocks.push(next))) == content_of(JsonModel::Array(blocks)) + content_of(
            next,
        ),
{
    reveal_with_fuel(content_of, 2);
    reveal_with_fuel(crate::agent::protocol::items_content, 2);
    let all = blocks.push(next);
    assert(all.subrange(0, all.len() - 1) =~= blocks);
    assert(all[all.len() - 1] == next);
    assert(content_of(JsonModel::Array(all)) == crate::agent::protocol::items_content(all));
    assert(content_of(JsonModel::Array(blocks)) == crate::agent::protocol::items_content(blocks));
}

/// An ACP content block `{"type":"content","content":{"type":"text","text":t}}`.
pub open spec fn text_content_block(t: Seq<char>) -> JsonModel {
    JsonModel::Object(
        seq![
            ("type"@, JsonModel::Str("content"@)),
            ("content"@, JsonModel::Object(seq![("type"@, JsonModel::Str("text"@)), ("text"@, JsonModel::Str(t))])),
        ],
    )
}

/// Two text blocks read as their texts joined in order, whatever they say.
pub proof fn law_two_text_blocks_join_in_order(first: Seq<char>, second: Seq<char>)
    ensures
        content_of(JsonModel::Array(seq![text_content_block(first), text_content_block(second)])) == first
            + second,
{
    reveal_strlit("type");
    reveal_strlit("text");
    reveal_strlit("content");
    assert("type"@ != "text"@) by {
        assert("type"@[1] != "text"@[1]);
    }
    assert("content"@ != "text"@) by {
        assert("content"@.len() != "text"@.len());
    }
    lemma_text_block_reads_its_text(first);
    lemma_text_block_reads_its_text(second);
    let blocks = seq![text_content_block(first), text_content_block(second)];
    law_tool_content_keeps_every_block(seq![text_content_block(first)], text_content_block(second));
    assert(seq![text_content_block(first)].push(text_content_block(second)) =~= blocks);
    law_tool_content_keeps_every_block(Seq::empty(), text_content_block(first));
    assert(Seq::<JsonModel>::empty().push(text_content_block(first)) =~= seq![text_content_block(first)]);
    assert(Seq::<char>::empty() + first =~= first);
}

proof fn lemma_text_block_reads_its_text(t: Seq<char>)
    ensures
        content_of(text_content_block(t)) == t,
{
    reveal_strlit("type");
    reveal_strlit("text");
    reveal_strlit("content");
    assert("type"@ != "text"@) by {
        assert("type"@[1] != "text"@[1]);
    }
    assert("content"@ != "text"@) by {
        assert("content"@.len() != "text"@.len());
    }
    assert("type"@ != "content"@) by {
        assert("type"@.len() != "content"@.len());
    }
    reveal_with_fuel(crate::json::entries_get, 3);
    let inner_entries = seq![("type"@, JsonModel::Str("text"@)), ("text"@, JsonModel::Str(t))];
    let inner = JsonModel::Object(inner_entries);
    let outer_entries = seq![("type"@, JsonModel::Str("content"@)), ("content"@, inner)];
    assert(outer_entries.drop_first() =~= seq![("content"@, inner)]);
    assert(seq![("content"@, inner)].drop_first() =~= Seq::<(Seq<char>, JsonModel)>::empty());
    assert(inner_entries.drop_first() =~= seq![("text"@, JsonModel::Str(t))]);
    assert(crate::json::model_get(text_content_block(t), "text"@) is None);
    assert(crate::json::model_get(text_content_block(t), "content"@) == Some(inner));
    assert(crate::json::model_get(inner, "text"@) == Some(JsonModel::Str(t)));
    reveal_with_fuel(content_of, 2);
    assert(content_of(inner) == t);
}

} // verus!
