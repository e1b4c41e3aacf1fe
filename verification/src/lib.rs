//! Faiden's native logic: thread and session bookkeeping, the Hermes ACP wire,
//! the agent run state machine, and the terminal output model.
//!
//! The functions at the root decide the authority boundary of the command
//! surface. Web content can ask for a shell or an agent in a directory the user
//! already bound; it can never choose the program that runs, and terminal bytes
//! never come back as commands.

pub mod error;
pub mod text;
pub mod clock;
pub mod terminal;
pub mod json;
pub mod db;
pub mod store;
pub mod environment;
pub mod agent;

use vstd::prelude::*;
use crate::agent::locate::{HermesInstall, Lookup, locate_hermes, search_order, candidate, probed};
use crate::agent::runtime::{AgentRunInfo, AgentStatus, AUTHORITY_DISCLOSURE};
use crate::error::{AppError, error_message, is_conflict_error, is_validation_error};
use crate::store::{AgentMessage, Session, Thread};

verus! {

/// Single channel for all terminal traffic. The payload carries `terminalId`,
/// `epoch` and `seq` so a view can reject anything that is not its own.
pub const TERMINAL_EVENT: &'static str = "faiden://terminal";
/// Single channel for all agent traffic, with the same epoch/seq discipline.
pub const AGENT_EVENT: &'static str = "faiden://agent";
/// Stated plainly in the UI: this build has no background service.
pub const LIFECYCLE_NOTE: &'static str = "Terminals are owned by this application. Switching threads keeps them running; quitting Faiden ends every terminal. There is no background service in this build.";

pub open spec fn session_ended_message(session_id: Seq<char>) -> Seq<char> {
    "session "@ + session_id + " has already ended; start a new session"@
}

fn require_open(session: &Session) -> (r: Result<(), AppError>)
    ensures
        r is Ok <==> session.ended_at is None,
        r matches Err(e) ==> is_conflict_error(e, "SESSION_ENDED"@, session_ended_message(session.id@)),
{
    if session.ended_at.is_some() {
        let mut m = String::from_str("session ");
        m.append(session.id.as_str());
        m.append(" has already ended; start a new session");
        return Err(AppError::conflict("SESSION_ENDED", m.as_str()));
    }
    Ok(())
}

/// Where a terminal for `session` must start: the directory bound to the
/// thread it belongs to (`thread`), if any.
///
/// This is the authority boundary for starting a shell. The renderer names a
/// session and nothing else: the directory comes from the thread, so a shell
/// can only ever start somewhere the user already bound. A session that has
/// already ended is refused, which makes an unowned terminal unrepresentable.
pub fn resolve_terminal_cwd(session: &Session, thread: &Thread) -> (r: Result<Option<String>, AppError>)
    ensures
        session.ended_at is Some ==> (r matches Err(e) && is_conflict_error(
            e,
            "SESSION_ENDED"@,
            session_ended_message(session.id@),
        )),
        session.ended_at is None ==> r == Ok::<Option<String>, AppError>(thread.workdir),
{
    require_open(session)?;
    Ok(match &thread.workdir {
        Some(d) => Some(d.clone()),
        None => None,
    })
}

/// Where an agent session will be started, and why there.
#[derive(Debug, Clone, PartialEq, Eq)]
pub struct AgentCwd {
    pub path: String,
    /// Provenance, stated plainly. This is the directory the child is started
    /// in and the one `session/new` is told — never an observed tool cwd.
    pub label: String,
}

pub const NO_DIRECTORY_AVAILABLE: &'static str = "no directory is bound to this thread and no home directory is available; bind a directory before starting an agent";

/// The directory an agent for a thread bound to `workdir` starts in, with its
/// label; `None` when there is none to start in.
pub open spec fn planned_cwd(workdir: Option<Seq<char>>, home: Option<Seq<char>>) -> Option<(Seq<char>, Seq<char>)> {
    match workdir {
        Some(dir) => Some(
            (
                dir,
                dir
                    + " — the directory bound to this thread. The agent is started here; Faiden does not observe where its tools actually run."@,
            ),
        ),
        None => match home {
            Some(h) => Some(
                (
                    h,
                    h
                        + " — your home directory. No directory is bound to this thread, so the agent starts here. Bind a directory to give it a project."@,
                ),
            ),
            None => None,
        },
    }
}

pub open spec fn opt_text(o: Option<String>) -> Option<Seq<char>> {
    match o {
        Some(s) => Some(s@),
        None => None,
    }
}

pub open spec fn opt_str(o: Option<&str>) -> Option<Seq<char>> {
    match o {
        Some(s) => Some(s@),
        None => None,
    }
}

/// Where an agent for `thread` would start, before any session exists, so the
/// UI can show it without creating anything: the thread's directory, or —
/// said explicitly — the home directory. `is_dir` reports whether a path is an
/// existing directory; one that is not is refused.
pub fn resolve_agent_cwd_for_thread<F: Fn(&str) -> bool>(
    thread: &Thread,
    home: Option<&str>,
    is_dir: F,
) -> (r: Result<AgentCwd, AppError>)
    requires
        forall|p: &str| is_dir.requires((p,)),
    ensures
        match planned_cwd(opt_text(thread.workdir), opt_str(home)) {
            None => r matches Err(e) && is_validation_error(e, "cwd"@, NO_DIRECTORY_AVAILABLE@),
            Some((path, label)) => match r {
                Ok(c) => c.path@ == path && c.label@ == label && probed(is_dir, path, true),
                Err(e) => probed(is_dir, path, false) && is_validation_error(
                    e,
                    "cwd"@,
                    path + " is not an existing directory"@,
                ),
            },
        },
{
    let (path, label) = match &thread.workdir {
        Some(dir) => {
            let mut label = dir.clone();
            label.append(
                " — the directory bound to this thread. The agent is started here; Faiden does not observe where its tools actually run.",
            );
            (dir.clone(), label)
        },
        None => match home {
            Some(h) => {
                let mut label = String::from_str(h);
                label.append(
                    " — your home directory. No directory is bound to this thread, so the agent starts here. Bind a directory to give it a project.",
                );
                (String::from_str(h), label)
            },
            None => {
                return Err(AppError::validation("cwd", NO_DIRECTORY_AVAILABLE));
            },
        },
    };
    let p: &str = path.as_str();
    let exists = is_dir(p);
    proof {
        assert(is_dir.ensures((p,), exists));
    }
    if !exists {
        let mut m = path.clone();
        m.append(" is not an existing directory");
        return Err(AppError::validation("cwd", m.as_str()));
    }
    Ok(AgentCwd { path, label })
}

/// Where an agent for `session` must start. The authority boundary: the
/// renderer names a session and nothing else. The directory comes from the
/// thread that session belongs to (`thread`), so an agent can only ever start
/// somewhere the user already bound — or, said explicitly, in the home
/// directory. A session that has already ended is refused.
pub fn resolve_agent_cwd<F: Fn(&str) -> bool>(
    session: &Session,
    thread: &Thread,
    home: Option<&str>,
    is_dir: F,
) -> (r: Result<AgentCwd, AppError>)
    requires
        forall|p: &str| is_dir.requires((p,)),
    ensures
        session.ended_at is Some ==> (r matches Err(e) && is_conflict_error(
            e,
            "SESSION_ENDED"@,
            session_ended_message(session.id@),
        )),
        session.ended_at is None ==> match planned_cwd(opt_text(thread.workdir), opt_str(home)) {
            None => r matches Err(e) && is_validation_error(e, "cwd"@, NO_DIRECTORY_AVAILABLE@),
            Some((path, label)) => match r {
                Ok(c) => c.path@ == path && c.label@ == label && probed(is_dir, path, true),
                Err(e) => probed(is_dir, path, false) && is_validation_error(
                    e,
                    "cwd"@,
                    path + " is not an existing directory"@,
                ),
            },
        },
{
    require_open(session)?;
    resolve_agent_cwd_for_thread(thread, home, is_dir)
}

/// Whether an installed Hermes can be found, and under what authority it would
/// run. Reported honestly: Faiden never installs, configures or authenticates.
#[derive(Debug, Clone)]
pub struct AgentAvailability {
    pub installed: bool,
    pub program: Option<String>,
    pub source: Option<String>,
    pub message: String,
    pub disclosure: String,
}

pub open spec fn found_message(install: HermesInstall) -> Seq<char> {
    "Hermes found at "@ + install.program@ + " ("@ + install.source@
        + "). Faiden starts it as `hermes acp`."@
}

impl AgentAvailability {
    /// The availability a lookup finds, `is_executable` reporting whether a
    /// path is an executable file.
    pub fn probe<F: Fn(&str) -> bool>(lookup: &Lookup, is_executable: F) -> (a: AgentAvailability)
        requires
            forall|p: &str| is_executable.requires((p,)),
        ensures
            a.disclosure@ == AUTHORITY_DISCLOSURE@,
            a.installed ==> exists|k: int|
                {
                    &&& 0 <= k < search_order(*lookup).len()
                    &&& a.program == Some(a.program.unwrap()) && a.program.unwrap()@ == candidate(*lookup, k)
                    &&& a.source.unwrap()@ == search_order(*lookup)[k].1
                    &&& probed(is_executable, candidate(*lookup, k), true)
                    &&& forall|j: int| 0 <= j < k ==> probed(is_executable, #[trigger] candidate(*lookup, j), false)
                    &&& a.message@ == "Hermes found at "@ + candidate(*lookup, k) + " ("@
                        + search_order(*lookup)[k].1 + "). Faiden starts it as `hermes acp`."@
                },
            a.installed ==> a.program is Some && a.source is Some,
            !a.installed ==> {
                &&& a.program is None
                &&& a.source is None
                &&& forall|j: int| 0 <= j < search_order(*lookup).len() ==> probed(is_executable, #[trigger] candidate(*lookup, j), false)
                &&& a.message@ == "no "@ + "hermes executable"@ + " with id "@ + crate::agent::locate::not_found_text(
                    Seq::new(search_order(*lookup).len(), |i: int| search_order(*lookup)[i].0),
                )
            },
    {
        match locate_hermes(lookup, is_executable) {
            Ok(install) => {
                let mut message = String::from_str("Hermes found at ");
                message.append(install.program.as_str());
                message.append(" (");
                message.append(install.source.as_str());
                message.append("). Faiden starts it as `hermes acp`.");
                AgentAvailability {
                    installed: true,
                    program: Some(install.program.clone()),
                    source: Some(install.source.clone()),
                    message,
                    disclosure: String::from_str(AUTHORITY_DISCLOSURE),
                }
            },
            Err(e) => AgentAvailability {
                installed: false,
                program: None,
                source: None,
                message: e.message(),
                disclosure: String::from_str(AUTHORITY_DISCLOSURE),
            },
        }
    }
}

/// One line per agent run, with the thread it belongs to, so the sidebar can
/// show real state rather than guessing from process existence.
#[derive(Debug, Clone, PartialEq, Eq)]
pub struct AgentOverview {
    pub thread_id: String,
    pub session_id: String,
    pub run_id: String,
    pub status: AgentStatus,
    /// A pending permission request is genuine, actionable status: the agent is
    /// blocked until a human answers.
    pub awaiting_permission: bool,
    pub ended_at: Option<i64>,
}

/// The overviews of `runs` whose sessions were found, in order: `threads[i]`
/// is the thread of the `i`th run's session, if that session exists.
pub open spec fn overviews_of(runs: Seq<AgentRunInfo>, threads: Seq<Option<String>>) -> Seq<AgentOverview>
    decreases runs.len(),
{
    if runs.len() == 0 || threads.len() != runs.len() {
        Seq::empty()
    } else {
        let rest = overviews_of(runs.drop_last(), threads.drop_last());
        let run = runs.last();
        match threads.last() {
            Some(t) => rest.push(
                AgentOverview {
                    thread_id: t,
                    session_id: run.session_id,
                    run_id: run.run_id,
                    status: run.status,
                    awaiting_permission: run.status == AgentStatus::AwaitingPermission,
                    ended_at: run.ended_at,
                },
            ),
            None => rest,
        }
    }
}

/// `thread_of` answered `answer` for the session `session`.
pub open spec fn answered<F: Fn(&str) -> Option<String>>(thread_of: F, session: Seq<char>, answer: Option<String>) -> bool {
    exists|p: &str| p@ == session && #[trigger] thread_of.ensures((p,), answer)
}

/// Attributes runs to their threads; `thread_of` names the thread a session
/// belongs to. A run whose session no longer exists is dropped rather than
/// attached to the wrong thread.
pub fn agent_overviews<F: Fn(&str) -> Option<String>>(runs: Vec<AgentRunInfo>, thread_of: F) -> (r:
    Vec<AgentOverview>)
    requires
        forall|p: &str| thread_of.requires((p,)),
    ensures
        exists|threads: Seq<Option<String>>|
            {
                &&& threads.len() == runs@.len()
                &&& forall|i: int|
                    0 <= i < runs@.len() ==> answered(thread_of, runs@[i].session_id@, #[trigger] threads[i])
                &&& r@ == overviews_of(runs@, threads)
            },
{
    let ghost all = runs@;
    let mut out: Vec<AgentOverview> = Vec::new();
    let ghost mut threads: Seq<Option<String>> = Seq::empty();
    let mut rest = runs;
    let n = rest.len();
    let mut i: usize = 0;
    assert(all.skip(0) =~= all);
    while i < n
        invariant
            n == all.len(),
            i <= n,
            rest@ == all.skip(i as int),
            threads.len() == i,
            forall|k: int|
                0 <= k < i ==> answered(thread_of, all[k].session_id@, #[trigger] threads[k]),
            out@ == overviews_of(all.take(i as int), threads),
            forall|p: &str| thread_of.requires((p,)),
        decreases n - i,
    {
        let run = rest.remove(0);
        assert(run == all[i as int]);
        assert(rest@ =~= all.skip(i + 1));
        let p: &str = run.session_id.as_str();
        let found = thread_of(p);
        let ghost prev = threads;
        proof {
            threads = threads.push(found);
            assert(all.take(i + 1).drop_last() =~= all.take(i as int));
            assert(threads.drop_last() =~= prev);
            assert(thread_of.ensures((p,), threads[i as int]));
            assert(p@ == all[i as int].session_id@);
        }
        match found {
            Some(thread_id) => {
                let awaiting = run.status == AgentStatus::AwaitingPermission;
                out.push(
                    AgentOverview {
                        thread_id,
                        session_id: run.session_id,
                        run_id: run.run_id,
                        status: run.status,
                        awaiting_permission: awaiting,
                        ended_at: run.ended_at,
                    },
                );
            },
            None => {},
        }
        i = i + 1;
        proof {
            assert forall|k: int|
                0 <= k < i implies answered(thread_of, all[k].session_id@, #[trigger] threads[k]) by {
                if k < i - 1 {
                    assert(threads[k] == prev[k]);
                }
            }
        }
    }
    assert(all.take(n as int) =~= all);
    assert(threads.len() == runs@.len() && out@ == overviews_of(runs@, threads));
    out
}

#[derive(Debug, Clone)]
pub struct AppInfo {
    pub version: String,
    pub platform: String,
    pub data_dir: String,
    /// Stated plainly in the UI: this build has no background service.
    pub lifecycle_note: String,
    pub retained_output_chars: usize,
}

/// What the app reports about itself.
pub fn app_info(version: String, platform: String, data_dir: String) -> (i: AppInfo)
    ensures
        i.version == version,
        i.platform == platform,
        i.data_dir == data_dir,
        i.lifecycle_note@ == LIFECYCLE_NOTE@,
        i.retained_output_chars == crate::terminal::RETAINED_OUTPUT_CHARS,
{
    AppInfo {
        version,
        platform,
        data_dir,
        lifecycle_note: String::from_str(LIFECYCLE_NOTE),
        retained_output_chars: crate::terminal::RETAINED_OUTPUT_CHARS,
    }
}

#[derive(Debug, Clone)]
pub struct AgentTranscript {
    pub messages: Vec<AgentMessage>,
    /// True when older entries exist that this reply does not include.
    pub truncated: bool,
}

/// "Needs you" only for a genuinely pending approval: every overview of the
/// sidebar is flagged as awaiting permission exactly when its run's status is
/// `awaitingPermission`, whatever the other runs and threads are.
pub proof fn law_overview_needs_you_only_for_a_pending_approval(runs: Seq<AgentRunInfo>, threads: Seq<Option<String>>)
    ensures
        forall|i: int|
            0 <= i < overviews_of(runs, threads).len() ==> ((#[trigger] overviews_of(runs, threads)[i]).awaiting_permission
                <==> overviews_of(runs, threads)[i].status == AgentStatus::AwaitingPermission),
    decreases runs.len(),
{
    if runs.len() > 0 && threads.len() == runs.len() {
        law_overview_needs_you_only_for_a_pending_approval(runs.drop_last(), threads.drop_last());
        let rest = overviews_of(runs.drop_last(), threads.drop_last());
        let all = overviews_of(runs, threads);
        assert forall|i: int| 0 <= i < all.len() implies ((#[trigger] all[i]).awaiting_permission <==> all[i].status
            == AgentStatus::AwaitingPermission) by {
            if i < rest.len() {
                assert(all[i] == rest[i]);
            }
        }
    }
}

} // verus!
