//! Directory and Git facts for a thread's selected environment.
//!
//! Everything here describes a *user-selected* directory read at a stated
//! moment. It is never a claim about where any subprocess, agent or SSH session
//! is actually working: a shell can `cd` and that is not observed.
//!
//! Running Git and reading the filesystem are the host's part; this module
//! decides what the answers mean.

use vstd::prelude::*;
use crate::agent::lines::lossy_line;
use crate::error::{AppError, is_validation_error};
use crate::json::str_eq;
use crate::terminal::Utf8Decoder;
use crate::text::{char_is_whitespace, is_white_space, str_trim, trimmed};

verus! {

pub const PROVENANCE_USER_SELECTED: &'static str = "user-selected";
pub const PROVENANCE_NOTE: &'static str = "Directory chosen by you in Faiden and read just now. This is not an observed process working directory: a running shell may have changed its cwd.";

/// The Git executable consulted.
pub const GIT_BIN: &'static str = "git";
/// How long a single Git subcommand may run before it is killed, in seconds.
/// A repository whose status path blocks — a filesystem monitor, a credential
/// helper, a network mount — must not be able to hold the environment view
/// hostage.
pub const GIT_TIMEOUT_SECS: u64 = 5;

#[derive(Debug, Clone, PartialEq, Eq)]
pub struct GitContext {
    pub repo_root: String,
    pub branch: Option<String>,
    pub head_short: Option<String>,
    pub detached: bool,
    pub unborn: bool,
    pub bare: bool,
    pub is_linked_worktree: bool,
    pub dirty: bool,
    pub changed_files: usize,
}

#[derive(Debug, Clone, PartialEq, Eq)]
pub struct DirectoryContext {
    /// The path exactly as it was selected.
    pub path: String,
    pub exists: bool,
    pub is_directory: bool,
    pub provenance: String,
    pub note: String,
    pub observed_at: i64,
    pub git: Option<GitContext>,
    /// Why Git could not be consulted at all. This is deliberately distinct
    /// from `git: None`, which is the positive fact "not a repository".
    pub git_unavailable: Option<String>,
}

/// What a single Git probe produced.
#[derive(Debug, Clone, PartialEq, Eq)]
pub enum Probe {
    /// Git ran and exited zero, with this output.
    Answered(String),
    /// Git ran and exited non-zero. That is itself a fact — "not a repository",
    /// "no HEAD yet" — and not a failure to consult Git.
    Refused,
    /// Git could not be consulted at all: missing, unrunnable, or killed for
    /// outliving its time limit.
    Unavailable(String),
}

/// A probe whose non-zero exit is a meaningful answer rather than an error.
pub fn optional(probe: Probe) -> (r: Result<Option<String>, String>)
    ensures
        match probe {
            Probe::Answered(s) => r == Ok::<Option<String>, String>(Some(s)),
            Probe::Refused => r == Ok::<Option<String>, String>(None),
            Probe::Unavailable(why) => r == Err::<Option<String>, String>(why),
        },
{
    match probe {
        Probe::Answered(s) => Ok(Some(s)),
        Probe::Refused => Ok(None),
        Probe::Unavailable(why) => Err(why),
    }
}

/// What Git is asked about a directory, in the order it is asked.
#[derive(Debug, Clone, Copy, PartialEq, Eq, Structural)]
pub enum GitQuestion {
    /// `rev-parse --absolute-git-dir`: refusing it means "not a repository".
    GitDir,
    /// `rev-parse --is-bare-repository`.
    IsBare,
    /// `rev-parse --path-format=absolute --git-common-dir`.
    CommonDir,
    /// `rev-parse --show-toplevel`.
    TopLevel,
    /// `symbolic-ref --quiet --short HEAD`: answers on an unborn branch too.
    Branch,
    /// `rev-parse --short HEAD`.
    Head,
    /// `status --porcelain --untracked-files=normal`.
    Status,
}

/// The question asked at `position` of a repository that is `bare`, or `None`
/// when nothing is asked there: a bare repository has no work tree, so its top
/// level and its status are never asked, and nothing follows the status.
pub open spec fn git_question_spec(position: nat, bare: bool) -> Option<GitQuestion> {
    if position == 0 {
        Some(GitQuestion::GitDir)
    } else if position == 1 {
        Some(GitQuestion::IsBare)
    } else if position == 2 {
        Some(GitQuestion::CommonDir)
    } else if position == 3 {
        if bare { None } else { Some(GitQuestion::TopLevel) }
    } else if position == 4 {
        Some(GitQuestion::Branch)
    } else if position == 5 {
        Some(GitQuestion::Head)
    } else if position == 6 {
        if bare { None } else { Some(GitQuestion::Status) }
    } else {
        None
    }
}

/// How many positions a reading of Git runs through.
pub const GIT_QUESTIONS: usize = 7;

/// The question asked at `position` of a repository that is `bare`.
pub fn git_question_at(position: usize, bare: bool) -> (q: Option<GitQuestion>)
    ensures
        q == git_question_spec(position as nat, bare),
{
    if position == 0 {
        Some(GitQuestion::GitDir)
    } else if position == 1 {
        Some(GitQuestion::IsBare)
    } else if position == 2 {
        Some(GitQuestion::CommonDir)
    } else if position == 3 {
        if bare { None } else { Some(GitQuestion::TopLevel) }
    } else if position == 4 {
        Some(GitQuestion::Branch)
    } else if position == 5 {
        Some(GitQuestion::Head)
    } else if position == 6 {
        if bare { None } else { Some(GitQuestion::Status) }
    } else {
        None
    }
}

/// Whether `--is-bare-repository` answered that the repository is bare. A bare
/// repository has no work tree, so its top level and its status are not asked.
pub fn answers_bare(answer: &Option<String>) -> (b: bool)
    ensures
        b == (answer matches Some(a) && a@ == "true"@),
{
    match answer {
        Some(a) => {
            proof {
                reveal_strlit("true");
            }
            str_eq(a.as_str(), "true")
        },
        None => false,
    }
}

/// The text of a probe's output: decoded lossily, without surrounding
/// whitespace or trailing newlines.
pub fn probe_text(bytes: &[u8]) -> (s: String)
    ensures
        s@ == trimmed(lossy_line(bytes@)),
{
    let mut decoder = Utf8Decoder::new();
    let mut text = decoder.push(bytes);
    let ghost decoded = text@;
    if decoder.has_pending() {
        text.append("\u{FFFD}");
        proof {
            reveal_strlit("\u{FFFD}");
            assert(text@ =~= decoded.push('\u{FFFD}'));
        }
    }
    proof {
        assert(Seq::<u8>::empty() + bytes@ =~= bytes@);
        reveal_strlit("\u{FFFD}");
        assert(text@ =~= lossy_line(bytes@));
    }
    String::from_str(str_trim(text.as_str()))
}

// --- changed files --------------------------------------------------------------

/// Scans text line by line: how many finished lines held a non-whitespace
/// character, and whether the line still open holds one.
pub open spec fn line_scan(s: Seq<char>) -> (nat, bool)
    decreases s.len(),
{
    if s.len() == 0 {
        (0, false)
    } else {
        let (n, open) = line_scan(s.drop_last());
        if s.last() == '\n' {
            (n + if open {
                1nat
            } else {
                0nat
            }, false)
        } else {
            (n, open || !is_white_space(s.last()))
        }
    }
}

/// The lines of `s` that are not blank.
pub open spec fn nonblank_lines(s: Seq<char>) -> nat {
    let (n, open) = line_scan(s);
    n + if open {
        1nat
    } else {
        0nat
    }
}

/// How many lines of `porcelain` are not blank: one per changed file.
pub fn count_changed(porcelain: &str) -> (n: usize)
    ensures
        n == nonblank_lines(porcelain@),
{
    let len = porcelain.unicode_len();
    let mut count: usize = 0;
    let mut open = false;
    let mut i: usize = 0;
    while i < len
        invariant
            len == porcelain@.len(),
            i <= len,
            (count as nat, open) == line_scan(porcelain@.take(i as int)),
            count <= i,
            open ==> count < i,
        decreases len - i,
    {
        let c = porcelain.get_char(i);
        proof {
            assert(porcelain@.take(i + 1).drop_last() =~= porcelain@.take(i as int));
        }
        if c == '\n' {
            if open {
                count = count + 1;
            }
            open = false;
        } else if !char_is_whitespace(c) {
            open = true;
        }
        i = i + 1;
    }
    assert(porcelain@.take(len as int) =~= porcelain@);
    if open {
        count + 1
    } else {
        count
    }
}

// --- what the probes mean -------------------------------------------------------

pub open spec fn opt_text(o: Option<String>) -> Option<Seq<char>> {
    match o {
        Some(s) => Some(s@),
        None => None,
    }
}

/// `o` unless it is empty.
pub open spec fn nonempty_text(o: Option<String>) -> Option<Seq<char>> {
    match o {
        Some(s) => if s@.len() > 0 {
            Some(s@)
        } else {
            None
        },
        None => None,
    }
}

/// The answers of a repository's probes, each already read with [`optional`]:
/// `git_dir` from `rev-parse --absolute-git-dir`, `bare_answer` from
/// `rev-parse --is-bare-repository`, `same_git_dir` whether the common Git
/// directory is the repository's own (after resolving links), `toplevel` from
/// `rev-parse --show-toplevel`, `branch` from `symbolic-ref --short HEAD`,
/// `head` from `rev-parse --short HEAD`, and `porcelain` from `status
/// --porcelain` (unused for a bare repository).
pub open spec fn git_context_matches(
    g: GitContext,
    git_dir: Seq<char>,
    bare_answer: Option<String>,
    same_git_dir: bool,
    toplevel: Option<String>,
    branch: Option<String>,
    head: Option<String>,
    porcelain: Option<String>,
) -> bool {
    let bare = opt_text(bare_answer) == Some("true"@);
    let b = nonempty_text(branch);
    let h = nonempty_text(head);
    let changed: nat = if bare {
        0
    } else {
        match porcelain {
            Some(p) => nonblank_lines(p@),
            None => 0,
        }
    };
    &&& g.bare == bare
    &&& g.is_linked_worktree == (!bare && !same_git_dir)
    &&& g.repo_root@ == if bare {
        git_dir
    } else {
        match toplevel {
            Some(t) => t@,
            None => git_dir,
        }
    }
    &&& opt_text(g.branch) == b
    &&& opt_text(g.head_short) == h
    &&& g.unborn == (h is None && b is Some)
    &&& g.detached == (b is None && h is Some)
    &&& g.changed_files == changed
    &&& g.dirty == (changed > 0)
}

fn keep_nonempty(o: Option<String>) -> (r: Option<String>)
    ensures
        opt_text(r) == nonempty_text(o),
{
    match o {
        Some(s) => if s.unicode_len() > 0 {
            Some(s)
        } else {
            None
        },
        None => None,
    }
}

/// What a repository's probe answers say about it. `symbolic-ref` still
/// answers on an unborn branch, so a refusal there means a detached HEAD; a
/// HEAD that does not resolve on a named branch means the branch is unborn.
pub fn git_context(
    git_dir: String,
    bare_answer: Option<String>,
    same_git_dir: bool,
    toplevel: Option<String>,
    branch: Option<String>,
    head: Option<String>,
    porcelain: Option<String>,
) -> (g: GitContext)
    ensures
        git_context_matches(
            g,
            git_dir@,
            bare_answer,
            same_git_dir,
            toplevel,
            branch,
            head,
            porcelain,
        ),
{
    let bare = match &bare_answer {
        Some(a) => {
            proof {
                reveal_strlit("true");
            }
            str_eq(a.as_str(), "true")
        },
        None => false,
    };
    let repo_root = if bare {
        git_dir
    } else {
        match toplevel {
            Some(t) => t,
            None => git_dir,
        }
    };
    let branch = keep_nonempty(branch);
    let head_short = keep_nonempty(head);
    let unborn = head_short.is_none() && branch.is_some();
    let detached = branch.is_none() && head_short.is_some();
    let changed_files: usize = if bare {
        0
    } else {
        match &porcelain {
            Some(p) => count_changed(p.as_str()),
            None => 0,
        }
    };
    GitContext {
        repo_root,
        branch,
        head_short,
        detached,
        unborn,
        bare,
        is_linked_worktree: !bare && !same_git_dir,
        dirty: changed_files > 0,
        changed_files,
    }
}

/// The selected path as it is inspected: trimmed, and required to be absolute.
pub fn selected_path(path: &str) -> (r: Result<String, AppError>)
    ensures
        ({
            let t = trimmed(path@);
            match r {
                Ok(s) => t.len() > 0 && t[0] == '/' && s@ == t,
                Err(e) => if t.len() == 0 {
                    is_validation_error(e, "path"@, "must not be blank"@)
                } else {
                    t[0] != '/' && is_validation_error(e, "path"@, "must be an absolute path"@)
                },
            }
        }),
{
    let t = str_trim(path);
    let n = t.unicode_len();
    if n == 0 {
        return Err(AppError::validation("path", "must not be blank"));
    }
    if t.get_char(0) != '/' {
        return Err(AppError::validation("path", "must be an absolute path"));
    }
    Ok(String::from_str(t))
}

/// The context reported for a selected directory read at `observed_at`.
pub fn directory_context(
    path: String,
    exists: bool,
    is_directory: bool,
    observed_at: i64,
    git: Result<Option<GitContext>, String>,
) -> (c: DirectoryContext)
    ensures
        c.path == path,
        c.exists == exists,
        c.is_directory == is_directory,
        c.provenance@ == PROVENANCE_USER_SELECTED@,
        c.note@ == PROVENANCE_NOTE@,
        c.observed_at == observed_at,
        match git {
            Ok(g) => c.git == g && c.git_unavailable is None,
            Err(why) => c.git is None && c.git_unavailable == Some(why),
        },
{
    let (git, git_unavailable) = match git {
        Ok(g) => (g, None),
        Err(why) => (None, Some(why)),
    };
    DirectoryContext {
        path,
        exists,
        is_directory,
        provenance: String::from_str(PROVENANCE_USER_SELECTED),
        note: String::from_str(PROVENANCE_NOTE),
        observed_at,
        git,
        git_unavailable,
    }
}

/// The root of a repository that is not bare is its work tree's top level,
/// whenever `rev-parse --show-toplevel` answered, linked worktree or not; only
/// a bare repository is rooted at its Git directory.
pub proof fn law_work_tree_root_is_its_top_level(
    g: GitContext,
    git_dir: Seq<char>,
    bare_answer: Option<String>,
    same_git_dir: bool,
    top: String,
    branch: Option<String>,
    head: Option<String>,
    porcelain: Option<String>,
)
    requires
        git_context_matches(g, git_dir, bare_answer, same_git_dir, Some(top), branch, head, porcelain),
        opt_text(bare_answer) != Some("true"@),
    ensures
        g.repo_root@ == top@,
        !g.bare,
        g.is_linked_worktree == !same_git_dir,
{
}

/// A bare repository is rooted at its Git directory and is never a linked
/// worktree.
pub proof fn law_bare_root_is_its_git_dir(
    g: GitContext,
    git_dir: Seq<char>,
    bare_answer: Option<String>,
    same_git_dir: bool,
    toplevel: Option<String>,
    branch: Option<String>,
    head: Option<String>,
    porcelain: Option<String>,
)
    requires
        git_context_matches(g, git_dir, bare_answer, same_git_dir, toplevel, branch, head, porcelain),
        opt_text(bare_answer) == Some("true"@),
    ensures
        g.repo_root@ == git_dir,
        g.bare,
        !g.is_linked_worktree,
{
}

} // verus!
