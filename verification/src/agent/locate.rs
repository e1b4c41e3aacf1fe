//! Finding the Hermes the user installed, and deciding what environment its
//! child process gets.
//!
//! Faiden never installs Hermes, never authenticates on the user's behalf and
//! never writes to `~/.hermes`. If nothing is found, the error names every
//! directory that was searched and stops there.
//!
//! Paths are handled as the text they are written as. Whether a candidate is
//! an executable file is asked of the caller, which looks at the disk.

use vstd::prelude::*;
use crate::error::AppError;
use crate::json::str_eq;
use crate::text::{join_texts, join_with, views};

verus! {

/// The executable name the launcher installs.
pub const PROGRAM_NAME: &'static str = "hermes";

/// Approval-bypass variables that must not be inherited by the agent.
///
/// Each one is a real switch in the installed Hermes:
///
/// * `HERMES_YOLO_MODE` — bypasses dangerous-command approval wholesale.
/// * `HERMES_ACP_AUTO_APPROVE` — an ACP-specific profile key.
/// * `HERMES_NONINTERACTIVE` — routes setup away from asking a human.
/// * `HERMES_EXEC_ASK` — selects the gateway approval queue rather than the
///   interactive callback ACP installs.
/// * `HERMES_CRON_SESSION` — marks the run as unattended cron.
///
/// Nothing here is invented: Faiden removes inherited values, and never *sets*
/// a flag of its own. A bypass the user configured inside their own
/// `~/.hermes/.env` or `config.yaml` is loaded by the adapter itself and is
/// outside Faiden's control; the UI says so rather than implying a sandbox.
pub const BYPASS_ENV_VARS: [&'static str; 5] = [
    "HERMES_YOLO_MODE",
    "HERMES_ACP_AUTO_APPROVE",
    "HERMES_NONINTERACTIVE",
    "HERMES_EXEC_ASK",
    "HERMES_CRON_SESSION",
];

/// Where to look. Injected rather than read from the process so the search is
/// testable without touching the developer's own machine state.
#[derive(Debug, Clone, Default)]
pub struct Lookup {
    pub path_var: Option<String>,
    pub home: Option<String>,
}

#[derive(Debug, Clone, PartialEq, Eq)]
pub struct HermesInstall {
    pub program: String,
    /// Where it was found, for display. Provenance, not a capability claim.
    pub source: String,
}

// --- path text ----------------------------------------------------------------

/// `base` joined with the relative path `rel`, as `Path::join` does on Unix: a
/// separator is inserted unless `base` is empty or already ends in one.
pub open spec fn join_path(base: Seq<char>, rel: Seq<char>) -> Seq<char> {
    if base.len() == 0 || base.last() == '/' {
        base + rel
    } else {
        base + "/"@ + rel
    }
}

fn push_path(base: &str, rel: &str) -> (p: String)
    ensures
        p@ == join_path(base@, rel@),
{
    let n = base.unicode_len();
    let mut p = String::from_str(base);
    if n > 0 && base.get_char(n - 1) != '/' {
        p.append("/");
    }
    p.append(rel);
    proof {
        reveal_strlit("/");
    }
    p
}

/// Whether two paths name the same place as `Path`'s equality decides it, by
/// their components: `/a/b/` and `/a//b` are the same as `/a/b`.
pub uninterp spec fn same_path(a: Seq<char>, b: Seq<char>) -> bool;

/// `Path::new(a) == Path::new(b)`.
#[verifier::external_body]
fn paths_equal(a: &str, b: &str) -> (r: bool)
    ensures
        r == same_path(a@, b@),
{
    std::path::Path::new(a) == std::path::Path::new(b)
}

/// The `:`-separated fields of `s`, empty ones included.
pub open spec fn fields(s: Seq<char>) -> Seq<Seq<char>>
    decreases s.len(),
{
    if s.len() == 0 {
        seq![Seq::empty()]
    } else {
        let f = fields(s.drop_last());
        if s.last() == ':' {
            f.push(Seq::empty())
        } else {
            f.update(f.len() - 1, f.last().push(s.last()))
        }
    }
}

/// The non-empty items of `s`, in order.
pub open spec fn nonempty(s: Seq<Seq<char>>) -> Seq<Seq<char>>
    decreases s.len(),
{
    if s.len() == 0 {
        s
    } else if s.last().len() > 0 {
        nonempty(s.drop_last()).push(s.last())
    } else {
        nonempty(s.drop_last())
    }
}

/// The directories a `PATH` value lists: its non-empty fields.
pub open spec fn path_entries_of(path_var: Option<Seq<char>>) -> Seq<Seq<char>> {
    match path_var {
        Some(p) => nonempty(fields(p)),
        None => Seq::empty(),
    }
}

proof fn lemma_fields_nonempty(s: Seq<char>)
    ensures
        fields(s).len() >= 1,
    decreases s.len(),
{
    if s.len() > 0 {
        lemma_fields_nonempty(s.drop_last());
    }
}

pub open spec fn opt_view(o: Option<&str>) -> Option<Seq<char>> {
    match o {
        Some(s) => Some(s@),
        None => None,
    }
}

/// The directories listed in `path_var`, in order, empty entries skipped.
pub fn path_entries(path_var: Option<&str>) -> (dirs: Vec<String>)
    ensures
        views(dirs@) == path_entries_of(opt_view(path_var)),
{
    let text: &str = match path_var {
        Some(p) => p,
        None => {
            let dirs: Vec<String> = Vec::new();
            assert(views(dirs@) =~= Seq::<Seq<char>>::empty());
            return dirs;
        },
    };
    let n = text.unicode_len();
    let mut dirs: Vec<String> = Vec::new();
    let mut cur = String::new();
    let mut i: usize = 0;
    proof {
        assert(text@.take(0) =~= Seq::<char>::empty());
    }
    while i < n
        invariant
            n == text@.len(),
            i <= n,
            views(dirs@) == nonempty(fields(text@.take(i as int)).drop_last()),
            fields(text@.take(i as int)).len() >= 1,
            cur@ == fields(text@.take(i as int)).last(),
        decreases n - i,
    {
        let c = text.get_char(i);
        let ghost p = text@.take(i as int);
        let ghost q = text@.take(i + 1);
        proof {
            assert(q.drop_last() =~= p);
            assert(q.last() == c);
        }
        if c == ':' {
            let ghost before = dirs@;
            if cur.unicode_len() > 0 {
                let mut done = String::new();
                std::mem::swap(&mut done, &mut cur);
                dirs.push(done);
                assert(views(dirs@) =~= views(before).push(fields(p).last()));
            } else {
                cur = String::new();
            }
            proof {
                assert(fields(q) == fields(p).push(Seq::empty()));
                assert(fields(q).drop_last() =~= fields(p));
                assert(fields(p) =~= fields(p).drop_last().push(fields(p).last()));
            }
        } else {
            let piece = text.substring_char(i, i + 1);
            cur.append(piece);
            proof {
                assert(piece@ =~= seq![c]);
                let f = fields(p);
                assert(fields(q) == f.update(f.len() - 1, f.last().push(c)));
                assert(fields(q).drop_last() =~= f.drop_last());
            }
        }
        i = i + 1;
    }
    proof {
        assert(text@.take(n as int) =~= text@);
        let f = fields(text@);
        assert(f =~= f.drop_last().push(f.last()));
    }
    if cur.unicode_len() > 0 {
        let ghost before = dirs@;
        dirs.push(cur);
        assert(views(dirs@) =~= views(before).push(fields(text@).last()));
    }
    dirs
}

/// The fallback directories, in order: under `home` first, then the two
/// system-wide locations.
pub open spec fn fallbacks_of(home: Option<Seq<char>>) -> Seq<Seq<char>> {
    let system = seq!["/opt/homebrew/bin"@, "/usr/local/bin"@];
    match home {
        Some(h) => seq![join_path(h, ".local/bin"@), join_path(h, ".hermes/bin"@)] + system,
        None => system,
    }
}

/// Directories a login shell would have on `PATH` but a Finder-launched app
/// does not inherit. `~/.local/bin` is where the Hermes launcher installs.
pub fn fallback_directories(home: Option<&str>) -> (dirs: Vec<String>)
    ensures
        views(dirs@) == fallbacks_of(opt_view(home)),
{
    let mut dirs: Vec<String> = Vec::new();
    match home {
        Some(h) => {
            dirs.push(push_path(h, ".local/bin"));
            dirs.push(push_path(h, ".hermes/bin"));
        },
        None => {},
    }
    dirs.push(String::from_str("/opt/homebrew/bin"));
    dirs.push(String::from_str("/usr/local/bin"));
    assert(views(dirs@) =~= fallbacks_of(opt_view(home)));
    dirs
}

// --- the search ---------------------------------------------------------------

/// Every directory searched, in order, with how a find there is described:
/// the `PATH` entries first, then the fallbacks.
pub open spec fn search_order(lookup: Lookup) -> Seq<(Seq<char>, Seq<char>)> {
    let on_path = path_entries_of(
        match lookup.path_var {
            Some(p) => Some(p@),
            None => None,
        },
    );
    let fallback = fallbacks_of(
        match lookup.home {
            Some(h) => Some(h@),
            None => None,
        },
    );
    Seq::new(on_path.len(), |i: int| (on_path[i], "PATH entry "@ + on_path[i])) + Seq::new(
        fallback.len(),
        |i: int| (fallback[i], fallback[i] + " (not on this app's PATH)"@),
    )
}

/// Where the program would be in the `i`th directory searched.
pub open spec fn candidate(lookup: Lookup, i: int) -> Seq<char> {
    join_path(search_order(lookup)[i].0, PROGRAM_NAME@)
}

/// The probe reported `answer` for the path `path`.
pub open spec fn probed<F: Fn(&str) -> bool>(probe: F, path: Seq<char>, answer: bool) -> bool {
    exists|p: &str| p@ == path && #[trigger] probe.ensures((p,), answer)
}

/// What a failed search says: every directory searched, and that Faiden does
/// not install anything.
pub open spec fn not_found_text(searched: Seq<Seq<char>>) -> Seq<char> {
    "no executable named `hermes` in any of: "@ + join_with(searched, ", "@)
        + ". Install Hermes and make it runnable from your shell first — Faiden does not install or configure it for you"@
}

/// Finds the installed Hermes: the first directory in the search order holding
/// an executable `hermes`, as `is_executable` reports of the path. Nothing is
/// installed or configured when none does.
pub fn locate_hermes<F: Fn(&str) -> bool>(lookup: &Lookup, is_executable: F) -> (r: Result<
    HermesInstall,
    AppError,
>)
    requires
        forall|p: &str| is_executable.requires((p,)),
    ensures
        ({
            let order = search_order(*lookup);
            match r {
                Ok(found) => exists|k: int|
                    {
                        &&& 0 <= k < order.len()
                        &&& found.program@ == candidate(*lookup, k)
                        &&& found.source@ == order[k].1
                        &&& probed(is_executable, candidate(*lookup, k), true)
                        &&& forall|j: int| 0 <= j < k ==> probed(is_executable, #[trigger] candidate(*lookup, j), false)
                    },
                Err(e) => {
                    &&& forall|j: int| 0 <= j < order.len() ==> probed(is_executable, #[trigger] candidate(*lookup, j), false)
                    &&& e matches AppError::NotFound { entity, id } && entity@ == "hermes executable"@
                        && id@ == not_found_text(Seq::new(order.len(), |i: int| order[i].0))
                },
            }
        }),
{
    let on_path = path_entries(
        match &lookup.path_var {
            Some(p) => Some(p.as_str()),
            None => None,
        },
    );
    let fallback = fallback_directories(
        match &lookup.home {
            Some(h) => Some(h.as_str()),
            None => None,
        },
    );
    let ghost order = search_order(*lookup);
    let mut searched: Vec<String> = Vec::new();
    let mut i: usize = 0;
    while i < on_path.len()
        invariant
            order == search_order(*lookup),
            views(on_path@) == path_entries_of(
                match lookup.path_var {
                    Some(p) => Some(p@),
                    None => None,
                },
            ),
            i <= on_path@.len(),
            views(searched@) == Seq::new(i as nat, |m: int| order[m].0),
            forall|j: int| 0 <= j < i ==> probed(is_executable, #[trigger] candidate(*lookup, j), false),
            forall|p: &str| is_executable.requires((p,)),
        decreases on_path@.len() - i,
    {
        let dir = &on_path[i];
        assert(views(on_path@)[i as int] == dir@);
        let program = push_path(dir.as_str(), PROGRAM_NAME);
        let ghost before = searched@;
        searched.push(dir.clone());
        assert(views(searched@) =~= Seq::new((i + 1) as nat, |m: int| order[m].0)) by {
            assert(views(searched@) =~= views(before).push(dir@));
        }
        let path: &str = program.as_str();
        let found = is_executable(path);
        if found {
            let mut source = String::from_str("PATH entry ");
            source.append(dir.as_str());
            proof {
                let k = i as int;
                assert(order[k].0 == dir@);
                assert(order[k].1 == "PATH entry "@ + dir@);
                assert(is_executable.ensures((path,), true));
                assert(probed(is_executable, candidate(*lookup, k), true));
            }
            return Ok(HermesInstall { program, source });
        }
        i = i + 1;
    }
    let base = on_path.len();
    let mut i: usize = 0;
    while i < fallback.len()
        invariant
            order == search_order(*lookup),
            views(on_path@) == path_entries_of(
                match lookup.path_var {
                    Some(p) => Some(p@),
                    None => None,
                },
            ),
            views(fallback@) == fallbacks_of(
                match lookup.home {
                    Some(h) => Some(h@),
                    None => None,
                },
            ),
            base == on_path@.len(),
            i <= fallback@.len(),
            views(searched@) == Seq::new((base + i) as nat, |m: int| order[m].0),
            forall|j: int| 0 <= j < base + i ==> probed(is_executable, #[trigger] candidate(*lookup, j), false),
            forall|p: &str| is_executable.requires((p,)),
        decreases fallback@.len() - i,
    {
        let dir = &fallback[i];
        assert(views(fallback@)[i as int] == dir@);
        let program = push_path(dir.as_str(), PROGRAM_NAME);
        let ghost before = searched@;
        searched.push(dir.clone());
        assert(views(searched@) =~= Seq::new((base + i + 1) as nat, |m: int| order[m].0)) by {
            assert(views(searched@) =~= views(before).push(dir@));
        }
        let path: &str = program.as_str();
        let found = is_executable(path);
        if found {
            let mut source = String::from_str(dir.as_str());
            source.append(" (not on this app's PATH)");
            proof {
                let k = base + i;
                assert(order[k].0 == dir@);
                assert(order[k].1 == dir@ + " (not on this app's PATH)"@);
                assert(is_executable.ensures((path,), true));
                assert(probed(is_executable, candidate(*lookup, k), true));
            }
            return Ok(HermesInstall { program, source });
        }
        i = i + 1;
    }
    let mut message = String::from_str("no executable named `hermes` in any of: ");
    let listed = join_texts(&searched, ", ");
    message.append(listed.as_str());
    message.append(
        ". Install Hermes and make it runnable from your shell first — Faiden does not install or configure it for you",
    );
    assert(Seq::new(order.len(), |m: int| order[m].0) =~= views(searched@));
    Err(AppError::not_found("hermes executable", message.as_str()))
}

// --- the child's environment --------------------------------------------------

/// True for the name of an approval-bypass variable.
pub open spec fn is_bypass(name: Seq<char>) -> bool {
    name == "HERMES_YOLO_MODE"@ || name == "HERMES_ACP_AUTO_APPROVE"@ || name
        == "HERMES_NONINTERACTIVE"@ || name == "HERMES_EXEC_ASK"@ || name == "HERMES_CRON_SESSION"@
}

/// The variables of `env` that are not approval bypasses, in order.
pub open spec fn without_bypasses(env: Seq<(String, String)>) -> Seq<(String, String)>
    decreases env.len(),
{
    if env.len() == 0 {
        env
    } else if is_bypass(env.last().0@) {
        without_bypasses(env.drop_last())
    } else {
        without_bypasses(env.drop_last()).push(env.last())
    }
}

fn is_bypass_name(name: &str) -> (b: bool)
    ensures
        b == is_bypass(name@),
{
    str_eq(name, "HERMES_YOLO_MODE") || str_eq(name, "HERMES_ACP_AUTO_APPROVE") || str_eq(
        name,
        "HERMES_NONINTERACTIVE",
    ) || str_eq(name, "HERMES_EXEC_ASK") || str_eq(name, "HERMES_CRON_SESSION")
}

/// The environment the child gets: everything inherited, minus the approval
/// bypasses. Credentials and ordinary configuration are left alone, because
/// authentication deliberately stays with the installed harness.
pub fn scrubbed_env(inherited: Vec<(String, String)>) -> (env: Vec<(String, String)>)
    ensures
        env@ == without_bypasses(inherited@),
{
    let mut env: Vec<(String, String)> = Vec::new();
    let mut rest = inherited;
    let ghost all = rest@;
    let n = rest.len();
    let mut i: usize = 0;
    assert(all.skip(0) =~= all);
    while i < n
        invariant
            n == all.len(),
            i <= n,
            rest@ == all.skip(i as int),
            env@ == without_bypasses(all.take(i as int)),
        decreases n - i,
    {
        let item = rest.remove(0);
        assert(item == all[i as int]);
        assert(rest@ =~= all.skip(i + 1));
        proof {
            assert(all.take(i + 1).drop_last() =~= all.take(i as int));
        }
        if !is_bypass_name(item.0.as_str()) {
            env.push(item);
        }
        i = i + 1;
    }
    assert(all.take(n as int) =~= all);
    env
}

/// True when `dirs` already holds a path naming `dir`.
pub open spec fn lists_path(dirs: Seq<Seq<char>>, dir: Seq<char>) -> bool {
    exists|k: int| 0 <= k < dirs.len() && same_path(#[trigger] dirs[k], dir)
}

/// `entries` followed by each of `extra` that names a place not yet listed.
pub open spec fn add_missing(entries: Seq<Seq<char>>, extra: Seq<Seq<char>>) -> Seq<Seq<char>>
    decreases extra.len(),
{
    if extra.len() == 0 {
        entries
    } else {
        add_missing(
            if lists_path(entries, extra[0]) {
                entries
            } else {
                entries.push(extra[0])
            },
            extra.drop_first(),
        )
    }
}

/// Each place of `entries` is listed once: no entry names the place of an
/// earlier one.
pub open spec fn distinct_places(entries: Seq<Seq<char>>) -> bool {
    forall|i: int, j: int| 0 <= i < j < entries.len() ==> !same_path(#[trigger] entries[i], #[trigger] entries[j])
}

/// The entries of the child's `PATH`: the user's own first, then the
/// fallbacks, each place once, at its first mention.
pub open spec fn augmented_entries(path_var: Option<Seq<char>>, home: Option<Seq<char>>) -> Seq<Seq<char>> {
    add_missing(Seq::empty(), path_entries_of(path_var) + fallbacks_of(home))
}

/// Adding the missing entries to a list without repeats leaves a list without
/// repeats.
pub proof fn lemma_add_missing_distinct(entries: Seq<Seq<char>>, extra: Seq<Seq<char>>)
    requires
        distinct_places(entries),
    ensures
        distinct_places(add_missing(entries, extra)),
    decreases extra.len(),
{
    if extra.len() > 0 {
        let next = if lists_path(entries, extra[0]) {
            entries
        } else {
            entries.push(extra[0])
        };
        if !lists_path(entries, extra[0]) {
            assert forall|i: int, j: int| 0 <= i < j < next.len() implies !same_path(
                #[trigger] next[i],
                #[trigger] next[j],
            ) by {
                if j == entries.len() as int {
                    assert(next[i] == entries[i]);
                    if same_path(next[i], next[j]) {
                        assert(lists_path(entries, extra[0]));
                    }
                } else {
                    assert(next[i] == entries[i] && next[j] == entries[j]);
                }
            }
        }
        lemma_add_missing_distinct(next, extra.drop_first());
    }
}

/// The child's `PATH` never names one place twice.
pub proof fn law_augmented_path_has_no_repeats(path_var: Option<Seq<char>>, home: Option<Seq<char>>)
    ensures
        distinct_places(augmented_entries(path_var, home)),
{
    lemma_add_missing_distinct(Seq::empty(), path_entries_of(path_var) + fallbacks_of(home));
}

/// The child's `PATH`: the user's own entries first, then the fallbacks, with
/// duplicates removed. Hermes shells out to its own helpers, so a Finder-launch
/// PATH that lacks `~/.local/bin` would break it even once it was found.
pub fn augmented_path(path_var: Option<&str>, home: Option<&str>) -> (path: String)
    ensures
        path@ == join_with(augmented_entries(opt_view(path_var), opt_view(home)), ":"@),
{
    let mut all = path_entries(path_var);
    let mut fallback = fallback_directories(home);
    let ghost own = views(all@);
    let ghost more = views(fallback@);
    all.append(&mut fallback);
    let ghost extra = views(all@);
    assert(extra =~= own + more);
    let mut entries: Vec<String> = Vec::new();
    let ghost goal = add_missing(views(entries@), extra);
    assert(views(entries@) =~= Seq::<Seq<char>>::empty());
    let mut i: usize = 0;
    assert(extra.skip(0) =~= extra);
    while i < all.len()
        invariant
            extra == views(all@),
            i <= all@.len(),
            add_missing(views(entries@), extra.skip(i as int)) == goal,
        decreases all@.len() - i,
    {
        let dir = &all[i];
        assert(extra[i as int] == dir@);
        let n = entries.len();
        let mut j: usize = 0;
        let mut listed = false;
        while j < n
            invariant
                n == entries@.len(),
                j <= n,
                listed <==> exists|k: int| 0 <= k < j && same_path(#[trigger] views(entries@)[k], dir@),
            decreases n - j,
        {
            if paths_equal(entries[j].as_str(), dir.as_str()) {
                listed = true;
            }
            proof {
                assert(views(entries@)[j as int] == entries@[j as int]@);
            }
            j = j + 1;
        }
        let ghost before = views(entries@);
        proof {
            assert(extra.skip(i as int).drop_first() =~= extra.skip(i + 1));
            assert(extra.skip(i as int)[0] == dir@);
        }
        if !listed {
            entries.push(dir.clone());
            assert(views(entries@) =~= before.push(dir@));
        }
        i = i + 1;
    }
    assert(extra.skip(all@.len() as int) =~= Seq::<Seq<char>>::empty());
    join_texts(&entries, ":")
}


/// The variables of `env` not named `name`, in order.
pub open spec fn without_name(env: Seq<(String, String)>, name: Seq<char>) -> Seq<(String, String)>
    decreases env.len(),
{
    if env.len() == 0 {
        env
    } else if env.last().0@ == name {
        without_name(env.drop_last(), name)
    } else {
        without_name(env.drop_last(), name).push(env.last())
    }
}

/// `env` with each of `extra` set in turn: a variable set again replaces the
/// one before it and goes to the end.
pub open spec fn merged(env: Seq<(String, String)>, extra: Seq<(String, String)>) -> Seq<(String, String)>
    decreases extra.len(),
{
    if extra.len() == 0 {
        env
    } else {
        merged(without_name(env, extra[0].0@).push(extra[0]), extra.drop_first())
    }
}

/// The agent's environment before its `PATH` is set: what was inherited with
/// `extra` merged over it, minus the approval bypasses (so nothing in `extra`
/// can reintroduce one), and minus any inherited `PATH`.
pub open spec fn child_env_of(inherited: Seq<(String, String)>, extra: Seq<(String, String)>) -> Seq<
    (String, String),
> {
    without_name(without_bypasses(merged(inherited, extra)), "PATH"@)
}

/// `env` without the variables named `name`.
fn drop_named(env: Vec<(String, String)>, name: &str) -> (r: Vec<(String, String)>)
    ensures
        r@ == without_name(env@, name@),
{
    let mut r: Vec<(String, String)> = Vec::new();
    let mut rest = env;
    let ghost all = rest@;
    let n = rest.len();
    let mut i: usize = 0;
    assert(all.skip(0) =~= all);
    while i < n
        invariant
            n == all.len(),
            i <= n,
            rest@ == all.skip(i as int),
            r@ == without_name(all.take(i as int), name@),
        decreases n - i,
    {
        let item = rest.remove(0);
        assert(item == all[i as int]);
        assert(rest@ =~= all.skip(i + 1));
        proof {
            assert(all.take(i + 1).drop_last() =~= all.take(i as int));
        }
        if !str_eq(item.0.as_str(), name) {
            r.push(item);
        }
        i = i + 1;
    }
    assert(all.take(n as int) =~= all);
    r
}

/// The inherited environment with `extra` merged over it.
pub fn merge_env(inherited: Vec<(String, String)>, extra: &Vec<(String, String)>) -> (env: Vec<
    (String, String),
>)
    ensures
        env@ == merged(inherited@, extra@),
{
    let mut env = inherited;
    let ghost goal = merged(env@, extra@);
    let mut i: usize = 0;
    assert(extra@.skip(0) =~= extra@);
    while i < extra.len()
        invariant
            i <= extra@.len(),
            merged(env@, extra@.skip(i as int)) == goal,
        decreases extra@.len() - i,
    {
        let (name, value) = &extra[i];
        proof {
            assert(extra@.skip(i as int)[0] == extra@[i as int]);
            assert(extra@.skip(i as int).drop_first() =~= extra@.skip(i + 1));
        }
        let mut next = drop_named(env, name.as_str());
        next.push((name.clone(), value.clone()));
        env = next;
        i = i + 1;
    }
    assert(extra@.skip(extra@.len() as int) =~= Seq::<(String, String)>::empty());
    env
}

/// What the agent's child is started with: the inherited environment with
/// `extra` merged over it, the approval bypasses removed from the result, and
/// `PATH` set to the augmented search path.
pub fn child_env(
    inherited: Vec<(String, String)>,
    extra: &Vec<(String, String)>,
    path_var: Option<&str>,
    home: Option<&str>,
) -> (env: Vec<(String, String)>)
    ensures
        env@.len() > 0,
        env@.drop_last() == child_env_of(inherited@, extra@),
        env@.last().0@ == "PATH"@,
        env@.last().1@ == join_with(augmented_entries(opt_view(path_var), opt_view(home)), ":"@),
{
    let merged_env = merge_env(inherited, extra);
    let scrubbed = scrubbed_env(merged_env);
    let mut env = drop_named(scrubbed, "PATH");
    let path = augmented_path(path_var, home);
    let ghost before = env@;
    env.push((String::from_str("PATH"), path));
    proof {
        reveal_strlit("PATH");
        assert(env@.drop_last() =~= before);
    }
    env
}

} // verus!
