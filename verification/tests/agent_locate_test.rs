//! Finding an installed Hermes, and building the child's environment.
//!
//! Whether a candidate is an executable file is the host's question of the
//! disk; here it is answered from a list of paths that hold one. Nothing here
//! runs Hermes or reads the real `~/.hermes`.

use std::path::{Path, PathBuf};

use faiden::agent::locate::{self, Lookup, BYPASS_ENV_VARS};
use tempfile::TempDir;

/// A probe that reports exactly `installed` as executable.
fn executables(installed: &[PathBuf]) -> impl Fn(&str) -> bool + '_ {
    move |p| installed.iter().any(|i| i.as_path() == Path::new(p))
}

fn text(p: &Path) -> String {
    p.to_string_lossy().to_string()
}

#[test]
fn hermes_is_found_on_the_path() {
    let temp = TempDir::new().unwrap();
    let bin = temp.path().join("bin");
    let expected = bin.join("hermes");
    let installed = vec![expected.clone()];

    let found = locate::locate_hermes(
        &Lookup {
            path_var: Some(bin.to_string_lossy().to_string()),
            home: None,
        },
        executables(&installed),
    )
    .expect("hermes on PATH");
    assert_eq!(PathBuf::from(&found.program), expected);
    assert!(found.source.contains("PATH"), "got {}", found.source);
}

#[test]
fn a_gui_launch_still_finds_the_local_bin_a_login_shell_would_have_added() {
    // A Tauri app started from Finder inherits a minimal PATH that does not
    // include ~/.local/bin, which is exactly where the Hermes launcher lives.
    let temp = TempDir::new().unwrap();
    let home = temp.path().join("home");
    let expected = home.join(".local/bin").join("hermes");
    let installed = vec![expected.clone()];

    let found = locate::locate_hermes(
        &Lookup {
            path_var: Some("/usr/bin:/bin".to_string()),
            home: Some(text(&home)),
        },
        executables(&installed),
    )
    .expect("hermes under ~/.local/bin");
    assert_eq!(PathBuf::from(&found.program), expected);
    assert!(found.source.contains(".local/bin"), "got {}", found.source);
}

#[test]
fn the_path_wins_over_the_fallback_directories() {
    let temp = TempDir::new().unwrap();
    let home = temp.path().join("home");
    let bin = temp.path().join("bin");
    let on_path = bin.join("hermes");
    let installed = vec![on_path.clone(), home.join(".local/bin").join("hermes")];

    let found = locate::locate_hermes(
        &Lookup {
            path_var: Some(bin.to_string_lossy().to_string()),
            home: Some(text(&home)),
        },
        executables(&installed),
    )
    .unwrap();
    assert_eq!(PathBuf::from(&found.program), on_path);
}

#[test]
fn a_non_executable_file_named_hermes_is_not_an_installation() {
    let temp = TempDir::new().unwrap();
    let bin = temp.path().join("bin");
    // A file named hermes sits in `bin`, but it is not executable.
    let installed: Vec<PathBuf> = Vec::new();

    let err = locate::locate_hermes(
        &Lookup {
            path_var: Some(bin.to_string_lossy().to_string()),
            home: None,
        },
        executables(&installed),
    )
    .expect_err("a non-executable file is not an install");
    assert_eq!(err.code(), "NOT_FOUND");
}

#[test]
fn a_missing_install_says_what_was_searched_and_never_offers_to_install_it() {
    let temp = TempDir::new().unwrap();
    let home = temp.path().join("home");
    let installed: Vec<PathBuf> = Vec::new();

    let err = locate::locate_hermes(
        &Lookup {
            path_var: Some(temp.path().join("empty").to_string_lossy().to_string()),
            home: Some(text(&home)),
        },
        executables(&installed),
    )
    .expect_err("nothing to find");
    assert_eq!(err.code(), "NOT_FOUND");

    let message = err.message();
    assert!(
        message.contains(".local/bin"),
        "must name what it searched: {message}"
    );
    let lowered = message.to_lowercase();
    assert!(
        !lowered.contains("installing") && !lowered.contains("we will install"),
        "Faiden never installs or authenticates on the user's behalf: {message}"
    );
}

#[test]
fn no_personal_absolute_path_is_compiled_into_the_search() {
    for dir in locate::fallback_directories(Some("/home/example")) {
        let text = dir.clone();
        assert!(
            !text.contains("simonfunk"),
            "a developer's own path must never ship: {text}"
        );
    }
}

#[test]
fn inherited_approval_bypass_variables_are_removed_from_the_child() {
    // Every name below is a real switch in the installed Hermes, not an
    // invented flag.
    let inherited = vec![
        ("PATH".to_string(), "/usr/bin".to_string()),
        ("HOME".to_string(), "/Users/example".to_string()),
        ("OPENAI_API_KEY".to_string(), "sk-example".to_string()),
        ("HERMES_YOLO_MODE".to_string(), "1".to_string()),
        ("HERMES_ACP_AUTO_APPROVE".to_string(), "1".to_string()),
        ("HERMES_NONINTERACTIVE".to_string(), "1".to_string()),
        ("HERMES_EXEC_ASK".to_string(), "1".to_string()),
        ("HERMES_CRON_SESSION".to_string(), "abc".to_string()),
    ];

    let scrubbed = locate::scrubbed_env(inherited);
    let names: Vec<&str> = scrubbed.iter().map(|(k, _)| k.as_str()).collect();

    for bypass in &BYPASS_ENV_VARS {
        assert!(
            !names.contains(bypass),
            "{bypass} must not reach the agent: it would turn Faiden's approval UI into a rubber stamp"
        );
    }
    // Credentials and ordinary configuration are inherited untouched: auth
    // stays with the installed harness.
    assert!(names.contains(&"OPENAI_API_KEY"));
    assert!(names.contains(&"HOME"));
}

#[test]
fn the_child_path_keeps_the_users_path_and_adds_the_fallbacks() {
    let path = locate::augmented_path(Some("/usr/bin:/bin"), Some("/home/example"));
    let entries: Vec<&str> = path.split(':').collect();
    assert_eq!(entries[0], "/usr/bin", "the user's own PATH keeps priority");
    assert!(entries.contains(&"/home/example/.local/bin"));
    assert_eq!(
        entries.len(),
        entries
            .iter()
            .collect::<std::collections::BTreeSet<_>>()
            .len(),
        "no duplicate entries: {path}"
    );
}

#[test]
fn the_search_order_is_the_path_then_the_fallbacks() {
    assert_eq!(
        locate::fallback_directories(Some("/home/u")),
        vec![
            "/home/u/.local/bin".to_string(),
            "/home/u/.hermes/bin".to_string(),
            "/opt/homebrew/bin".to_string(),
            "/usr/local/bin".to_string(),
        ]
    );
    assert_eq!(
        locate::fallback_directories(None),
        vec!["/opt/homebrew/bin".to_string(), "/usr/local/bin".to_string()]
    );
    assert_eq!(
        locate::path_entries(Some("::/a::/b:")),
        vec!["/a".to_string(), "/b".to_string()]
    );
    assert!(locate::path_entries(None).is_empty());
}

#[test]
fn a_fallback_already_on_the_path_is_not_added_twice_even_when_spelt_differently() {
    let path = locate::augmented_path(Some("/usr/local/bin/:/x"), None);
    assert_eq!(path, "/usr/local/bin/:/x:/opt/homebrew/bin");
}

#[test]
fn a_missing_install_lists_every_directory_in_search_order() {
    let err = locate::locate_hermes(
        &Lookup {
            path_var: Some("/p1:/p2".to_string()),
            home: Some("/h".to_string()),
        },
        |_| false,
    )
    .unwrap_err();
    assert_eq!(
        err.message(),
        "no hermes executable with id no executable named `hermes` in any of: /p1, /p2, /h/.local/bin, /h/.hermes/bin, /opt/homebrew/bin, /usr/local/bin. Install Hermes and make it runnable from your shell first — Faiden does not install or configure it for you"
    );
}

#[test]
fn the_first_executable_candidate_is_chosen_and_described_by_where_it_was_found() {
    let found = locate::locate_hermes(
        &Lookup {
            path_var: Some("/p1".to_string()),
            home: Some("/h/".to_string()),
        },
        |p| p == "/h/.hermes/bin/hermes",
    )
    .unwrap();
    assert_eq!(found.program, "/h/.hermes/bin/hermes");
    assert_eq!(found.source, "/h/.hermes/bin (not on this app's PATH)");
}
