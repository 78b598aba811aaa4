use host_core::cli::{codex_cli_candidate_paths, resolve_codex_cli_path};
use host_core::hostenv::{env_get, local_env_allowlist, preferred_shell};
use host_core::state::StateStore;

#[test]
fn state_files_live_under_the_root_by_key() {
    let store = StateStore::new("/data/host".to_string());
    assert_eq!(store.path_for("configuration"), "/data/host/configuration.json");
    assert_eq!(store.path_for("global-state"), "/data/host/global-state.json");
}

#[test]
fn the_environment_allowlist_is_fixed() {
    let keys = local_env_allowlist();
    assert_eq!(keys, vec!["SHELL", "ComSpec", "HOME", "USERPROFILE", "PATH", "TERM"]);
}

#[test]
fn env_lookup_takes_the_first_match() {
    let env = vec![
        ("PATH".to_string(), "/usr/bin".to_string()),
        ("SHELL".to_string(), "/bin/zsh".to_string()),
        ("SHELL".to_string(), "/bin/bash".to_string()),
    ];
    assert_eq!(env_get(&env, "SHELL").as_deref(), Some("/bin/zsh"));
    assert_eq!(env_get(&env, "TERM"), None);
}

#[test]
fn the_shell_prefers_shell_over_comspec() {
    let unix = vec![
        ("SHELL".to_string(), "/bin/sh".to_string()),
        ("ComSpec".to_string(), "cmd.exe".to_string()),
    ];
    assert_eq!(preferred_shell(&unix).as_deref(), Some("/bin/sh"));

    let windows = vec![("ComSpec".to_string(), "cmd.exe".to_string())];
    assert_eq!(preferred_shell(&windows).as_deref(), Some("cmd.exe"));

    assert_eq!(preferred_shell(&vec![]), None);
}

#[test]
fn candidate_paths_list_the_override_then_each_ancestor_with_each_suffix() {
    let ancestors = vec!["/w/a".to_string(), "/w".to_string()];
    let suffixes = vec!["/vendor/one".to_string(), "/vendor/two".to_string()];
    let with_override =
        codex_cli_candidate_paths(Some("/opt/cli".to_string()), &ancestors, &suffixes);
    assert_eq!(
        with_override,
        vec![
            "/opt/cli".to_string(),
            "/w/a/vendor/one".to_string(),
            "/w/a/vendor/two".to_string(),
            "/w/vendor/one".to_string(),
            "/w/vendor/two".to_string(),
        ]
    );

    let without = codex_cli_candidate_paths(None, &ancestors, &suffixes);
    assert_eq!(without.len(), 4);
    assert_eq!(without[0], "/w/a/vendor/one");
}

#[test]
fn the_first_existing_candidate_wins() {
    let candidates = vec!["a".to_string(), "b".to_string(), "c".to_string()];
    assert_eq!(
        resolve_codex_cli_path(&candidates, &vec![false, true, true]).as_deref(),
        Some("b")
    );
    assert_eq!(resolve_codex_cli_path(&candidates, &vec![false, false, false]), None);
}
