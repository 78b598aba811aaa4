use host_core::gitcfg::is_disallowed_git_config_key;

#[test]
fn command_execution_keys_are_refused() {
    assert!(is_disallowed_git_config_key("core.hookspath"));
    assert!(is_disallowed_git_config_key("core.sshcommand"));
    assert!(is_disallowed_git_config_key("core.gitproxy"));
    assert!(is_disallowed_git_config_key("credential.helper"));
}

#[test]
fn refused_key_families_cover_their_subkeys() {
    assert!(is_disallowed_git_config_key("credential.helper.store"));
    assert!(is_disallowed_git_config_key("alias.st"));
    assert!(is_disallowed_git_config_key("include.path"));
    assert!(is_disallowed_git_config_key("includeif.gitdir:/x.path"));
}

#[test]
fn keys_are_judged_after_trimming_and_lower_casing() {
    assert!(is_disallowed_git_config_key("  CORE.HooksPath  "));
    assert!(is_disallowed_git_config_key("\tAlias.co\n"));
}

#[test]
fn empty_or_whitespace_holding_keys_are_refused() {
    assert!(is_disallowed_git_config_key(""));
    assert!(is_disallowed_git_config_key("   "));
    assert!(is_disallowed_git_config_key("user name"));
}

#[test]
fn ordinary_keys_pass() {
    assert!(!is_disallowed_git_config_key("user.name"));
    assert!(!is_disallowed_git_config_key("user.email"));
    assert!(!is_disallowed_git_config_key("core.editor"));
    // Equality and family prefixes do not overreach.
    assert!(!is_disallowed_git_config_key("credential.helperx"));
    assert!(!is_disallowed_git_config_key("aliases.x"));
    assert!(!is_disallowed_git_config_key("core.hookspathx"));
}
