use host_core::deeplink::{parse_deep_link, DeepLinkParseError, DeepLinkRoute};

#[test]
fn known_routes_parse() {
    assert!(matches!(parse_deep_link("codex://settings"), Ok(DeepLinkRoute::Settings)));
    assert!(matches!(parse_deep_link("codex://skills"), Ok(DeepLinkRoute::Skills)));
    assert!(matches!(parse_deep_link("codex://automations"), Ok(DeepLinkRoute::Automations)));
    assert!(matches!(parse_deep_link("codex://threads/new"), Ok(DeepLinkRoute::NewThread)));
}

#[test]
fn route_names_ignore_ascii_case() {
    assert!(matches!(parse_deep_link("codex://SETTINGS"), Ok(DeepLinkRoute::Settings)));
    assert!(matches!(parse_deep_link("codex://Threads/New"), Ok(DeepLinkRoute::NewThread)));
}

#[test]
fn scheme_is_matched_case_insensitively_but_stripped_case_sensitively() {
    // The scheme check passes, but only exact occurrences are stripped, so
    // the upper-cased scheme stays in the path and no route claims it.
    match parse_deep_link("CODEX://settings") {
        Ok(DeepLinkRoute::Unknown(p)) => assert_eq!(p, "CODEX://settings"),
        other => panic!("expected the unstripped path to be unknown, got {:?}", other.is_ok()),
    }
}

#[test]
fn repeated_schemes_are_all_stripped() {
    assert!(matches!(
        parse_deep_link("codex://codex://settings"),
        Ok(DeepLinkRoute::Settings)
    ));
}

#[test]
fn local_conversations_carry_their_identifier() {
    match parse_deep_link("codex://local/thread-42") {
        Ok(DeepLinkRoute::LocalConversation(id)) => assert_eq!(id, "thread-42"),
        _ => panic!("expected a local conversation"),
    }
    // The local prefix is case-sensitive.
    match parse_deep_link("codex://LOCAL/thread-42") {
        Ok(DeepLinkRoute::Unknown(p)) => assert_eq!(p, "LOCAL/thread-42"),
        _ => panic!("an upper-cased local prefix is no local route"),
    }
}

#[test]
fn unknown_paths_are_carried_verbatim() {
    match parse_deep_link("codex://somewhere/else") {
        Ok(DeepLinkRoute::Unknown(p)) => assert_eq!(p, "somewhere/else"),
        _ => panic!("expected an unknown route"),
    }
}

#[test]
fn other_schemes_are_rejected_with_the_raw_link() {
    match parse_deep_link("https://example.test") {
        Err(e @ DeepLinkParseError::InvalidScheme(_)) => {
            let DeepLinkParseError::InvalidScheme(raw) = &e;
            assert_eq!(raw, "https://example.test");
            assert_eq!(e.message(), "invalid deep link scheme: https://example.test");
        },
        _ => panic!("a foreign scheme must be rejected"),
    }
    assert!(parse_deep_link("codex:/half").is_err());
    assert!(parse_deep_link("").is_err());
}
