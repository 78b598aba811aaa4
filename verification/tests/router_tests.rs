use host_core::router::{
    classify_mutation, classify_query, dispatch_registry, forward_host_request, is_git_worker,
    is_known_git_worker_method, is_known_mutation_method, is_known_query_method,
    map_app_server_envelope, parse_jsonrpc_error, terminal_create_defaults,
    unknown_mutation_response, unknown_query_response, view_message_route,
    worker_unsupported_response, ForwardOutcome, MutationRoute, QueryRoute, ViewRoute,
};
use host_core::rpc::{RpcErrorInfo, WireMsg};

fn reply(error: Option<RpcErrorInfo>, result: Option<&str>) -> WireMsg {
    WireMsg {
        id: None,
        error,
        result: result.map(|s| s.to_string()),
        raw: "{}".to_string(),
    }
}

#[test]
fn query_classification_matches_the_local_handlers_first() {
    assert!(matches!(classify_query("get-configuration"), QueryRoute::GetConfiguration));
    assert!(matches!(classify_query("get-global-state"), QueryRoute::GetGlobalState));
    assert!(matches!(classify_query("dispatch-registry"), QueryRoute::Registry));
    assert!(matches!(classify_query("os-info"), QueryRoute::OsInfo));
    assert!(matches!(classify_query("local-environment"), QueryRoute::LocalEnvironment));
    assert!(matches!(classify_query("paths-exist"), QueryRoute::PathsExist));
    assert!(matches!(classify_query("read-file"), QueryRoute::ReadFile));
    assert!(matches!(classify_query("find-files"), QueryRoute::Forward));
    assert!(matches!(classify_query("account-info"), QueryRoute::Forward));
    assert!(matches!(classify_query("no-such-thing"), QueryRoute::Unknown));
    // A mutation method is not a query.
    assert!(matches!(classify_query("apply-patch"), QueryRoute::Unknown));
}

#[test]
fn mutation_classification_matches_the_local_handlers_first() {
    assert!(matches!(classify_mutation("set-configuration"), MutationRoute::SetConfiguration));
    assert!(matches!(classify_mutation("set-global-state"), MutationRoute::SetGlobalState));
    assert!(matches!(classify_mutation("terminal-create"), MutationRoute::TerminalCreate));
    assert!(matches!(classify_mutation("terminal-attach"), MutationRoute::TerminalAttach));
    assert!(matches!(classify_mutation("terminal-write"), MutationRoute::TerminalWrite));
    assert!(matches!(classify_mutation("terminal-resize"), MutationRoute::TerminalResize));
    assert!(matches!(classify_mutation("terminal-close"), MutationRoute::TerminalClose));
    assert!(matches!(classify_mutation("apply-patch"), MutationRoute::Forward));
    assert!(matches!(classify_mutation("read-file"), MutationRoute::Unknown));
}

#[test]
fn registries_are_disjoint_and_complete() {
    let reg = dispatch_registry();
    assert_eq!(reg.query_methods.len(), 31);
    assert_eq!(reg.mutation_methods.len(), 25);
    assert_eq!(reg.git_worker_methods.len(), 27);
    for q in &reg.query_methods {
        assert!(is_known_query_method(q));
        assert!(!is_known_mutation_method(q), "{q} is in two registries");
        assert!(!is_known_git_worker_method(q), "{q} is in two registries");
    }
    for m in &reg.mutation_methods {
        assert!(is_known_mutation_method(m));
        assert!(!is_known_query_method(m), "{m} is in two registries");
        assert!(!is_known_git_worker_method(m), "{m} is in two registries");
    }
    for g in &reg.git_worker_methods {
        assert!(is_known_git_worker_method(g));
        assert!(!is_known_query_method(g), "{g} is in two registries");
        assert!(!is_known_mutation_method(g), "{g} is in two registries");
    }
}

#[test]
fn numeric_error_codes_become_app_server_codes() {
    let e = RpcErrorInfo {
        code_num: Some(-32601),
        code_str: None,
        message: Some("no such method".to_string()),
        raw: "{\"code\":-32601}".to_string(),
    };
    let r = parse_jsonrpc_error("r1".to_string(), &e);
    assert_eq!(r.request_id, "r1");
    assert!(!r.ok);
    assert!(r.result.is_none());
    let he = r.error.unwrap();
    assert_eq!(he.code, "app_server_-32601");
    assert_eq!(he.message, "no such method");
    assert_eq!(he.details.as_deref(), Some("{\"code\":-32601}"));
}

#[test]
fn string_error_codes_pass_through_and_fallbacks_apply() {
    let e = RpcErrorInfo {
        code_num: None,
        code_str: Some("busy".to_string()),
        message: None,
        raw: "{}".to_string(),
    };
    let r = parse_jsonrpc_error("r2".to_string(), &e);
    let he = r.error.unwrap();
    assert_eq!(he.code, "busy");
    assert_eq!(he.message, "app-server request failed");

    let bare = RpcErrorInfo { code_num: None, code_str: None, message: None, raw: "{}".to_string() };
    let r2 = parse_jsonrpc_error("r3".to_string(), &bare);
    assert_eq!(r2.error.unwrap().code, "app_server_error");
}

#[test]
fn reply_results_pass_through_verbatim() {
    let r = map_app_server_envelope("q".to_string(), &reply(None, Some("{\"n\":3}")));
    assert!(r.ok);
    assert_eq!(r.result.as_deref(), Some("{\"n\":3}"));
    assert!(r.error.is_none());

    // An absent result becomes the empty object.
    let r2 = map_app_server_envelope("q2".to_string(), &reply(None, None));
    assert_eq!(r2.result.as_deref(), Some("{}"));
}

#[test]
fn forwarding_without_a_bridge_fails_fast() {
    let r = forward_host_request("r".to_string(), "find-files", &ForwardOutcome::Unavailable);
    let he = r.error.unwrap();
    assert_eq!(he.code, "app_server_unavailable");
    assert_eq!(he.message, "app-server bridge is not available for method 'find-files'");
}

#[test]
fn forwarding_failures_carry_the_transport_message() {
    let r = forward_host_request(
        "r".to_string(),
        "find-files",
        &ForwardOutcome::Failed("app-server timeout waiting for response".to_string()),
    );
    let he = r.error.unwrap();
    assert_eq!(he.code, "app_server_error");
    assert_eq!(he.message, "app-server timeout waiting for response");
}

#[test]
fn forwarded_replies_are_mapped() {
    let r = forward_host_request(
        "r".to_string(),
        "find-files",
        &ForwardOutcome::Replied(reply(None, Some("[1,2]"))),
    );
    assert!(r.ok);
    assert_eq!(r.result.as_deref(), Some("[1,2]"));
}

#[test]
fn unknown_methods_are_rejected_by_name() {
    let q = unknown_query_response("a".to_string(), "bogus");
    let qe = q.error.unwrap();
    assert_eq!(qe.code, "query_method_unknown");
    assert_eq!(qe.message, "query method 'bogus' is not registered");

    let m = unknown_mutation_response("b".to_string(), "bogus");
    let me = m.error.unwrap();
    assert_eq!(me.code, "mutation_method_unknown");
    assert_eq!(me.message, "mutation method 'bogus' is not registered");
}

#[test]
fn only_the_git_worker_is_wired_in() {
    assert!(is_git_worker("git"));
    assert!(!is_git_worker("shell"));
    let r = worker_unsupported_response("shell".to_string(), "w1".to_string());
    assert_eq!(r.worker_id, "shell");
    assert_eq!(r.request_id, "w1");
    assert!(!r.ok);
    let e = r.error.unwrap();
    assert_eq!(e.code, "worker_not_supported");
    assert_eq!(e.message, "only git worker is currently wired in tauri rewrite");
}

#[test]
fn view_messages_route_by_registry_membership() {
    assert!(matches!(view_message_route(None), ViewRoute::MissingMethod));
    assert!(matches!(view_message_route(Some("find-files")), ViewRoute::Forward));
    assert!(matches!(view_message_route(Some("apply-patch")), ViewRoute::Forward));
    assert!(matches!(view_message_route(Some("not-a-method")), ViewRoute::UnknownMethod));
}

#[test]
fn terminal_create_defaults_apply() {
    let (cwd, cols, rows) = terminal_create_defaults(None, None, None);
    assert_eq!(cwd, ".");
    assert_eq!(cols, 120);
    assert_eq!(rows, 30);

    let (cwd2, cols2, rows2) =
        terminal_create_defaults(Some("/w".to_string()), Some(80), Some(24));
    assert_eq!(cwd2, "/w");
    assert_eq!(cols2, 80);
    assert_eq!(rows2, 24);

    // The wire value is wider than the terminal's: it is truncated.
    let (_, cols3, _) = terminal_create_defaults(None, Some(65536 + 5), None);
    assert_eq!(cols3, 5);
}
