use host_core::codec::{frame_request, jsonrpc_error_response};
use host_core::rpc::RpcId;

#[test]
fn framed_request_has_the_exact_envelope_shape() {
    let line = frame_request(&RpcId::NumText("1".to_string()), "echo", "{\"x\":1}");
    assert_eq!(
        String::from_utf8(line).unwrap(),
        "{\"jsonrpc\":\"2.0\",\"id\":1,\"method\":\"echo\",\"params\":{\"x\":1}}"
    );
}

#[test]
fn framed_request_quotes_string_ids() {
    let line = frame_request(&RpcId::Str("req-1".to_string()), "ping", "{}");
    assert_eq!(
        String::from_utf8(line).unwrap(),
        "{\"jsonrpc\":\"2.0\",\"id\":\"req-1\",\"method\":\"ping\",\"params\":{}}"
    );
}

#[test]
fn framed_request_escapes_method_content() {
    let line = frame_request(&RpcId::Bool(true), "we\"ird\\na\nme", "{}");
    let text = String::from_utf8(line).unwrap();
    assert_eq!(
        text,
        "{\"jsonrpc\":\"2.0\",\"id\":true,\"method\":\"we\\\"ird\\\\na\\u000ame\",\"params\":{}}"
    );
    // The framed line never holds a raw newline.
    assert!(!text.contains('\n'));
}

#[test]
fn framed_request_parses_back_as_json() {
    let line = frame_request(
        &RpcId::Str("id \"x\"".to_string()),
        "a\tb",
        "{\"k\":\"v\"}",
    );
    let v: serde_json::Value = serde_json::from_str(&String::from_utf8(line).unwrap()).unwrap();
    assert_eq!(v.get("jsonrpc").and_then(|j| j.as_str()), Some("2.0"));
    assert_eq!(v.get("id").and_then(|j| j.as_str()), Some("id \"x\""));
    assert_eq!(v.get("method").and_then(|j| j.as_str()), Some("a\tb"));
    assert_eq!(
        v.get("params").and_then(|p| p.get("k")).and_then(|j| j.as_str()),
        Some("v")
    );
}

#[test]
fn error_response_has_the_exact_envelope_shape() {
    let line = jsonrpc_error_response(
        &RpcId::Str("r1".to_string()),
        "unknown_method",
        "method 'x' is not registered",
    );
    assert_eq!(
        String::from_utf8(line).unwrap(),
        "{\"jsonrpc\":\"2.0\",\"id\":\"r1\",\"error\":{\"code\":\"unknown_method\",\
         \"message\":\"method 'x' is not registered\"}}"
    );
}

#[test]
fn error_response_escapes_the_message() {
    let line = jsonrpc_error_response(&RpcId::NumText("3".to_string()), "c", "a\"b\\c");
    let v: serde_json::Value = serde_json::from_str(&String::from_utf8(line).unwrap()).unwrap();
    assert_eq!(
        v.pointer("/error/message").and_then(|j| j.as_str()),
        Some("a\"b\\c")
    );
}
