//! Model-level runs of the two end-to-end exchanges: an echoing worker, and
//! a worker that never replies.  The process and clock are played by the
//! test; every decision in between is the library's.

use host_core::bridge::{AppServerBridge, Delivery};
use host_core::codec::frame_request;
use host_core::router::{forward_host_request, map_app_server_envelope, ForwardOutcome};
use host_core::rpc::{jsonrpc_id_to_key, LineEvent, RpcId, WireMsg};

/// The fake worker: echoes the request's params under an `echo` key, with
/// the same identifier.
fn echo_worker(line: &[u8]) -> WireMsg {
    let v: serde_json::Value = serde_json::from_str(std::str::from_utf8(line).unwrap()).unwrap();
    let id = match v.get("id") {
        Some(serde_json::Value::String(s)) => Some(RpcId::Str(s.clone())),
        Some(serde_json::Value::Number(n)) => Some(RpcId::NumText(n.to_string())),
        Some(serde_json::Value::Bool(b)) => Some(RpcId::Bool(*b)),
        Some(other) => Some(RpcId::Json(other.to_string())),
        None => None,
    };
    let params = v.get("params").cloned().unwrap_or(serde_json::Value::Null);
    let mut result = serde_json::Map::new();
    result.insert("echo".to_string(), params);
    let result_text = serde_json::Value::Object(result).to_string();
    let raw = format!(
        "{{\"jsonrpc\":\"2.0\",\"id\":{},\"result\":{}}}",
        v.get("id").unwrap(),
        result_text
    );
    WireMsg { id, error: None, result: Some(result_text), raw }
}

#[test]
fn echoing_worker_answers_the_request() {
    let mut bridge = AppServerBridge::new();

    // request("echo", {"x":1}): register the slot, then frame the line.
    let id = bridge.begin_request(None);
    let key = jsonrpc_id_to_key(&id);
    let line = frame_request(&id, "echo", "{\"x\":1}");

    // The worker reads the line and immediately echoes a reply.
    let reply = echo_worker(&line);

    // The reader correlates the reply to the pending slot.
    let delivery = bridge.on_line(&LineEvent::Msg(reply));
    let msg = match delivery {
        Delivery::Reply { key: k } => {
            assert_eq!(k, key);
            echo_worker(&line)
        },
        _ => panic!("the echoed reply must complete the request"),
    };
    assert!(!bridge.has_pending(&key));

    // The caller sees the echoed result.
    let response = map_app_server_envelope("req".to_string(), &msg);
    assert!(response.ok);
    assert_eq!(response.result.as_deref(), Some("{\"echo\":{\"x\":1}}"));
}

#[test]
fn silent_worker_times_out_and_leaves_the_table_empty() {
    let mut bridge = AppServerBridge::new();

    let id = bridge.begin_request(None);
    let key = jsonrpc_id_to_key(&id);
    let _line = frame_request(&id, "slow-thing", "{}");

    // No reply arrives; the 50ms deadline elapses and the slot is withdrawn.
    assert!(bridge.remove_pending(&key));

    // The caller gets a timeout error.
    let response = forward_host_request(
        "req".to_string(),
        "slow-thing",
        &ForwardOutcome::Failed("app-server timeout waiting for response id=n:1 method=slow-thing".to_string()),
    );
    assert!(!response.ok);
    assert_eq!(response.error.unwrap().code, "app_server_error");

    // The table is empty afterwards: a reply that straggles in is dropped.
    assert!(!bridge.has_pending(&key));
    let late = WireMsg {
        id: Some(id),
        error: None,
        result: Some("{}".to_string()),
        raw: "{}".to_string(),
    };
    assert!(matches!(bridge.on_line(&LineEvent::Msg(late)), Delivery::Notify { .. }));
}
