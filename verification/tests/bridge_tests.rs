use host_core::bridge::{AppServerBridge, Delivery};
use host_core::rpc::{jsonrpc_id_to_key, LineEvent, RpcId, WireMsg};

fn msg_with_id(id: RpcId) -> WireMsg {
    WireMsg {
        id: Some(id),
        error: None,
        result: Some("{\"ok\":true}".to_string()),
        raw: "{\"jsonrpc\":\"2.0\"}".to_string(),
    }
}

fn msg_without_id() -> WireMsg {
    WireMsg {
        id: None,
        error: None,
        result: None,
        raw: "{\"jsonrpc\":\"2.0\",\"method\":\"note\"}".to_string(),
    }
}

#[test]
fn assigned_ids_count_up_from_one() {
    let mut b = AppServerBridge::new();
    let id1 = b.begin_request(None);
    let id2 = b.begin_request(None);
    assert_eq!(jsonrpc_id_to_key(&id1), b"n:1".to_vec());
    assert_eq!(jsonrpc_id_to_key(&id2), b"n:2".to_vec());
}

#[test]
fn explicit_id_is_kept() {
    let mut b = AppServerBridge::new();
    let id = b.begin_request(Some(RpcId::Str("req-7".to_string())));
    assert_eq!(jsonrpc_id_to_key(&id), b"s:req-7".to_vec());
    assert!(b.has_pending(&b"s:req-7".to_vec()));
}

#[test]
fn id_keys_tag_the_json_kind() {
    assert_eq!(jsonrpc_id_to_key(&RpcId::Str("a".to_string())), b"s:a".to_vec());
    assert_eq!(jsonrpc_id_to_key(&RpcId::NumText("42".to_string())), b"n:42".to_vec());
    assert_eq!(jsonrpc_id_to_key(&RpcId::Bool(true)), b"b:true".to_vec());
    assert_eq!(jsonrpc_id_to_key(&RpcId::Bool(false)), b"b:false".to_vec());
    assert_eq!(jsonrpc_id_to_key(&RpcId::Json("[1]".to_string())), b"j:[1]".to_vec());
}

#[test]
fn reply_is_delivered_exactly_once() {
    let mut b = AppServerBridge::new();
    let id = b.begin_request(Some(RpcId::Str("once".to_string())));
    let key = jsonrpc_id_to_key(&id);
    assert!(b.has_pending(&key));

    // First matching line completes the request.
    let d1 = b.on_line(&LineEvent::Msg(msg_with_id(id.clone())));
    match d1 {
        Delivery::Reply { key: k } => assert_eq!(k, key),
        _ => panic!("first matching line must complete the request"),
    }
    assert!(!b.has_pending(&key));

    // A second line with the same identifier finds nothing to complete.
    let d2 = b.on_line(&LineEvent::Msg(msg_with_id(id)));
    assert!(matches!(d2, Delivery::Notify { .. }));
}

#[test]
fn timeout_removes_the_key_and_late_reply_is_dropped() {
    let mut b = AppServerBridge::new();
    let id = b.begin_request(Some(RpcId::NumText("9".to_string())));
    let key = jsonrpc_id_to_key(&id);

    // The deadline elapses: the slot is withdrawn.
    assert!(b.remove_pending(&key));
    assert!(!b.has_pending(&key));

    // A late reply with that identifier falls through to notifications.
    let d = b.on_line(&LineEvent::Msg(msg_with_id(id)));
    assert!(matches!(d, Delivery::Notify { .. }));

    // Withdrawing twice reports that nothing was there.
    assert!(!b.remove_pending(&key));
}

#[test]
fn junk_lines_do_not_affect_delivery() {
    let mut b = AppServerBridge::new();
    let id = b.begin_request(Some(RpcId::Str("steady".to_string())));
    let key = jsonrpc_id_to_key(&id);

    assert!(matches!(b.on_line(&LineEvent::Blank), Delivery::Skipped));
    assert!(matches!(b.on_line(&LineEvent::NotJson), Delivery::Discarded));
    assert!(b.has_pending(&key));

    let d = b.on_line(&LineEvent::Msg(msg_with_id(id)));
    assert!(matches!(d, Delivery::Reply { .. }));
}

#[test]
fn notifications_reach_every_active_subscriber_and_no_former_one() {
    let mut b = AppServerBridge::new();
    let s1 = b.subscribe();
    let s2 = b.subscribe();
    let s3 = b.subscribe();
    assert!(b.unsubscribe(s2));

    let d = b.on_line(&LineEvent::Msg(msg_without_id()));
    match d {
        Delivery::Notify { subscribers } => {
            assert!(subscribers.contains(&s1));
            assert!(subscribers.contains(&s3));
            assert!(!subscribers.contains(&s2));
            assert_eq!(subscribers.len(), 2);
        },
        _ => panic!("a message without a pending id is a notification"),
    }

    // Unsubscribing a second time reports that the handle was gone.
    assert!(!b.unsubscribe(s2));
}

#[test]
fn message_with_unknown_id_is_a_notification() {
    let mut b = AppServerBridge::new();
    let s = b.subscribe();
    let d = b.on_line(&LineEvent::Msg(msg_with_id(RpcId::Str("stranger".to_string()))));
    match d {
        Delivery::Notify { subscribers } => assert_eq!(subscribers, vec![s]),
        _ => panic!("an unmatched id falls through to notification handling"),
    }
}

#[test]
fn process_exit_settles_every_pending_request() {
    let mut b = AppServerBridge::new();
    let id1 = b.begin_request(None);
    let id2 = b.begin_request(None);
    let k1 = jsonrpc_id_to_key(&id1);
    let k2 = jsonrpc_id_to_key(&id2);

    let keys = b.on_process_exit();
    assert_eq!(keys.len(), 2);
    assert!(keys.contains(&k1));
    assert!(keys.contains(&k2));
    assert!(!b.has_pending(&k1));
    assert!(!b.has_pending(&k2));
}
