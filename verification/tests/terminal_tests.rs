use host_core::terminal::{TerminalError, TerminalManager};

fn sample_env() -> Vec<(String, String)> {
    vec![
        ("HOME".to_string(), "/home/u".to_string()),
        ("TERM".to_string(), "xterm-256color".to_string()),
    ]
}

#[test]
fn create_then_attach_reports_the_exact_descriptor_and_empty_output() {
    let mut m = TerminalManager::new();
    let s = m.create("/work".to_string(), sample_env(), 80, 24, );
    assert_eq!(s.id.len(), 36);
    assert_eq!(s.cwd, "/work");
    assert_eq!(s.env, sample_env());
    assert_eq!(s.cols, 80);
    assert_eq!(s.rows, 24);

    let a = m.attach(&s.id).unwrap();
    assert_eq!(a.session.id, s.id);
    assert_eq!(a.session.cwd, "/work");
    assert_eq!(a.session.env, sample_env());
    assert_eq!(a.session.cols, 80);
    assert_eq!(a.session.rows, 24);
    assert_eq!(a.output, Vec::<u8>::new());
    assert_eq!(a.byte_length, 0);
}

#[test]
fn attach_returns_the_whole_output_in_arrival_order() {
    let mut m = TerminalManager::new();
    let s = m.create("/".to_string(), vec![], 120, 30);
    assert!(m.append_output(&s.id, b"hello "));
    assert!(m.append_output(&s.id, b"world"));

    let a = m.attach(&s.id).unwrap();
    assert_eq!(a.output, b"hello world".to_vec());
    assert_eq!(a.byte_length, 11);

    // Attach is not a delta: a second attach sees the same history.
    let again = m.attach(&s.id).unwrap();
    assert_eq!(again.output, b"hello world".to_vec());
}

#[test]
fn resize_updates_the_descriptor_seen_by_attach() {
    let mut m = TerminalManager::new();
    let s = m.create("/".to_string(), vec![], 120, 30);
    m.resize(&s.id, 200, 50).unwrap();
    let a = m.attach(&s.id).unwrap();
    assert_eq!(a.session.cols, 200);
    assert_eq!(a.session.rows, 50);
    // Everything else is untouched.
    assert_eq!(a.session.cwd, "/");
    assert_eq!(a.output, Vec::<u8>::new());
}

#[test]
fn close_on_unknown_id_fails_with_session_not_found() {
    let mut m = TerminalManager::new();
    match m.close("nope") {
        Err(TerminalError::SessionNotFound { id }) => assert_eq!(id, "nope"),
        _ => panic!("closing an unknown session must fail"),
    }
}

#[test]
fn every_operation_after_close_fails_with_session_not_found() {
    let mut m = TerminalManager::new();
    let s = m.create("/".to_string(), vec![], 120, 30);
    m.close(&s.id).unwrap();

    assert!(matches!(m.close(&s.id), Err(TerminalError::SessionNotFound { .. })));
    assert!(matches!(m.attach(&s.id), Err(TerminalError::SessionNotFound { .. })));
    assert!(matches!(m.write(&s.id, "x"), Err(TerminalError::SessionNotFound { .. })));
    assert!(matches!(m.resize(&s.id, 1, 1), Err(TerminalError::SessionNotFound { .. })));
    assert!(!m.append_output(&s.id, b"late"));
}

#[test]
fn close_leaves_other_sessions_alone() {
    let mut m = TerminalManager::new();
    let s1 = m.create("/a".to_string(), vec![], 10, 11);
    let s2 = m.create("/b".to_string(), vec![], 20, 21);
    m.append_output(&s2.id, b"kept");
    m.close(&s1.id).unwrap();

    let a = m.attach(&s2.id).unwrap();
    assert_eq!(a.session.cwd, "/b");
    assert_eq!(a.output, b"kept".to_vec());
}

#[test]
fn write_hands_back_the_bytes_for_the_sink() {
    let mut m = TerminalManager::new();
    let s = m.create("/".to_string(), vec![], 120, 30);
    let bytes = m.write(&s.id, "ls -la\n").unwrap();
    assert_eq!(bytes, b"ls -la\n".to_vec());
}

#[test]
fn session_error_message_names_the_id() {
    let e = TerminalError::SessionNotFound { id: "abc".to_string() };
    assert_eq!(e.message(), "unknown terminal session abc");
}

#[test]
fn environment_overlay_is_stored_as_a_sorted_mapping_with_last_value_winning() {
    let mut m = TerminalManager::new();
    let env = vec![
        ("TERM".to_string(), "dumb".to_string()),
        ("HOME".to_string(), "/home/a".to_string()),
        ("TERM".to_string(), "xterm".to_string()),
        ("PATH".to_string(), "/bin".to_string()),
    ];
    let s = m.create("/".to_string(), env, 80, 24);
    assert_eq!(
        s.env,
        vec![
            ("HOME".to_string(), "/home/a".to_string()),
            ("PATH".to_string(), "/bin".to_string()),
            ("TERM".to_string(), "xterm".to_string()),
        ]
    );
}
