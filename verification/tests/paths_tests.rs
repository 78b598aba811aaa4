use host_core::paths::{
    authorize_read_file, dedup_roots, is_within_allowed_roots, paths_equal,
    read_file_error_response, CanonicalPath, ReadFileDecision,
};

fn path(components: &[&str]) -> CanonicalPath {
    CanonicalPath { components: components.iter().map(|s| s.to_string()).collect() }
}

#[test]
fn containment_is_component_wise() {
    let roots = vec![path(&["home", "user"]), path(&["srv", "data"])];
    assert!(is_within_allowed_roots(&path(&["home", "user", "notes.txt"]), &roots));
    assert!(is_within_allowed_roots(&path(&["home", "user"]), &roots));
    assert!(is_within_allowed_roots(&path(&["srv", "data", "a", "b"]), &roots));
    assert!(!is_within_allowed_roots(&path(&["home", "user2", "x"]), &roots));
    assert!(!is_within_allowed_roots(&path(&["etc", "passwd"]), &roots));
    // A string prefix of a component is not a path prefix.
    assert!(!is_within_allowed_roots(&path(&["home", "userx"]), &roots));
}

#[test]
fn no_roots_means_nothing_is_allowed() {
    assert!(!is_within_allowed_roots(&path(&["anything"]), &vec![]));
}

#[test]
fn a_path_outside_every_root_is_rejected_even_when_readable() {
    // The decision sees only the canonical path and the roots; that the file
    // exists and is readable plays no part.
    let roots = vec![path(&["home", "user"])];
    let d = authorize_read_file(Some("/etc/passwd"), Some(&path(&["etc", "passwd"])), &roots);
    assert!(matches!(d, ReadFileDecision::RejectNotAllowed));

    let r = read_file_error_response("q".to_string(), &d);
    let e = r.error.unwrap();
    assert_eq!(e.code, "path_not_allowed");
    assert_eq!(e.message, "requested path is outside configured allowed roots");
}

#[test]
fn blank_paths_and_failed_resolution_are_rejected_first() {
    let roots = vec![path(&["home"])];
    assert!(matches!(authorize_read_file(None, None, &roots), ReadFileDecision::RejectEmpty));
    assert!(matches!(
        authorize_read_file(Some("   "), Some(&path(&["home", "f"])), &roots),
        ReadFileDecision::RejectEmpty
    ));
    assert!(matches!(
        authorize_read_file(Some("/home/missing"), None, &roots),
        ReadFileDecision::RejectIo
    ));
    assert!(matches!(
        authorize_read_file(Some("/home/f"), Some(&path(&["home", "f"])), &roots),
        ReadFileDecision::Allow
    ));

    let r = read_file_error_response("q".to_string(), &ReadFileDecision::RejectEmpty);
    let e = r.error.unwrap();
    assert_eq!(e.code, "invalid_path");
    assert_eq!(e.message, "path is required");

    let r2 = read_file_error_response("q".to_string(), &ReadFileDecision::RejectIo);
    assert_eq!(r2.error.unwrap().code, "io_error");
}

#[test]
fn duplicate_roots_are_dropped_keeping_first_occurrences() {
    let roots = vec![
        path(&["a"]),
        path(&["b", "c"]),
        path(&["a"]),
        path(&["d"]),
        path(&["b", "c"]),
    ];
    let deduped = dedup_roots(roots);
    assert_eq!(deduped.len(), 3);
    assert!(paths_equal(&deduped[0], &path(&["a"])));
    assert!(paths_equal(&deduped[1], &path(&["b", "c"])));
    assert!(paths_equal(&deduped[2], &path(&["d"])));
}
