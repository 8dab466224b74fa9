use perf_rs::tracepoint::{
    discover_tracepoints, find_tracefs_path, get_tracepoint_id, parse_available_events,
    parse_tracepoint_id, TracefsRead, TracepointError, TracepointId, TracepointTable,
};

#[test]
fn test_tracepoint_id_new() {
    let tp = TracepointId::new("sched", "sched_switch", 123);
    assert_eq!(tp.subsystem, "sched");
    assert_eq!(tp.name, "sched_switch");
    assert_eq!(tp.id, 123);
}

#[test]
fn test_tracepoint_id_full_name() {
    let tp = TracepointId::new("syscalls", "sys_enter_openat", 456);
    assert_eq!(tp.full_name(), "syscalls:sys_enter_openat");
}

#[test]
fn test_tracepoint_id_clone_eq() {
    let tp1 = TracepointId::new("irq", "irq_handler_entry", 789);
    let tp2 = tp1.clone();
    assert_eq!(tp1, tp2);
}

#[test]
fn test_tracepoint_error_not_found() {
    let err = TracepointError::NotFound { name: "test:test".to_string() };
    assert!(err.to_string().contains("not found"));
}

#[test]
fn test_tracepoint_error_tracefs_not_mounted() {
    let err = TracepointError::TracefsNotMounted;
    assert!(err.to_string().contains("not mounted"));
}

#[test]
fn test_tracepoint_error_permission_denied() {
    let err = TracepointError::PermissionDenied { path: "/sys/kernel/tracing".to_string() };
    assert!(err.to_string().contains("Permission denied"));
}

#[test]
fn test_tracepoint_error_malformed_id() {
    let err = TracepointError::MalformedId {
        path: "/sys/kernel/tracing/events/test/id".to_string(),
        source: "parse error".to_string(),
    };
    assert!(err.to_string().contains("Malformed"));
}

#[test]
fn test_tracepoint_error_malformed_content() {
    let err = TracepointError::MalformedContent {
        path: "/sys/kernel/tracing/available_events".to_string(),
        message: "invalid format".to_string(),
    };
    assert!(err.to_string().contains("Malformed content"));
}

#[test]
fn test_tracepoint_error_file_read() {
    let err = TracepointError::FileRead {
        path: "/sys/kernel/tracing/available_events".to_string(),
        source: "file not found".to_string(),
    };
    assert!(err.to_string().contains("Failed to read"));
}

#[test]
fn test_discover_tracepoints_success_or_tracefs_not_mounted() {
    let file = TracefsRead::Content("sched:sched_switch\nirq:irq_handler_entry\n".to_string());
    match discover_tracepoints("/sys/kernel/tracing/available_events", &file) {
        Ok(tracepoints) => {
            assert!(!tracepoints.is_empty());
            for (subsystem, name) in &tracepoints {
                assert!(!subsystem.is_empty());
                assert!(!name.is_empty());
                assert!(!subsystem.contains(':'));
                assert!(!name.contains(':'));
            }
        }
        Err(e) => {
            let err_msg = e.to_string();
            assert!(err_msg.contains("not mounted") || err_msg.contains("Permission denied"));
        }
    }
}

#[test]
fn test_get_tracepoint_id_success_or_error() {
    let file = TracefsRead::Content("316\n".to_string());
    match get_tracepoint_id("sched", "sched_switch", "/sys/kernel/tracing/events/sched/sched_switch/id", &file) {
        Ok(id) => assert!(id > 0),
        Err(e) => {
            let err_msg = e.to_string();
            assert!(
                err_msg.contains("not found")
                    || err_msg.contains("not mounted")
                    || err_msg.contains("Permission denied")
            );
        }
    }
}

#[test]
fn test_get_tracepoint_id_nonexistent_tracepoint() {
    let result = get_tracepoint_id(
        "nonexistent_subsystem_xyz",
        "nonexistent_event_xyz",
        "/sys/kernel/tracing/events/nonexistent_subsystem_xyz/nonexistent_event_xyz/id",
        &TracefsRead::Missing,
    );
    assert!(result.is_err());
    let err_msg = result.unwrap_err().to_string();
    assert!(err_msg.contains("not found") || err_msg.contains("not mounted"));
}

#[test]
fn tracefs_path_prefers_primary() {
    assert_eq!(find_tracefs_path(true, true).unwrap(), "/sys/kernel/tracing");
    assert_eq!(find_tracefs_path(false, true).unwrap(), "/sys/kernel/debug/tracing");
    assert_eq!(
        find_tracefs_path(false, false).unwrap_err().to_string(),
        "Tracepoint error: tracefs filesystem is not mounted"
    );
}

#[test]
fn tracepoint_id_errors_name_the_failure() {
    let p = "/t/events/a/b/id";
    assert_eq!(
        get_tracepoint_id("a", "b", p, &TracefsRead::Missing).unwrap_err().to_string(),
        "Tracepoint error: Tracepoint 'a:b' not found"
    );
    assert_eq!(
        get_tracepoint_id("a", "b", p, &TracefsRead::PermissionDenied).unwrap_err().to_string(),
        "Tracepoint error: Permission denied accessing tracefs at '/t/events/a/b/id'"
    );
    assert_eq!(
        get_tracepoint_id("a", "b", p, &TracefsRead::Content("12x".to_string()))
            .unwrap_err()
            .to_string(),
        "Tracepoint error: Malformed tracepoint ID in '/t/events/a/b/id': invalid digit found in string"
    );
    assert_eq!(
        get_tracepoint_id("a", "b", p, &TracefsRead::Content("  \n".to_string()))
            .unwrap_err()
            .to_string(),
        "Tracepoint error: Malformed tracepoint ID in '/t/events/a/b/id': cannot parse integer from empty string"
    );
    assert_eq!(get_tracepoint_id("a", "b", p, &TracefsRead::Content(" 42\n".to_string())).unwrap(), 42);
}

#[test]
fn tracepoint_from_name_reads_id() {
    let tp = TracepointId::from_name("sched", "sched_switch", "/x/id", &TracefsRead::Content("316".to_string()))
        .unwrap();
    assert_eq!(tp, TracepointId::new("sched", "sched_switch", 316));
}

#[test]
fn available_events_skip_malformed_lines() {
    let v = parse_available_events("sched:sched_switch\n\n:x\ny:\nnocolon\n  irq:irq_exit  \n");
    assert_eq!(
        v,
        vec![
            ("sched".to_string(), "sched_switch".to_string()),
            ("irq".to_string(), "irq_exit".to_string())
        ]
    );
}

#[test]
fn tracepoint_id_file_parses() {
    assert_eq!(parse_tracepoint_id(" 17\n"), Some(17));
    assert_eq!(parse_tracepoint_id("x"), None);
}

#[test]
fn tracepoint_table_lookups() {
    let mut t = TracepointTable::new();
    t.insert(TracepointId::new("sched", "sched_switch", 316));
    t.insert(TracepointId::new("sched", "sched_switch", 999));
    let s: Vec<char> = "sched".chars().collect();
    let n: Vec<char> = "sched_switch".chars().collect();
    assert_eq!(t.lookup(&s, &n), Some(316));
    assert_eq!(t.lookup_name(999).unwrap(), "sched:sched_switch");
    assert_eq!(t.lookup_name(1), None);
}

#[test]
fn test_discover_tracepoints_returns_result() {
    let file = TracefsRead::Missing;
    let result = discover_tracepoints("/sys/kernel/tracing/available_events", &file);
    assert!(result.is_ok() || result.is_err());
}

#[test]
fn test_get_tracepoint_id_returns_result() {
    let file = TracefsRead::PermissionDenied;
    let result = get_tracepoint_id("sched", "sched_switch", "/sys/kernel/tracing/events/sched/sched_switch/id", &file);
    assert!(result.is_ok() || result.is_err());
}
