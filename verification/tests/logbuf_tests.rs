use ple7_vpn::{
    add_to_log_buffer, format_file_line, format_log_line, get_logs, is_deep_link_text,
    single_instance_deep_link, startup_deep_link, LogBuffer, LogLevel, LOG_BUFFER_SIZE,
};

fn s(x: &str) -> String {
    x.to_string()
}

#[test]
fn buffer_keeps_the_latest_lines() {
    let mut b = LogBuffer::new();
    for i in 0..(LOG_BUFFER_SIZE + 3) {
        add_to_log_buffer(&mut b, &format!("line {}", i));
    }
    assert_eq!(b.len(), LOG_BUFFER_SIZE);
    let (lines, n) = get_logs(&b, None);
    assert_eq!(n, 500);
    assert_eq!(lines.len(), 500);
    assert_eq!(lines[0], "line 3");
    assert_eq!(lines[499], "line 502");
}

#[test]
fn buffer_below_capacity_keeps_everything() {
    let mut b = LogBuffer::new();
    add_to_log_buffer(&mut b, "a");
    add_to_log_buffer(&mut b, "b");
    assert_eq!(get_logs(&b, None), (vec![s("a"), s("b")], 2));
}

#[test]
fn get_logs_starts_at_the_index() {
    let mut b = LogBuffer::new();
    for t in ["a", "b", "c"] {
        add_to_log_buffer(&mut b, t);
    }
    assert_eq!(get_logs(&b, Some(1)), (vec![s("b"), s("c")], 3));
    assert_eq!(get_logs(&b, Some(3)), (vec![], 3));
    assert_eq!(get_logs(&b, Some(100)), (vec![], 3));
    assert_eq!(get_logs(&LogBuffer::new(), Some(0)), (vec![], 0));
}

#[test]
fn formats_ui_lines() {
    let now = 2 * 86400 + 3600 + 60 + 1;
    assert_eq!(format_log_line(now, 7, LogLevel::Info, "hello"), "[01:01:01.007] INFO hello");
    assert_eq!(format_log_line(86399, 999, LogLevel::Error, "x"), "[23:59:59.999] ERROR x");
    assert_eq!(format_log_line(0, 0, LogLevel::Warn, ""), "[00:00:00.000] WARN ");
    assert_eq!(format_log_line(45296, 1234, LogLevel::Trace, "t"), "[12:34:56.1234] TRACE t");
    assert_eq!(format_log_line(u64::MAX, 1, LogLevel::Debug, "m"), format!("[{:02}:{:02}:{:02}.001] DEBUG m", (u64::MAX % 86400) / 3600, (u64::MAX % 3600) / 60, u64::MAX % 60));
}

#[test]
fn formats_file_lines() {
    assert_eq!(format_file_line(1700000000, "msg"), "[1700000000] msg");
    assert_eq!(format_file_line(0, ""), "[0] ");
}

#[test]
fn levels_up_to_info_are_shown() {
    assert!(LogLevel::Error.enabled());
    assert!(LogLevel::Warn.enabled());
    assert!(LogLevel::Info.enabled());
    assert!(!LogLevel::Debug.enabled());
    assert!(!LogLevel::Trace.enabled());
    assert!(LogLevel::Warn.to_stderr());
    assert!(!LogLevel::Info.to_stderr());
    assert_eq!(LogLevel::Debug.label(), "DEBUG");
}

#[test]
fn finds_startup_deep_links() {
    let args = vec![s("ple7://self"), s("--flag"), s("ple7://join/abc"), s("ple7://second")];
    assert_eq!(startup_deep_link(&args), Some(s("ple7://join/abc")));
    assert_eq!(startup_deep_link(&vec![s("app"), s("other")]), None);
    assert_eq!(startup_deep_link(&vec![]), None);
}

#[test]
fn finds_single_instance_deep_links() {
    assert_eq!(single_instance_deep_link(&vec![s("app"), s("ple7://x")]), Some(s("ple7://x")));
    assert_eq!(single_instance_deep_link(&vec![s("app"), s("-v"), s("ple7://x")]), None);
    assert_eq!(single_instance_deep_link(&vec![s("ple7://x")]), None);
    assert!(is_deep_link_text("ple7://"));
    assert!(!is_deep_link_text("PLE7://a"));
}

#[test]
fn polling_from_the_last_index_yields_the_new_lines() {
    let mut b = LogBuffer::new();
    add_to_log_buffer(&mut b, "old");
    let (_, i) = get_logs(&b, None);
    add_to_log_buffer(&mut b, "m1");
    add_to_log_buffer(&mut b, "m2");
    assert_eq!(get_logs(&b, Some(i)), (vec![s("m1"), s("m2")], i + 2));
}
