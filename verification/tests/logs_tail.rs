use smos::logs::{
    build_log_tail, check_max_lines, choose_service_log_path, source_info, split_lines,
    tail_lines, tail_window_start, LogError, SERVICE_LOG_ID,
};

#[test]
fn tail_reads_recent_lines_from_real_file() {
    let mut content = String::new();
    for i in 0..50 {
        content.push_str(&format!("line-{i}\n"));
    }
    let lines = tail_lines(split_lines(&content), false, 10);
    assert_eq!(lines.len(), 10);
    assert_eq!(lines[0], "line-40");
    assert_eq!(lines[9], "line-49");
}

#[test]
fn split_lines_matches_std() {
    for text in ["", "a", "a\n", "a\nb", "a\r\nb\r\n", "\n\n", "x\r", "a\n\rb", "é\nü"] {
        let ours = split_lines(text);
        let std: Vec<String> = text.lines().map(|s| s.to_string()).collect();
        assert_eq!(ours, std, "{text:?}");
    }
}

#[test]
fn tail_drops_partial_first_line() {
    let lines = vec!["partial".to_string(), "a".to_string(), "b".to_string()];
    assert_eq!(tail_lines(lines.clone(), true, 10), vec!["a", "b"]);
    assert_eq!(tail_lines(lines.clone(), false, 2), vec!["a", "b"]);
    assert_eq!(tail_lines(lines, false, 0), Vec::<String>::new());
    assert_eq!(tail_window_start(10), 0);
    assert_eq!(tail_window_start(3 * 1024 * 1024), 2 * 1024 * 1024);
}

#[test]
fn tail_request_limits() {
    assert_eq!(check_max_lines(0), Err(LogError::MaxLines));
    assert_eq!(check_max_lines(50_001), Err(LogError::MaxLines));
    assert!(check_max_lines(1).is_ok());
    assert!(check_max_lines(50_000).is_ok());
    let t = build_log_tail(SERVICE_LOG_ID, "/x", vec!["a".into(), "b".into()], 2, 7);
    assert_eq!((t.line_count, t.truncated, t.timestamp), (2, true, 7));
    let t = build_log_tail("other", "/x", vec!["a".into()], 5, 7);
    assert!(!t.truncated);
    assert_eq!(t.source_id, "other");
}

#[test]
fn source_info_and_service_path() {
    let i = source_info("id", "label", "/p", Some(12));
    assert!(i.exists);
    assert_eq!(i.size_bytes, Some(12));
    let j = source_info("id", "label", "/p", None);
    assert!(!j.exists);
    assert_eq!(choose_service_log_path("r".into(), true, "l".into(), true), "r");
    assert_eq!(choose_service_log_path("r".into(), false, "l".into(), true), "l");
    assert_eq!(choose_service_log_path("r".into(), false, "l".into(), false), "r");
}
