use smos::history::{
    downsample_indices, history_dir, is_service_log_name, log_expired, log_file_expired,
    metrics_history_path, prune_plan, sort_names_desc, query_indices, retention_cutoff, total_bytes,
    utc_day_number, window_indices, NANOS_PER_DAY,
};

#[test]
fn downsample_limits_points() {
    // 100 samples appended in order; sample i carries cpu i.
    let times: Vec<i128> = (0..100).map(|i| 1_000 - i as i128).collect();
    let cpu: Vec<f32> = (0..100).map(|i| i as f32).collect();
    let q = query_indices(&times, None, None, 10);
    assert_eq!(q.len(), 10);
    // First and last preserved
    assert_eq!(cpu[*q.first().unwrap()], 0.0);
    assert_eq!(cpu[*q.last().unwrap()], 99.0);
}

#[test]
fn downsample_is_even_and_ordered() {
    assert_eq!(downsample_indices(10, 4), vec![0, 3, 6, 9]);
    assert_eq!(downsample_indices(5, 1), vec![4]);
    assert_eq!(downsample_indices(3, 5), vec![0, 1, 2]);
    assert_eq!(downsample_indices(3, 0), vec![0, 1, 2]);
    let d = downsample_indices(1000, 7);
    assert_eq!(d.len(), 7);
    assert!(d.windows(2).all(|w| w[0] < w[1]));
    assert_eq!((d[0], d[6]), (0, 999));
}

#[test]
fn window_bounds_are_inclusive() {
    let times = vec![10, 20, 30, 40];
    assert_eq!(window_indices(&times, Some(20), Some(30)), vec![1, 2]);
    assert_eq!(window_indices(&times, None, Some(10)), vec![0]);
    assert_eq!(window_indices(&times, Some(41), None), Vec::<usize>::new());
    assert_eq!(query_indices(&times, Some(15), None, 0), vec![1, 2, 3]);
}

#[test]
fn prune_drops_old_and_unreadable() {
    let now: i128 = 100 * NANOS_PER_DAY;
    let cutoff = retention_cutoff(now, 1);
    assert_eq!(cutoff, 99 * NANOS_PER_DAY);
    assert_eq!(retention_cutoff(now, 0), cutoff);
    assert_eq!(retention_cutoff(now, 30), 70 * NANOS_PER_DAY);
    let times = vec![Some(95 * NANOS_PER_DAY), None, Some(cutoff), Some(now)];
    let (kept, removed) = prune_plan(&times, cutoff);
    assert_eq!(kept, vec![2, 3]);
    assert_eq!(removed, 2);
}

#[test]
fn day_numbers_match_chrono() {
    assert_eq!(utc_day_number(0), 719_163);
    assert_eq!(utc_day_number(86_399), 719_163);
    assert_eq!(utc_day_number(86_400), 719_164);
    assert_eq!(utc_day_number(-1), 719_162);
    assert_eq!(utc_day_number(-86_400), 719_162);
    assert_eq!(utc_day_number(-86_401), 719_161);
    // the date in a rotated name is read as a day number of the same scale
    assert!(log_file_expired("smos.log.1970-01-01", None, 719_164, 0));
    assert!(!log_file_expired("smos.log.1970-01-01", None, 719_163, 0));
    assert!(log_file_expired("smos.log.2020-01-01", None, 737_426, 0));
    assert!(!log_file_expired("smos.log.2020-01-01", None, 737_425, 0));
    // a suffix that is no date falls back to the modification time
    assert!(!log_file_expired("smos.log.not-a-date", None, 800_000, 0));
}

#[test]
fn rotated_log_expiry() {
    let cutoff_day = 738_895; // 2024-01-10
    assert!(log_file_expired("smos.log.2020-01-01", None, cutoff_day, 0));
    assert!(!log_file_expired("smos.log.2024-01-10", None, cutoff_day, 0));
    assert!(!log_file_expired("smos.log", Some(-1), cutoff_day, 0));
    // no date in the name: the modification time decides
    assert!(log_file_expired("smos.log.old", Some(5), cutoff_day, 10));
    assert!(!log_file_expired("smos.log.old", Some(10), cutoff_day, 10));
    assert!(!log_file_expired("smos.log.old", None, cutoff_day, 10));
    assert!(log_expired(Some(1), None, 2, 0));
}

#[test]
fn service_log_names() {
    assert!(is_service_log_name("smos.log"));
    assert!(is_service_log_name("smos.log.2020-01-01"));
    assert!(!is_service_log_name("smos.log.2020-01-01.tmp"));
    assert!(!is_service_log_name("smos.logx"));
    assert!(!is_service_log_name("audit.jsonl"));
}

#[test]
fn history_paths_and_sizes() {
    assert_eq!(history_dir("/d"), "/d/history");
    assert_eq!(metrics_history_path("/d"), "/d/history/metrics.jsonl");
    assert_eq!(total_bytes(&vec![1, 2, 3]), 6);
    assert_eq!(total_bytes(&vec![u64::MAX, 1]), u64::MAX);
    assert_eq!(total_bytes(&vec![]), 0);
}

#[test]
fn log_names_sort_descending() {
    let names: Vec<String> = ["smos.log", "smos.log.2020-01-01", "smos.log.2024-05-01", "smos.log.2021-12-31"]
        .iter()
        .map(|s| s.to_string())
        .collect();
    let order = sort_names_desc(&names);
    let sorted: Vec<&str> = order.iter().map(|&i| names[i].as_str()).collect();
    let mut expected: Vec<&str> = names.iter().map(|s| s.as_str()).collect();
    expected.sort_by(|a, b| b.cmp(a));
    assert_eq!(sorted, expected);
    assert_eq!(sort_names_desc(&vec!["b".into(), "é".into(), "a".into()]), vec![1, 0, 2]);
}
