use super_route_pro::{
    effective_timeout, jobs_from_trimmed, plan_scan, probe_result_from_failure,
    probe_result_from_output, sanitize_targets, summarize, worker_count, FpingHostResult,
    JobQueue, ResultBoard, ScanError,
};

fn host(target: &str, success: bool, latency_ms: u32) -> FpingHostResult {
    FpingHostResult {
        target: target.to_string(),
        success,
        latency_ms,
        output: String::new(),
    }
}

fn strings(items: &[&str]) -> Vec<String> {
    items.iter().map(|s| s.to_string()).collect()
}

#[test]
fn timeout_is_clamped_and_defaulted() {
    assert_eq!(effective_timeout(Some(50)), 200);
    assert_eq!(effective_timeout(Some(20000)), 10000);
    assert_eq!(effective_timeout(None), 1200);
    assert_eq!(effective_timeout(Some(200)), 200);
    assert_eq!(effective_timeout(Some(10000)), 10000);
    assert_eq!(effective_timeout(Some(750)), 750);
}

#[test]
fn worker_count_follows_jobs_cap_and_parallelism() {
    assert_eq!(worker_count(50, 4), 4);
    assert_eq!(worker_count(2, 4), 2);
    assert_eq!(worker_count(100, 64), 24);
    assert_eq!(worker_count(5, 0), 1);
    assert_eq!(worker_count(0, 8), 0);
}

#[test]
fn scenario_mixed_blank_targets() {
    let plan = plan_scan(strings(&["127.0.0.1", "", "  ", "10.255.255.1"]), Some(500)).unwrap();
    assert_eq!(plan.timeout_ms, 500);
    assert_eq!(plan.jobs.len(), 2);
    assert_eq!(plan.jobs[0].index, 0);
    assert_eq!(plan.jobs[0].target, "127.0.0.1");
    assert_eq!(plan.jobs[1].index, 1);
    assert_eq!(plan.jobs[1].target, "10.255.255.1");

    let mut board = ResultBoard::new(&plan.jobs);
    assert!(board.record(1, host("10.255.255.1", false, 0)));
    assert!(board.record(0, host("127.0.0.1", true, 1)));
    let report = board.into_report();
    assert_eq!(report.sent, 2);
    assert_eq!(report.received, 1);
    assert_eq!(report.hosts[0].target, "127.0.0.1");
    assert_eq!(report.hosts[1].target, "10.255.255.1");
}

#[test]
fn empty_target_list_is_invalid_input() {
    let r = plan_scan(Vec::new(), None);
    assert!(matches!(r, Err(ScanError::InvalidInput)));
    let r = plan_scan(strings(&["", "   ", "\t"]), Some(300));
    assert!(matches!(r, Err(ScanError::InvalidInput)));
    assert_eq!(ScanError::InvalidInput.message(), "No targets provided");
}

#[test]
fn sanitizer_caps_at_128_and_drops_blanks() {
    let mut raw: Vec<String> = Vec::new();
    for i in 0..130 {
        if i % 10 == 3 {
            raw.push("   ".to_string());
        } else if i % 7 == 0 {
            raw.push("dup.example".to_string());
        } else {
            raw.push(format!("  host{}  ", i));
        }
    }
    let jobs = sanitize_targets(&raw);
    assert!(jobs.len() <= 128);
    assert!(jobs.iter().all(|j| !j.target.trim().is_empty()));
    for (k, j) in jobs.iter().enumerate() {
        assert_eq!(j.index, k);
    }
    assert_eq!(jobs[0].target, "dup.example");
    assert_eq!(jobs[1].target, "host1");

    let many: Vec<String> = (0..140).map(|i| format!("h{}", i)).collect();
    let jobs = sanitize_targets(&many);
    assert_eq!(jobs.len(), 128);
    assert_eq!(jobs[127].target, "h127");
}

#[test]
fn sanitizer_keeps_duplicates_and_trims() {
    let jobs = sanitize_targets(&strings(&[" a ", "a", "\tb\n"]));
    assert_eq!(jobs.len(), 3);
    assert_eq!(jobs[0].target, "a");
    assert_eq!(jobs[1].target, "a");
    assert_eq!(jobs[2].target, "b");
}

#[test]
fn jobs_from_trimmed_skips_empty_entries() {
    let jobs = jobs_from_trimmed(&strings(&["", "x", "", "y"]));
    assert_eq!(jobs.len(), 2);
    assert_eq!((jobs[0].index, jobs[0].target.as_str()), (0, "x"));
    assert_eq!((jobs[1].index, jobs[1].target.as_str()), (1, "y"));
}

#[test]
fn queue_hands_out_jobs_in_order() {
    let plan = plan_scan(strings(&["a", "b", "c"]), None).unwrap();
    let mut queue = JobQueue::new(plan.jobs);
    assert_eq!(queue.remaining(), 3);
    let order: Vec<String> = std::iter::from_fn(|| queue.pop_next().map(|j| j.target)).collect();
    assert_eq!(order, vec!["a", "b", "c"]);
    assert!(queue.pop_next().is_none());
    assert_eq!(queue.remaining(), 0);
}

#[test]
fn report_order_ignores_completion_order() {
    let plan = plan_scan(strings(&["h0", "h1", "h2", "h3", "h4"]), None).unwrap();
    let mut board = ResultBoard::new(&plan.jobs);
    for &i in &[3usize, 0, 4, 2, 1] {
        assert!(board.record(i, host(&format!("h{}", i), true, 10 * i as u32)));
    }
    let report = board.into_report();
    let targets: Vec<&str> = report.hosts.iter().map(|h| h.target.as_str()).collect();
    assert_eq!(targets, vec!["h0", "h1", "h2", "h3", "h4"]);
    assert_eq!(report.sent, 5);
}

#[test]
fn board_rejects_bad_records() {
    let plan = plan_scan(strings(&["a", "b"]), None).unwrap();
    let mut board = ResultBoard::new(&plan.jobs);
    assert!(!board.record(2, host("a", true, 1)));
    assert!(!board.record(0, host("b", true, 1)));
    assert!(board.record(0, host("a", true, 1)));
    assert!(!board.record(0, host("a", false, 0)));
    let report = board.into_report();
    assert_eq!(report.sent, 1);
    assert!(report.hosts[0].success);
}

#[test]
fn report_counts_match_hosts() {
    let hosts = vec![host("a", true, 10), host("b", false, 0), host("c", true, 15), host("d", true, 30)];
    let report = summarize(hosts);
    assert_eq!(report.sent, 4);
    assert_eq!(report.hosts.len(), 4);
    assert_eq!(report.received, report.hosts.iter().filter(|h| h.success).count() as u32);
    assert_eq!(report.received, 3);
    assert!(report.received <= report.sent);
    assert_eq!(report.min_ms, 10);
    assert_eq!(report.max_ms, 30);
    assert_eq!(report.avg_ms, 18);
}

#[test]
fn latency_stats_ignore_failed_hosts() {
    let report = summarize(vec![host("a", false, 500), host("b", true, 7)]);
    assert_eq!((report.min_ms, report.avg_ms, report.max_ms), (7, 7, 7));
}

#[test]
fn no_reply_gives_zero_latencies() {
    let report = summarize(vec![host("a", false, 40), host("b", false, 3)]);
    assert_eq!(report.received, 0);
    assert_eq!((report.min_ms, report.avg_ms, report.max_ms), (0, 0, 0));
    let empty = summarize(Vec::new());
    assert_eq!((empty.sent, empty.received, empty.min_ms, empty.avg_ms, empty.max_ms), (0, 0, 0, 0, 0));
}

#[test]
fn large_latencies_do_not_overflow_the_mean() {
    let report = summarize(vec![host("a", true, u32::MAX), host("b", true, u32::MAX - 1)]);
    assert_eq!(report.avg_ms, u32::MAX - 1);
    assert_eq!(report.max_ms, u32::MAX);
}

#[test]
fn probe_results_are_built_from_output() {
    let out = "Pinging 127.0.0.1 with 32 bytes of data:\r\nReply from 127.0.0.1: bytes=32 time=37ms TTL=128\r\n";
    let r = probe_result_from_output("127.0.0.1".to_string(), out.to_string());
    assert!(r.success);
    assert_eq!(r.latency_ms, 37);
    assert_eq!(r.target, "127.0.0.1");
    assert_eq!(r.output, out);

    let r = probe_result_from_output("10.255.255.1".to_string(), "Request timed out.\r\n".to_string());
    assert!(!r.success);
    assert_eq!(r.latency_ms, 0);

    let r = probe_result_from_failure("x".to_string(), "program not found");
    assert!(!r.success);
    assert_eq!(r.latency_ms, 0);
    assert_eq!(r.output, "Ping failed: program not found");
}
