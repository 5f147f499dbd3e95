use rnit::proc::stat::{
    page_size_from_sysconf, parse_stat_content, pid_of_entry, process_tick_deltas,
    stat_content_readable, system_ticks_fit, total_system_ticks, RawSnapshot,
};

fn create_stat_string(name: &str, state: char, rss_pages: u64) -> String {
    format!(
        "1234 ({}) {} 0 0 0 0 0 0 0 0 0 0 0 0 0 0 0 0 0 0 0 0 {} 0 0",
        name, state, rss_pages
    )
}

fn snapshot(pid: u32, ticks: u64) -> RawSnapshot {
    RawSnapshot { pid, name: format!("p{}", pid), state: 'S', rss: 0, total_ticks: ticks }
}

#[test]
fn test_parse_standard_process() {
    let content = create_stat_string("systemd", 'S', 500);
    let info = parse_stat_content(1234, &content, 4096).unwrap();

    assert_eq!(info.pid, 1234);
    assert_eq!(info.name, "systemd");
    assert_eq!(info.state, 'S');
    assert_eq!(info.rss, 500 * 4096);
}

#[test]
fn test_parse_process_name_with_spaces() {
    let content = create_stat_string("kworker/u4:2", 'I', 0);
    let info = parse_stat_content(1234, &content, 4096).unwrap();

    assert_eq!(info.name, "kworker/u4:2");
    assert_eq!(info.state, 'I');
}

#[test]
fn test_parse_process_name_with_parentheses() {
    let content = create_stat_string("worker (1)", 'R', 100);
    let info = parse_stat_content(1234, &content, 1024).unwrap();

    assert_eq!(info.name, "worker (1)");
    assert_eq!(info.state, 'R');
    assert_eq!(info.rss, 100 * 1024);
}

#[test]
fn test_parse_missing_rss_field() {
    let content = "1234 (short_proc) S 0 0";
    let info = parse_stat_content(1234, content, 4096).unwrap();

    assert_eq!(info.rss, 0);
}

#[test]
fn test_parse_malformed_no_parentheses() {
    let content = "1234 no_parens_here S 0 0 0";
    assert!(parse_stat_content(1234, content, 4096).is_none());
}

#[test]
fn test_parse_zero_rss() {
    let content = create_stat_string("kthreadd", 'S', 0);
    let info = parse_stat_content(2, &content, 4096).unwrap();

    assert_eq!(info.rss, 0);
}

#[test]
fn test_cpu_percentage_calculation() {
    let proc_delta = 20u64;
    let sys_delta = 800u64;
    let num_cores = 8.0f64;

    let sys_delta_per_core = sys_delta as f64 / num_cores;
    let raw_pct = (proc_delta as f64 / sys_delta_per_core) * 100.0;

    assert_eq!(raw_pct, 20.0);
}

#[test]
fn parse_reads_ticks_and_odd_fields() {
    // Fields after the name: state(0) ... utime(11) stime(12) ... rss(21).
    let content = "7 (a b) R 1 2 3 4 5 6 7 8 9 10 120 30 0 0 0 0 0 0 0 0 9 1";
    let info = parse_stat_content(7, content, 100).unwrap();
    assert_eq!(info.total_ticks, 150);
    assert_eq!(info.rss, 900);
    assert_eq!(info.name, "a b");
    // Unparsable numbers count as zero; a missing state is '?'.
    let info = parse_stat_content(9, "9 (x) R 0 0 0 0 0 0 0 0 0 0 zz -3 0 0 0 0 0 0 0 0 +4", 10).unwrap();
    assert_eq!(info.total_ticks, 0);
    assert_eq!(info.rss, 40);
    let info = parse_stat_content(9, "9 (x)   ", 10).unwrap();
    assert_eq!(info.state, '?');
    assert_eq!(info.total_ticks, 0);
    let info = parse_stat_content(9, "9 ()\u{3000}Z", 10).unwrap();
    assert_eq!(info.name, "");
    assert_eq!(info.state, 'Z');
}

#[test]
fn stat_readable_checks() {
    assert!(stat_content_readable("1 (a) S", 4096));
    assert!(stat_content_readable("no parens", 4096));
    assert!(!stat_content_readable("1 )x( S", 4096));
    let big = "1 (a) S 0 0 0 0 0 0 0 0 0 0 18446744073709551615 1 0 0 0 0 0 0 0 0 1";
    assert!(!stat_content_readable(big, 1));
    let huge_rss = "1 (a) S 0 0 0 0 0 0 0 0 0 0 0 0 0 0 0 0 0 0 0 0 18446744073709551615";
    assert!(!stat_content_readable(huge_rss, 2));
    assert!(stat_content_readable(huge_rss, 1));
}

#[test]
fn total_ticks_of_proc_stat() {
    let content = "cpu  10 20 30 x 40\ncpu0 1 2 3\n";
    assert_eq!(total_system_ticks(content), Some(100));
    assert_eq!(total_system_ticks(""), None);
    assert_eq!(total_system_ticks("\nsecond 5"), Some(0));
    assert_eq!(total_system_ticks("cpu"), Some(0));
    assert!(system_ticks_fit(content));
    assert!(!system_ticks_fit("cpu 18446744073709551615 1"));
}

#[test]
fn pids_and_page_size() {
    assert_eq!(pid_of_entry("1234"), Some(1234));
    assert_eq!(pid_of_entry("+7"), Some(7));
    assert_eq!(pid_of_entry("self"), None);
    assert_eq!(pid_of_entry(""), None);
    assert_eq!(pid_of_entry("4294967296"), None);
    assert_eq!(pid_of_entry("-1"), None);
    assert_eq!(page_size_from_sysconf(16384), 16384);
    assert_eq!(page_size_from_sysconf(-1), 4096);
    assert_eq!(page_size_from_sysconf(0), 4096);
}

#[test]
fn tick_deltas_use_last_sample_of_a_pid() {
    let before = vec![snapshot(1, 100), snapshot(2, 50), snapshot(1, 120)];
    let after = vec![snapshot(1, 150), snapshot(2, 40), snapshot(3, 10)];
    assert_eq!(process_tick_deltas(&before, &after), vec![Some(30), Some(0), None]);
}
