use symon_core::procfs::{parse_meminfo, parse_proc_stat, CpuTimes};

#[test]
fn proc_stat_reads_the_aggregate_line() {
    let text = b"cpu  10 20 30 40 50 0 0\ncpu0 1 2 3 4 5\nintr 9\n";
    assert_eq!(
        parse_proc_stat(text),
        Some(CpuTimes { user: 10, nice: 20, system: 30, idle: 40, iowait: Some(50) })
    );
}

#[test]
fn proc_stat_without_iowait_and_with_bad_field() {
    let text = b"intr 5\ncpu 1 x 3 4\n";
    assert_eq!(
        parse_proc_stat(text),
        Some(CpuTimes { user: 1, nice: 0, system: 3, idle: 4, iowait: None })
    );
}

#[test]
fn proc_stat_needs_five_fields_and_a_cpu_line() {
    assert_eq!(parse_proc_stat(b"cpu 1 2 3\n"), None);
    assert_eq!(parse_proc_stat(b"cpu0 1 2 3 4\n"), None);
    assert_eq!(parse_proc_stat(b""), None);
}

#[test]
fn meminfo_entries_in_bytes() {
    let text = b"MemTotal:       16384 kB\nMemFree: 1024 kB\r\nHugePages_Total:       0\nBad line\n  Cached :  +2 kB\n";
    let entries = parse_meminfo(text);
    assert_eq!(
        entries,
        vec![
            (b"MemTotal".to_vec(), 16384 * 1024),
            (b"MemFree".to_vec(), 1024 * 1024),
            (b"Cached".to_vec(), 2048),
        ]
    );
}

#[test]
fn meminfo_skips_values_that_overflow() {
    assert!(parse_meminfo(b"Huge: 18446744073709551615 kB\n").is_empty());
    assert!(parse_meminfo(b"").is_empty());
}

#[test]
fn proc_stat_splits_on_vertical_tab() {
    assert_eq!(
        parse_proc_stat(b"cpu 1\x0b2 3 4 5\n"),
        Some(CpuTimes { user: 1, nice: 2, system: 3, idle: 4, iowait: Some(5) })
    );
}

#[test]
fn meminfo_key_trims_unicode_whitespace() {
    assert_eq!(parse_meminfo(b"\x0bFoo: 1 kB\n"), vec![(b"Foo".to_vec(), 1024)]);
    assert_eq!(
        parse_meminfo("\u{a0}Bar\u{2000}:\u{3000}2 kB\n".as_bytes()),
        vec![(b"Bar".to_vec(), 2048)]
    );
}

#[test]
fn meminfo_keeps_duplicate_entries_in_order() {
    let entries = parse_meminfo(b"A: 1 kB\nA: 2 kB\n");
    assert_eq!(entries, vec![(b"A".to_vec(), 1024), (b"A".to_vec(), 2048)]);
}
