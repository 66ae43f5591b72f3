use symon_core::alerts::{evaluate, Alert, MonitorConfig};
use symon_core::clock::get_timestamp;
use symon_core::collector::{snapshot_from, RawReadings};
use symon_core::log::frame_record;
use symon_core::runner::{MonitorLoop, Phase, StopReason, TickEnd, TickStart};
use symon_core::stats::{pressure_score, BasicSystemInfo, CpuStats, MemoryStats, SystemStats};
use symon_core::text::{
    field_text, get_cpu_temperature, get_system_uptime, load_average_fields, uptime_field, LoadAverage,
};

fn stats_with(usage: u64, used: u64, total: u64, temp: i32) -> SystemStats {
    SystemStats {
        timestamp: 1,
        cpu: CpuStats { usage_hundredths: usage, cores: 4, temperature_millicelsius: temp, load_avg: None },
        memory: MemoryStats::from_counters(total, used, 0, 0, 0),
        system_info: BasicSystemInfo { hostname: String::from("host"), uptime: 0 },
    }
}

fn config_with(cpu: i64, mem: i64, temp: i64) -> MonitorConfig {
    MonitorConfig {
        cpu_threshold: cpu,
        memory_threshold: mem,
        temperature_threshold: temp,
        ..MonitorConfig::default()
    }
}

#[test]
fn cpu_equal_to_threshold_does_not_alert() {
    let cfg = config_with(9000, 10000, 100000);
    assert!(evaluate(&stats_with(9000, 1, 100, 0), &cfg).is_empty());
    assert_eq!(evaluate(&stats_with(9010, 1, 100, 0), &cfg), vec![Alert::HighCpu(9010)]);
}

#[test]
fn memory_alert_compares_the_exact_ratio() {
    let cfg = config_with(10000, 8500, 100000);
    assert!(evaluate(&stats_with(0, 85, 100, 0), &cfg).is_empty());
    assert_eq!(evaluate(&stats_with(0, 86, 100, 0), &cfg), vec![Alert::HighMemory(8600)]);
    // 2/3 = 66.66..% is above 66.66 %, though its rounded-down pressure is not.
    let cfg = config_with(10000, 6666, 100000);
    assert_eq!(evaluate(&stats_with(0, 2, 3, 0), &cfg), vec![Alert::HighMemory(6666)]);
}

#[test]
fn temperature_alert_is_strict() {
    let cfg = config_with(10000, 10000, 80000);
    assert!(evaluate(&stats_with(0, 1, 100, 80000), &cfg).is_empty());
    assert_eq!(evaluate(&stats_with(0, 1, 100, 80001), &cfg), vec![Alert::HighTemperature(80001)]);
}

#[test]
fn all_alerts_come_in_order() {
    let cfg = config_with(-100, -100, -100000);
    assert_eq!(
        evaluate(&stats_with(0, 0, 100, 0), &cfg),
        vec![Alert::HighCpu(0), Alert::HighMemory(0), Alert::HighTemperature(0)]
    );
}

#[test]
fn default_config_values() {
    let cfg = MonitorConfig::default();
    assert_eq!(cfg.interval, 5);
    assert_eq!(cfg.duration, 0);
    assert_eq!(cfg.cpu_threshold, 9000);
    assert_eq!(cfg.memory_threshold, 8500);
    assert_eq!(cfg.temperature_threshold, 80000);
    assert!(cfg.enable_alerts);
    assert_eq!(cfg.log_file, "system_monitor.log");
}

#[test]
fn temperature_readings() {
    assert_eq!(get_cpu_temperature(Some(b"45000\n")), 45000);
    assert_eq!(get_cpu_temperature(Some(b"  -1500 ")), -1500);
    assert_eq!(get_cpu_temperature(Some(b"+20")), 20);
    assert_eq!(get_cpu_temperature(Some(b"abc")), 0);
    assert_eq!(get_cpu_temperature(Some(b"")), 0);
    assert_eq!(get_cpu_temperature(Some(b"3000000000")), 0);
    assert_eq!(get_cpu_temperature(Some(b"-2147483648")), i32::MIN);
    assert_eq!(get_cpu_temperature(None), 0);
    assert_eq!(get_cpu_temperature(Some(b"\x0b5")), 5);
    assert_eq!(get_cpu_temperature(Some("\u{a0}42000\u{3000}\n".as_bytes())), 42000);
}

#[test]
fn load_average_fields_are_the_first_three() {
    assert_eq!(
        load_average_fields(Some(b"0.52 0.58 0.59 1/123 4567\n")),
        Some((b"0.52".to_vec(), b"0.58".to_vec(), b"0.59".to_vec()))
    );
    assert_eq!(
        load_average_fields(Some(b"+1\x0b1e0\xc2\xa01")),
        Some((b"+1".to_vec(), b"1e0".to_vec(), b"1".to_vec()))
    );
    assert_eq!(load_average_fields(Some(b"0.52 0.58")), None);
    assert_eq!(load_average_fields(Some(b"   ")), None);
    assert_eq!(load_average_fields(None), None);
}

#[test]
fn uptime_field_and_seconds() {
    assert_eq!(uptime_field(Some(b"12345.67 54321.00\n")), Some(b"12345.67".to_vec()));
    assert_eq!(uptime_field(Some("\u{3000}+5 1".as_bytes())), Some(b"+5".to_vec()));
    assert_eq!(uptime_field(Some(b"")), None);
    assert_eq!(uptime_field(None), None);
    assert_eq!(get_system_uptime(Some(12345)), 12345);
    assert_eq!(get_system_uptime(None), 0);
}

#[test]
fn fields_split_on_unicode_whitespace() {
    let text = "a\u{2003}b\u{0085}c\u{205f}d\u{1680}e\u{2029}f".as_bytes();
    let expected = ["a", "b", "c", "d", "e", "f"];
    for (k, want) in expected.iter().enumerate() {
        assert_eq!(field_text(text, k), Some(want.as_bytes().to_vec()));
    }
    assert_eq!(field_text(text, 6), None);
    // U+200B lies outside the whitespace set and stays inside its field.
    assert_eq!(field_text("x\u{200b}y z".as_bytes(), 0), Some("x\u{200b}y".as_bytes().to_vec()));
}

#[test]
fn cpu_usage_is_the_mean_of_capped_readings() {
    let c = CpuStats::from_readings(&vec![5000, 7000], 0, None);
    assert_eq!(c.usage_hundredths, 6000);
    assert_eq!(c.cores, 2);
    let c = CpuStats::from_readings(&vec![12000, 0], 0, None);
    assert_eq!(c.usage_hundredths, 5000);
    let c = CpuStats::from_readings(&vec![10000, 10000, 10000], 1, None);
    assert_eq!(c.usage_hundredths, 10000);
    assert!(c.usage_hundredths <= 10000 && c.cores >= 1);
}

#[test]
fn memory_pressure_values() {
    assert_eq!(pressure_score(50, 200), 2500);
    assert_eq!(pressure_score(1, 3), 3333);
    assert_eq!(pressure_score(300, 200), 15000);
    assert_eq!(pressure_score(0, 0), 0);
    let m = MemoryStats::from_counters(1000, 400, 600, 50, 5);
    assert_eq!(m.pressure_hundredths, 4000);
    assert!(m.used <= m.total);
    assert_eq!((m.available, m.swap_total, m.swap_used), (600, 50, 5));
}

#[test]
fn records_are_single_lines() {
    let r = frame_record(b"{\"timestamp\":1}").unwrap();
    assert_eq!(r, b"{\"timestamp\":1}\n".to_vec());
    assert_eq!(frame_record(b"a\nb"), None);
    let mut log: Vec<u8> = Vec::new();
    for k in 0..7u32 {
        let payload = format!("{{\"tick\":{}}}", k);
        log.extend(frame_record(payload.as_bytes()).unwrap());
    }
    let text = String::from_utf8(log).unwrap();
    let lines: Vec<&str> = text.lines().collect();
    assert_eq!(lines.len(), 7);
    assert_eq!(text.matches('\n').count(), 7);
    assert_eq!(lines[3], "{\"tick\":3}");
}

#[test]
fn stop_request_exits_before_work() {
    let mut l = MonitorLoop::new(&MonitorConfig::default());
    assert_eq!(l.phase, Phase::Idle);
    assert_eq!(l.begin_tick(false), TickStart::Exit);
    l.start();
    assert_eq!(l.begin_tick(false), TickStart::Proceed { tick: 1, evaluate_alerts: true });
    assert_eq!(l.end_tick(true, 100), TickEnd::Sleep(5));
    assert_eq!(l.begin_tick(true), TickStart::Exit);
    assert_eq!(l.phase, Phase::Stopped);
    assert_eq!(l.stop_reason, Some(StopReason::Requested));
    assert_eq!(l.ticks, 1);
}

#[test]
fn disabled_alerts_are_never_evaluated() {
    let cfg = MonitorConfig { enable_alerts: false, duration: 0, ..MonitorConfig::default() };
    let mut l = MonitorLoop::new(&cfg);
    l.start();
    for _ in 0..20 {
        match l.begin_tick(false) {
            TickStart::Proceed { evaluate_alerts, .. } => assert!(!evaluate_alerts),
            TickStart::Exit => panic!("loop left early"),
        }
        assert_eq!(l.end_tick(true, 0), TickEnd::Sleep(5));
    }
}

#[test]
fn duration_gives_at_least_ceil_ticks() {
    let cfg = MonitorConfig { interval: 3, duration: 10, ..MonitorConfig::default() };
    let mut l = MonitorLoop::new(&cfg);
    l.start();
    let mut ticks: u64 = 0;
    loop {
        match l.begin_tick(false) {
            TickStart::Proceed { tick, .. } => ticks = tick,
            TickStart::Exit => break,
        }
        match l.end_tick(true, (ticks - 1) * 3) {
            TickEnd::Sleep(s) => assert_eq!(s, 3),
            TickEnd::Exit(reason) => {
                assert_eq!(reason, StopReason::DurationElapsed);
                break;
            }
        }
    }
    assert!(ticks >= 4);
    assert_eq!(l.phase, Phase::Stopped);
}

#[test]
fn log_failure_ends_the_run() {
    let mut l = MonitorLoop::new(&MonitorConfig::default());
    l.start();
    assert!(matches!(l.begin_tick(false), TickStart::Proceed { .. }));
    assert_eq!(l.end_tick(false, 0), TickEnd::Exit(StopReason::LogFailed));
    assert_eq!(l.begin_tick(false), TickStart::Exit);
}

#[test]
fn snapshot_with_missing_sources() {
    let raw = RawReadings {
        core_usages: vec![2000, 4000, 6000],
        thermal: None,
        load_average: None,
        total_memory: 8000,
        used_memory: 2000,
        available_memory: 6000,
        total_swap: 0,
        used_swap: 0,
        hostname: None,
        uptime: None,
    };
    let s = snapshot_from(77, &raw);
    assert_eq!(s.timestamp, 77);
    assert_eq!(s.cpu.usage_hundredths, 4000);
    assert_eq!(s.cpu.cores, 3);
    assert_eq!(s.cpu.temperature_millicelsius, 0);
    assert_eq!(s.cpu.load_avg, None);
    assert_eq!(s.memory.pressure_hundredths, 2500);
    assert_eq!(s.system_info.hostname, "");
    assert_eq!(s.system_info.uptime, 0);
}

#[test]
fn snapshot_with_all_sources() {
    let raw = RawReadings {
        core_usages: vec![9000],
        thermal: Some(b"51234\n".to_vec()),
        load_average: Some(LoadAverage { one: 100, five: 75, fifteen: 50 }),
        total_memory: 100,
        used_memory: 100,
        available_memory: 0,
        total_swap: 10,
        used_swap: 1,
        hostname: Some(String::from("box")),
        uptime: Some(99),
    };
    let s = snapshot_from(5, &raw);
    assert_eq!(s.cpu.temperature_millicelsius, 51234);
    assert_eq!(s.cpu.load_avg, Some(LoadAverage { one: 100, five: 75, fifteen: 50 }));
    assert_eq!(s.memory.pressure_hundredths, 10000);
    assert_eq!(s.system_info.hostname, "box");
    assert_eq!(s.system_info.uptime, 99);
}

#[test]
fn timestamp_is_after_the_epoch() {
    assert!(get_timestamp() > 0);
}
