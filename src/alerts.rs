//! Monitoring configuration and the threshold checks run on each snapshot.
use crate::stats::{pressure_of, SystemStats};
use vstd::prelude::*;

verus! {

/// Settings of one monitoring run. Thresholds are not range-checked: an
/// out-of-range value simply makes its alert fire on every tick.
#[derive(Clone, Debug)]
pub struct MonitorConfig {
    /// Seconds between ticks.
    pub interval: u64,
    /// Seconds after which the run stops by itself; 0 runs until stopped.
    pub duration: u64,
    /// CPU threshold, in hundredths of a percent.
    pub cpu_threshold: i64,
    /// Memory threshold, in hundredths of a percent.
    pub memory_threshold: i64,
    /// Temperature threshold, in millidegrees Celsius.
    pub temperature_threshold: i64,
    pub enable_alerts: bool,
    /// File the snapshots are appended to.
    pub log_file: String,
}

impl Default for MonitorConfig {
    fn default() -> (r: MonitorConfig)
        ensures
            r.interval == 5,
            r.duration == 0,
            r.cpu_threshold == 9000,
            r.memory_threshold == 8500,
            r.temperature_threshold == 80000,
            r.enable_alerts,
            r.log_file@ == "system_monitor.log"@,
    {
        MonitorConfig {
            interval: 5,
            duration: 0,
            cpu_threshold: 9000,
            memory_threshold: 8500,
            temperature_threshold: 80000,
            enable_alerts: true,
            log_file: String::from_str("system_monitor.log"),
        }
    }
}

/// A threshold breach found in one snapshot.
#[derive(Clone, Copy, Debug, PartialEq, Eq, Structural)]
pub enum Alert {
    /// CPU utilisation, in hundredths of a percent.
    HighCpu(u64),
    /// Memory pressure, in hundredths of a percent.
    HighMemory(u64),
    /// Temperature, in millidegrees Celsius.
    HighTemperature(i32),
}

/// Utilisation strictly above the threshold.
pub open spec fn cpu_high(stats: SystemStats, config: MonitorConfig) -> bool {
    stats.cpu.usage_hundredths as int > config.cpu_threshold as int
}

/// `used / total × 100` strictly above the threshold, compared exactly.
pub open spec fn memory_high(stats: SystemStats, config: MonitorConfig) -> bool {
    (stats.memory.used as int) * 10000 > (config.memory_threshold as int) * (stats.memory.total as int)
}

/// Temperature strictly above the threshold.
pub open spec fn temperature_high(stats: SystemStats, config: MonitorConfig) -> bool {
    stats.cpu.temperature_millicelsius as int > config.temperature_threshold as int
}

/// The alerts of one snapshot, in the order CPU, memory, temperature.
pub open spec fn alerts_of(stats: SystemStats, config: MonitorConfig) -> Seq<Alert> {
    let s0 = Seq::<Alert>::empty();
    let s1 = if cpu_high(stats, config) {
        s0.push(Alert::HighCpu(stats.cpu.usage_hundredths))
    } else {
        s0
    };
    let s2 = if memory_high(stats, config) {
        s1.push(Alert::HighMemory(pressure_of(stats.memory.used, stats.memory.total) as u64))
    } else {
        s1
    };
    if temperature_high(stats, config) {
        s2.push(Alert::HighTemperature(stats.cpu.temperature_millicelsius))
    } else {
        s2
    }
}

fn memory_above(used: u64, total: u64, threshold: i64) -> (r: bool)
    ensures
        r == ((used as int) * 10000 > (threshold as int) * (total as int)),
{
    let lhs: i128 = used as i128 * 10000i128;
    assert(-170141183460469231731687303715884105728 <= (threshold as int) * (total as int)
        <= 170141183460469231731687303715884105727) by (nonlinear_arith)
        requires
            -9223372036854775808 <= threshold <= 9223372036854775807,
            0 <= total <= 18446744073709551615,
    ;
    let rhs: i128 = threshold as i128 * total as i128;
    lhs > rhs
}

/// Compares one snapshot with the thresholds. Each comparison is strict:
/// a value equal to its threshold raises no alert.
pub fn evaluate(stats: &SystemStats, config: &MonitorConfig) -> (r: Vec<Alert>)
    ensures
        r@ == alerts_of(*stats, *config),
{
    let mut out: Vec<Alert> = Vec::new();
    if stats.cpu.usage_hundredths as i128 > config.cpu_threshold as i128 {
        out.push(Alert::HighCpu(stats.cpu.usage_hundredths));
    }
    if memory_above(stats.memory.used, stats.memory.total, config.memory_threshold) {
        out.push(Alert::HighMemory(crate::stats::pressure_score(stats.memory.used, stats.memory.total)));
    }
    if stats.cpu.temperature_millicelsius as i64 > config.temperature_threshold {
        out.push(Alert::HighTemperature(stats.cpu.temperature_millicelsius));
    }
    out
}

/// A CPU alert is raised exactly when utilisation is strictly above the
/// threshold; equality never alerts.
pub proof fn lemma_cpu_alert_iff_above(stats: SystemStats, config: MonitorConfig)
    ensures
        alerts_of(stats, config).contains(Alert::HighCpu(stats.cpu.usage_hundredths))
            <==> stats.cpu.usage_hundredths as int > config.cpu_threshold as int,
        stats.cpu.usage_hundredths as int == config.cpu_threshold as int ==> forall|a: Alert|
            #[trigger] alerts_of(stats, config).contains(a) ==> !(a is HighCpu),
{
    let s = alerts_of(stats, config);
    let a = Alert::HighCpu(stats.cpu.usage_hundredths);
    if cpu_high(stats, config) {
        assert(s[0] == a);
    } else {
        assert(forall|i: int| 0 <= i < s.len() ==> !(s[i] is HighCpu));
    }
}

} // verus!
