//! Assembly of one snapshot from the raw readings of the operating system.
use crate::stats::{mean_usage, pressure_of, BasicSystemInfo, CpuStats, MemoryStats, SystemStats};
use crate::text::{get_cpu_temperature, get_system_uptime, temperature_of, LoadAverage};
use vstd::prelude::*;

verus! {

/// What one refresh of the operating system's sources gave. Each source
/// that could not be read is `None`.
#[derive(Clone, Debug)]
pub struct RawReadings {
    /// Utilisation of each logical core, in hundredths of a percent.
    pub core_usages: Vec<u64>,
    /// Text of the thermal-zone source (millidegrees Celsius).
    pub thermal: Option<Vec<u8>>,
    /// Load averages read from the kernel load-average source (see
    /// `load_average_fields`); `None` when it could not be read.
    pub load_average: Option<LoadAverage>,
    /// Memory counters in bytes, read together in one refresh.
    pub total_memory: u64,
    pub used_memory: u64,
    pub available_memory: u64,
    pub total_swap: u64,
    pub used_swap: u64,
    pub hostname: Option<String>,
    /// Whole seconds read from the first field of the kernel uptime source
    /// (see `uptime_field`); `None` when it could not be read.
    pub uptime: Option<u64>,
}

/// Temperature in millidegrees that a possibly missing thermal text gives.
pub open spec fn thermal_of(t: Option<Vec<u8>>) -> int {
    match t {
        Some(v) => temperature_of(v@),
        None => 0,
    }
}

fn as_bytes(t: &Option<Vec<u8>>) -> (r: Option<&[u8]>)
    ensures
        match *t {
            Some(v) => r is Some && r.unwrap()@ == v@,
            None => r is None,
        },
{
    match t {
        Some(v) => Some(v.as_slice()),
        None => None,
    }
}

/// One snapshot from the readings of one refresh. Every metric is derived
/// on its own: a missing source gives its sentinel (temperature 0, no load
/// averages, empty host name, uptime 0) and never affects the others.
pub fn snapshot_from(timestamp: u64, raw: &RawReadings) -> (r: SystemStats)
    requires
        raw.core_usages@.len() >= 1,
    ensures
        r.timestamp == timestamp,
        r.cpu.usage_hundredths as int == mean_usage(raw.core_usages@),
        r.cpu.cores == raw.core_usages@.len(),
        r.cpu.temperature_millicelsius as int == thermal_of(raw.thermal),
        r.cpu.load_avg == raw.load_average,
        r.cpu.wf(),
        r.memory.total == raw.total_memory,
        r.memory.used == raw.used_memory,
        r.memory.available == raw.available_memory,
        r.memory.pressure_hundredths as int == pressure_of(raw.used_memory, raw.total_memory),
        r.memory.swap_total == raw.total_swap,
        r.memory.swap_used == raw.used_swap,
        match raw.hostname {
            Some(h) => r.system_info.hostname@ == h@,
            None => r.system_info.hostname@.len() == 0,
        },
        match raw.uptime {
            Some(v) => r.system_info.uptime == v,
            None => r.system_info.uptime == 0,
        },
{
    let temperature = get_cpu_temperature(as_bytes(&raw.thermal));
    let cpu = CpuStats::from_readings(&raw.core_usages, temperature, raw.load_average);
    let memory = MemoryStats::from_counters(
        raw.total_memory,
        raw.used_memory,
        raw.available_memory,
        raw.total_swap,
        raw.used_swap,
    );
    let hostname = match &raw.hostname {
        Some(h) => h.clone(),
        None => String::new(),
    };
    let uptime = get_system_uptime(raw.uptime);
    SystemStats { timestamp, cpu, memory, system_info: BasicSystemInfo { hostname, uptime } }
}

/// A missing thermal source gives a temperature of 0 in the snapshot and
/// takes nothing else from it.
pub proof fn lemma_missing_thermal_source(raw: RawReadings)
    requires
        raw.thermal is None,
    ensures
        thermal_of(raw.thermal) == 0,
{
}

} // verus!
