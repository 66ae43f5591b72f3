//! Host telemetry sampling: snapshot model, threshold alerts, log records
//! and the decisions of the polling loop.
pub mod alerts;
pub mod clock;
pub mod collector;
pub mod log;
pub mod procfs;
pub mod runner;
pub mod stats;
pub mod text;

pub use alerts::{evaluate, Alert, MonitorConfig};
pub use clock::get_timestamp;
pub use collector::{snapshot_from, RawReadings};
pub use log::frame_record;
pub use runner::{LoopEvent, MonitorLoop, Phase, StopReason, TickEnd, TickStart};
pub use stats::{BasicSystemInfo, CpuStats, MemoryStats, SystemStats};
pub use text::{
    field_text, get_cpu_temperature, get_system_uptime, load_average_fields, uptime_field, LoadAverage,
};
pub use procfs::{parse_meminfo, parse_proc_stat, CpuTimes};
