//! The snapshot taken at each tick and the metrics derived from raw counters.
use crate::text::LoadAverage;
use vstd::prelude::*;

verus! {

/// 100 %, in hundredths of a percent.
pub const FULL_LOAD: u64 = 10000;

/// A per-core reading as the mean counts it: readings above 100 % are
/// taken as 100 %.
pub open spec fn capped_reading(r: u64) -> int {
    if r > FULL_LOAD { FULL_LOAD as int } else { r as int }
}

/// Sum of the capped readings of `s`.
pub open spec fn capped_sum(s: Seq<u64>) -> int
    decreases s.len(),
{
    if s.len() == 0 {
        0
    } else {
        capped_sum(s.drop_last()) + capped_reading(s.last())
    }
}

/// Mean CPU utilisation, in hundredths of a percent (rounded down).
pub open spec fn mean_usage(s: Seq<u64>) -> int
    recommends
        s.len() > 0,
{
    capped_sum(s) / (s.len() as int)
}

/// Memory pressure: `used / total × 100`, in hundredths of a percent,
/// rounded down; 0 for a zero total, and at most `u64::MAX`.
pub open spec fn pressure_of(used: u64, total: u64) -> int {
    if total == 0 {
        0
    } else if (used as int) * 10000 / (total as int) > u64::MAX {
        u64::MAX as int
    } else {
        (used as int) * 10000 / (total as int)
    }
}

/// CPU metrics of one snapshot.
#[derive(Clone, Debug)]
pub struct CpuStats {
    /// Mean utilisation over the logical cores, in hundredths of a percent.
    pub usage_hundredths: u64,
    /// Number of logical cores.
    pub cores: usize,
    /// Temperature in millidegrees Celsius; 0 when no thermal source is readable.
    pub temperature_millicelsius: i32,
    /// Load averages; `None` when the source is unreadable.
    pub load_avg: Option<LoadAverage>,
}

/// Memory metrics of one snapshot, in bytes.
#[derive(Clone, Debug)]
pub struct MemoryStats {
    pub total: u64,
    pub used: u64,
    pub available: u64,
    /// `used / total × 100` in hundredths of a percent (see `pressure_of`).
    pub pressure_hundredths: u64,
    pub swap_total: u64,
    pub swap_used: u64,
}

/// Identity of the host.
#[derive(Clone, Debug)]
pub struct BasicSystemInfo {
    /// Host name; empty when it cannot be resolved.
    pub hostname: String,
    /// Seconds since boot; 0 when unreadable.
    pub uptime: u64,
}

/// One snapshot: everything sampled at a single tick.
#[derive(Clone, Debug)]
pub struct SystemStats {
    /// Seconds since the Unix epoch.
    pub timestamp: u64,
    pub cpu: CpuStats,
    pub memory: MemoryStats,
    pub system_info: BasicSystemInfo,
}

impl CpuStats {
    /// Utilisation lies within 0–100 % and there is at least one core.
    pub open spec fn wf(&self) -> bool {
        self.usage_hundredths <= FULL_LOAD && self.cores >= 1
    }

    /// Builds the CPU metrics from the per-core utilisation readings (in
    /// hundredths of a percent), the thermal reading and the load averages.
    pub fn from_readings(core_usages: &Vec<u64>, temperature_millicelsius: i32, load_avg: Option<LoadAverage>) -> (r: CpuStats)
        requires
            core_usages@.len() >= 1,
        ensures
            r.usage_hundredths as int == mean_usage(core_usages@),
            r.cores == core_usages@.len(),
            r.temperature_millicelsius == temperature_millicelsius,
            r.load_avg == load_avg,
            r.wf(),
    {
        let n = core_usages.len();
        let mut sum: u128 = 0;
        let mut i: usize = 0;
        while i < n
            invariant
                n == core_usages@.len(),
                i <= n,
                sum as int == capped_sum(core_usages@.subrange(0, i as int)),
                sum <= (i as int) * (FULL_LOAD as int),
            decreases n - i,
        {
            let v = core_usages[i];
            let c: u64 = if v > FULL_LOAD { FULL_LOAD } else { v };
            assert(core_usages@.subrange(0, i + 1).drop_last() == core_usages@.subrange(0, i as int));
            sum = sum + c as u128;
            i = i + 1;
        }
        assert(core_usages@.subrange(0, n as int) == core_usages@);
        let mean: u128 = sum / (n as u128);
        assert(mean <= FULL_LOAD) by (nonlinear_arith)
            requires
                mean == sum / (n as u128),
                sum <= (n as int) * 10000,
                n >= 1,
        ;
        CpuStats {
            usage_hundredths: mean as u64,
            cores: n,
            temperature_millicelsius,
            load_avg,
        }
    }
}

impl MemoryStats {
    /// Builds the memory metrics from counters read together in one refresh.
    pub fn from_counters(total: u64, used: u64, available: u64, swap_total: u64, swap_used: u64) -> (r: MemoryStats)
        ensures
            r.total == total,
            r.used == used,
            r.available == available,
            r.swap_total == swap_total,
            r.swap_used == swap_used,
            r.pressure_hundredths as int == pressure_of(used, total),
    {
        MemoryStats {
            total,
            used,
            available,
            pressure_hundredths: pressure_score(used, total),
            swap_total,
            swap_used,
        }
    }
}

/// Memory pressure in hundredths of a percent (see `pressure_of`).
pub fn pressure_score(used: u64, total: u64) -> (r: u64)
    ensures
        r as int == pressure_of(used, total),
{
    if total == 0 {
        return 0;
    }
    let scaled: u128 = used as u128 * 10000u128;
    let q: u128 = scaled / (total as u128);
    if q > u64::MAX as u128 {
        u64::MAX
    } else {
        q as u64
    }
}

/// Every CPU metric built from readings has utilisation within 0–100 %
/// and at least one core.
pub proof fn lemma_cpu_metrics_in_range(core_usages: Seq<u64>)
    requires
        core_usages.len() >= 1,
    ensures
        0 <= mean_usage(core_usages) <= FULL_LOAD,
{
    lemma_capped_sum_bounds(core_usages);
    let n = core_usages.len() as int;
    let s = capped_sum(core_usages);
    assert(0 <= s / n <= 10000) by (nonlinear_arith)
        requires
            0 <= s <= n * 10000,
            n >= 1,
    ;
}

/// The capped sum lies between 0 and 100 % per reading.
pub proof fn lemma_capped_sum_bounds(s: Seq<u64>)
    ensures
        0 <= capped_sum(s) <= (s.len() as int) * (FULL_LOAD as int),
    decreases s.len(),
{
    if s.len() > 0 {
        lemma_capped_sum_bounds(s.drop_last());
    }
}

/// When the counters are consistent (`used ≤ total`, `total > 0`), the
/// pressure lies within 0–100 % and is `used / total × 100` to within one
/// hundredth of a percent.
pub proof fn lemma_pressure_matches_ratio(used: u64, total: u64)
    requires
        used <= total,
        total > 0,
    ensures
        0 <= pressure_of(used, total) <= FULL_LOAD,
        pressure_of(used, total) * (total as int) <= (used as int) * 10000,
        (used as int) * 10000 < (pressure_of(used, total) + 1) * (total as int),
{
    let u = used as int;
    let t = total as int;
    let q = u * 10000 / t;
    assert(0 <= q <= 10000 && q * t <= u * 10000 && u * 10000 < (q + 1) * t) by (nonlinear_arith)
        requires
            0 <= u <= t,
            t > 0,
            q == u * 10000 / t,
    ;
}

} // verus!
