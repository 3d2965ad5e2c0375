use vstd::prelude::*;

verus! {

/// One process running on a GPU.
#[derive(Debug, Clone)]
pub struct GPUProcess {
    pub pid: u32,
    pub name: String,
    /// Bytes.
    pub memory_used: u64,
}

/// Point-in-time state of one GPU. Each optional reading is `None` when the
/// sensor is unsupported or its read failed; it is never taken as zero.
/// Temperatures are in thousandths of a degree Celsius, utilization in
/// thousandths of a percent, power in milliwatts, clocks in MHz and memory in
/// bytes. Fan speed is as the backend reports it: thousandths of a percent
/// from NVIDIA, revolutions per minute from AMD's hwmon.
#[derive(Debug, Clone)]
pub struct GPUInfo {
    pub id: usize,
    pub name: String,
    pub vendor: String,
    pub temperature: Option<u32>,
    pub utilization: Option<u32>,
    pub memory_used: Option<u64>,
    pub memory_total: Option<u64>,
    pub power_draw: Option<u32>,
    pub power_limit: Option<u32>,
    /// Thousandths of a utilization percent per watt.
    pub power_efficiency: Option<u64>,
    pub clock_speed: Option<u32>,
    pub memory_clock: Option<u32>,
    pub fan_speed: Option<u32>,
    pub processes: Vec<GPUProcess>,
}

/// `part / whole` in thousandths of a percent, rounded down, and held at
/// the largest `u32` when it would not fit.
pub open spec fn ratio_milli_percent(part: nat, whole: nat) -> nat
    recommends
        whole > 0,
{
    let q = part * 100_000 / whole;
    if q > u32::MAX {
        u32::MAX as nat
    } else {
        q
    }
}

/// `part / whole` in thousandths of a percent (see `ratio_milli_percent`).
pub fn milli_percent(part: u64, whole: u64) -> (r: u32)
    requires
        whole > 0,
    ensures
        r == ratio_milli_percent(part as nat, whole as nat),
{
    let q: u128 = (part as u128) * 100_000u128 / (whole as u128);
    if q > u32::MAX as u128 {
        u32::MAX
    } else {
        q as u32
    }
}

/// Utilization per watt: present only when both readings are and the power
/// draw is positive.
pub open spec fn spec_power_efficiency(utilization: Option<u32>, power_draw: Option<u32>) -> Option<u64> {
    match (utilization, power_draw) {
        (Some(u), Some(p)) => if p > 0 {
            Some(((u as int) * 1000 / (p as int)) as u64)
        } else {
            None
        },
        _ => None,
    }
}

/// Utilization (thousandths of a percent) per watt, from a power draw in
/// milliwatts: thousandths of a percent per watt.
pub fn power_efficiency(utilization: Option<u32>, power_draw: Option<u32>) -> (r: Option<u64>)
    ensures
        r == spec_power_efficiency(utilization, power_draw),
{
    match (utilization, power_draw) {
        (Some(u), Some(p)) => {
            if p > 0 {
                Some((u as u64) * 1000 / (p as u64))
            } else {
                None
            }
        },
        _ => None,
    }
}

impl GPUInfo {
    pub open spec fn spec_memory_usage_percent(self) -> Option<u32> {
        match (self.memory_used, self.memory_total) {
            (Some(used), Some(total)) => if total > 0 {
                Some(ratio_milli_percent(used as nat, total as nat) as u32)
            } else {
                None
            },
            _ => None,
        }
    }

    /// Share of GPU memory in use, in thousandths of a percent; `None` when
    /// either reading is missing or the total is zero.
    pub fn memory_usage_percent(&self) -> (r: Option<u32>)
        ensures
            r == self.spec_memory_usage_percent(),
    {
        match (self.memory_used, self.memory_total) {
            (Some(used), Some(total)) => {
                if total > 0 {
                    Some(milli_percent(used, total))
                } else {
                    None
                }
            },
            _ => None,
        }
    }

    /// The snapshot of GPU `id` from one round of backend reads; the power
    /// efficiency is derived here from utilization and power draw.
    pub fn from_readings(
        id: usize,
        name: String,
        vendor: String,
        temperature: Option<u32>,
        utilization: Option<u32>,
        memory_used: Option<u64>,
        memory_total: Option<u64>,
        power_draw: Option<u32>,
        power_limit: Option<u32>,
        clock_speed: Option<u32>,
        memory_clock: Option<u32>,
        fan_speed: Option<u32>,
        processes: Vec<GPUProcess>,
    ) -> (r: GPUInfo)
        ensures
            r.id == id,
            r.name == name,
            r.vendor == vendor,
            r.temperature == temperature,
            r.utilization == utilization,
            r.memory_used == memory_used,
            r.memory_total == memory_total,
            r.power_draw == power_draw,
            r.power_limit == power_limit,
            r.power_efficiency == spec_power_efficiency(utilization, power_draw),
            r.clock_speed == clock_speed,
            r.memory_clock == memory_clock,
            r.fan_speed == fan_speed,
            r.processes == processes,
    {
        let power_efficiency = power_efficiency(utilization, power_draw);
        GPUInfo {
            id,
            name,
            vendor,
            temperature,
            utilization,
            memory_used,
            memory_total,
            power_draw,
            power_limit,
            power_efficiency,
            clock_speed,
            memory_clock,
            fan_speed,
            processes,
        }
    }
}

} // verus!
