use vstd::prelude::*;
use crate::gpu::{milli_percent, ratio_milli_percent};

verus! {

/// One mounted disk. Sizes are in bytes.
#[derive(Debug, Clone)]
pub struct DiskInfo {
    pub name: String,
    pub mount_point: String,
    pub total_space: u64,
    pub available_space: u64,
    pub file_system: String,
}

impl DiskInfo {
    /// Bytes in use: total minus available, never below zero.
    pub fn used_space(&self) -> (r: u64)
        ensures
            r == if self.total_space >= self.available_space {
                (self.total_space - self.available_space) as u64
            } else {
                0u64
            },
    {
        self.total_space.saturating_sub(self.available_space)
    }

    /// Share of the disk in use, in thousandths of a percent; zero for a
    /// disk of size zero.
    pub fn usage_percent(&self) -> (r: u32)
        ensures
            self.total_space == 0 ==> r == 0,
            self.total_space > 0 ==> r == ratio_milli_percent(
                if self.total_space >= self.available_space {
                    (self.total_space - self.available_space) as nat
                } else {
                    0
                },
                self.total_space as nat,
            ),
    {
        if self.total_space == 0 {
            return 0;
        }
        milli_percent(self.used_space(), self.total_space)
    }
}

/// Traffic counters of one network interface.
#[derive(Debug, Clone)]
pub struct NetworkInfo {
    pub name: String,
    pub received: u64,
    pub transmitted: u64,
    pub packets_received: u64,
    pub packets_transmitted: u64,
    pub errors_on_received: u64,
    pub errors_on_transmitted: u64,
}

/// Share of memory (or swap) in use, in thousandths of a percent; zero
/// when the total is zero.
pub fn usage_percent(used: u64, total: u64) -> (r: u32)
    ensures
        total == 0 ==> r == 0,
        total > 0 ==> r == ratio_milli_percent(used as nat, total as nat),
{
    if total == 0 {
        0
    } else {
        milli_percent(used, total)
    }
}

} // verus!
