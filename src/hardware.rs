//! What the machine offers, and the cost weights and row-group size it implies.
use vstd::prelude::*;
use crate::planner::CostWeights;

verus! {

/// The machine's thread count and available memory in KiB.
#[derive(Clone, Copy, Debug, PartialEq, Eq, Structural)]
pub struct HardwareInfo {
    pub num_threads: usize,
    pub available_memory_kb: u64,
}

/// Memory, in KiB, at which the scan weight is its base value: 18 GiB.
pub const BASE_MEMORY_KB: u64 = 18 * 1_048_576;

/// Threads at which the rollup weight is its base value.
pub const BASE_THREADS: u64 = 10;

pub open spec fn clamp_to(x: int, lo: int, hi: int) -> int {
    if x < lo { lo } else if x > hi { hi } else { x }
}

/// The scan weight, in thousandths: the base weight one over the memory
/// factor (available memory over 18 GiB, held to between one half and two).
pub open spec fn scan_weight(mem_kb: u64) -> int {
    if mem_kb == 0 {
        2000
    } else {
        clamp_to((1000 * BASE_MEMORY_KB) as int / mem_kb as int, 500, 2000)
    }
}

/// The rollup weight, in thousandths: the base weight 32 over the thread
/// factor (threads over ten, held to between one half and two).
pub open spec fn rollup_weight(threads: usize) -> int {
    if threads == 0 {
        64_000
    } else {
        clamp_to((32_000 * BASE_THREADS) as int / threads as int, 16_000, 64_000)
    }
}

/// The row-group size for `total_rows`: about twenty groups per thread, held
/// to between half a million and two million rows.
pub open spec fn row_group_size(threads: usize, total_rows: usize) -> int {
    let t: int = if threads == 0 { 1 } else { threads as int };
    clamp_to(total_rows as int / t / 20, 500_000, 2_000_000)
}

impl HardwareInfo {
    /// The cost weights for this machine: more memory makes scanning cheaper,
    /// more threads make rollup cheaper.
    pub fn cost_weights(&self) -> (r: CostWeights)
        ensures
            r.scan == scan_weight(self.available_memory_kb),
            r.rollup == rollup_weight(self.num_threads),
            500 <= r.scan <= 2000,
            16_000 <= r.rollup <= 64_000,
    {
        let scan: u64 = if self.available_memory_kb == 0 {
            2000
        } else {
            let s = (1000 * BASE_MEMORY_KB) / self.available_memory_kb;
            if s < 500 { 500 } else if s > 2000 { 2000 } else { s }
        };
        let rollup: u64 = if self.num_threads == 0 {
            64_000
        } else {
            let t = self.num_threads as u64;
            let s = (32_000 * BASE_THREADS) / t;
            if s < 16_000 { 16_000 } else if s > 64_000 { 64_000 } else { s }
        };
        CostWeights { scan, rollup }
    }

    /// The Parquet row-group size for `total_rows` on this machine.
    pub fn optimal_row_group_size(&self, total_rows: usize) -> (r: usize)
        ensures
            r == row_group_size(self.num_threads, total_rows),
    {
        let t: usize = if self.num_threads == 0 { 1 } else { self.num_threads };
        let size = total_rows / t / 20;
        if size < 500_000 { 500_000 } else if size > 2_000_000 { 2_000_000 } else { size }
    }
}

} // verus!
