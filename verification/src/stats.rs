use vstd::prelude::*;

verus! {

/// The system's load averages and memory counters for one refresh cycle,
/// as plain values: load in hundredths (1.25 is 125), memory in KiB.
/// Immutable once gathered, valid for exactly one cycle.
pub struct SystemSnapshot {
    pub load_one_centi: u64,
    pub load_five_centi: u64,
    pub load_fifteen_centi: u64,
    pub total_kib: u64,
    pub free_kib: u64,
    pub buffers_kib: u64,
    pub cached_kib: u64,
}

impl SystemSnapshot {
    /// Used memory of this snapshot, as `used_memory_kib` derives it.
    pub fn used_kib(&self) -> (r: u64)
        ensures
            r == if self.free_kib + self.buffers_kib + self.cached_kib <= self.total_kib {
                self.total_kib - (self.free_kib + self.buffers_kib + self.cached_kib)
            } else {
                0int
            },
    {
        used_memory_kib(self.total_kib, self.free_kib, self.buffers_kib, self.cached_kib)
    }

    /// Buffers and cache together, the figure the memory summary shows,
    /// saturating at `u64::MAX`.
    pub fn buff_cache_kib(&self) -> (r: u64)
        ensures
            r == crate::metrics::cap_u64(self.buffers_kib + self.cached_kib),
    {
        if self.buffers_kib <= u64::MAX - self.cached_kib {
            self.buffers_kib + self.cached_kib
        } else {
            u64::MAX
        }
    }
}

/// Used memory of the snapshot in KiB: total less free, buffers and cache.
/// The counters are sampled at slightly different moments and their
/// difference can come out negative; such a reading is clamped to zero
/// here rather than shown as a negative quantity.
pub fn used_memory_kib(total: u64, free: u64, buffers: u64, cached: u64) -> (r: u64)
    ensures
        r == if free + buffers + cached <= total {
            total - (free + buffers + cached)
        } else {
            0int
        },
{
    let claimed: u128 = free as u128 + buffers as u128 + cached as u128;
    if claimed <= total as u128 {
        total - (claimed as u64)
    } else {
        0
    }
}

/// KiB expressed in tenths of MiB, rounding down: 1024 KiB is 10 tenths.
pub fn kib_to_mib_tenths(kib: u64) -> (r: u64)
    ensures
        r == kib * 10 / 1024,
{
    let v: u128 = (kib as u128) * 10 / 1024;
    proof {
        assert((kib as int) * 10 / 1024 <= u64::MAX) by (nonlinear_arith)
            requires
                kib <= u64::MAX,
        ;
    }
    v as u64
}

} // verus!
