use vstd::prelude::*;

verus! {

/// One process as the OS reports it, before any metric is derived: the
/// fields of its stat record that the monitor reads, as plain values.
pub struct RawStat {
    pub pid: i32,
    pub ppid: i32,
    pub state: char,
    pub num_threads: i64,
    pub priority: i64,
    /// Accumulated user-mode ticks.
    pub utime: u64,
    /// Accumulated kernel-mode ticks.
    pub stime: u64,
    /// Accumulated user-mode ticks of waited-for children.
    pub cutime: i64,
    /// Accumulated kernel-mode ticks of waited-for children.
    pub cstime: i64,
    /// Tick at which the process started, counted from boot.
    pub starttime: u64,
    /// Virtual memory size in bytes.
    pub vsize: u64,
    /// Resident set size in pages.
    pub rss: u64,
    /// Command name, possibly truncated by the OS source.
    pub comm: String,
    /// Real uid of the owning user, from the status record.
    pub ruid: u32,
}

/// One process of the current snapshot with its derived metrics. Rebuilt
/// from scratch every refresh cycle and never mutated afterwards.
///
/// Percentages are held in tenths of a percent, so 50.0% is 500: every
/// metric of this monitor is shown with one fractional digit, and integer
/// tenths keep the arithmetic exact.
pub struct ProcessRecord {
    pub pid: i32,
    pub ppid: i32,
    /// Owning user's name, or "N/A" when the lookup failed.
    pub user: String,
    /// Run-state code, a single character.
    pub state: char,
    pub threads: i64,
    pub priority: i64,
    /// Ticks charged for the CPU percentage: user + system, children included.
    pub cpu_ticks: u64,
    /// Tick at which the process started, counted from boot.
    pub start_tick: u64,
    /// Resident set size in pages.
    pub resident_pages: u64,
    /// Virtual memory size in bytes.
    pub virt_size: u64,
    /// Derived CPU percentage, in tenths of a percent.
    pub cpu_tenths: u64,
    /// Derived memory percentage, in tenths of a percent.
    pub mem_tenths: u64,
    /// Accumulated CPU time, formatted `HH:MM:SS`.
    pub time_plus: String,
    /// Command name, possibly truncated by the OS source.
    pub command: String,
}

} // verus!
