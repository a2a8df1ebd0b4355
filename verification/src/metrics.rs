use vstd::prelude::*;

use crate::numfmt;
use crate::types::{ProcessRecord, RawStat};

verus! {

/// A non-negative quantity capped at what a `u64` can hold.
pub open spec fn cap_u64(x: int) -> int {
    if x <= u64::MAX {
        x
    } else {
        u64::MAX as int
    }
}

/// Seconds since boot, from the current wall-clock time (seconds since the
/// Unix epoch, read by the caller) and the recorded boot time. A clock that
/// reads earlier than the boot time yields 0 rather than wrapping.
pub fn uptime(now_secs: u64, btime: &u64) -> (r: u64)
    ensures
        now_secs >= *btime ==> r == now_secs - *btime,
        now_secs < *btime ==> r == 0,
{
    if now_secs >= *btime {
        now_secs - *btime
    } else {
        0
    }
}

/// The scheduler tick rate to compute with: the reported rate when one was
/// reported and positive, and the conventional 100 ticks per second when the
/// source had none to offer. A reported rate of zero counts as unavailable:
/// every time conversion divides by this value.
pub fn tick_rate_or_default(reported: Option<u64>) -> (r: u64)
    ensures
        r >= 1,
        match reported {
            Some(t) => r == if t > 0 {
                t as int
            } else {
                100
            },
            None => r == 100,
        },
{
    match reported {
        Some(t) => if t > 0 {
            t
        } else {
            100
        },
        None => 100,
    }
}

/// The CPU percentage of a process, in tenths of a percent.
///
/// The elapsed lifetime of the process, in ticks, is `uptime * rate -
/// start`; when it is not positive (clock skew, a process that just
/// started) the percentage is exactly zero. Otherwise it is the share of
/// that lifetime spent on the CPU, `(ticks / rate) / elapsed * 100`, which
/// over a common denominator is `ticks * 100 / elapsed_ticks` percent, here
/// in tenths.
pub open spec fn spec_cpu_tenths(cpu_ticks: u64, start_tick: u64, tick_rate: u64, uptime_secs: u64) -> int {
    if uptime_secs * tick_rate <= start_tick {
        0
    } else {
        (cpu_ticks as int) * 1000 / ((uptime_secs as int) * (tick_rate as int) - start_tick)
    }
}

/// The memory percentage of a process, in tenths of a percent: its resident
/// set as a share of total memory, `pages * page_kb / total_kb * 100`, and
/// exactly zero when the reported total is zero.
pub open spec fn spec_mem_tenths(resident_pages: u64, page_size_kb: u64, total_mem_kb: u64) -> int {
    if total_mem_kb == 0 {
        0
    } else {
        (resident_pages as int) * (page_size_kb as int) * 1000 / (total_mem_kb as int)
    }
}

/// CPU percentage in tenths of a percent, capped at `u64::MAX` where a
/// degenerate elapsed time would push it beyond one machine word.
pub fn cpu_percent_tenths(cpu_ticks: u64, start_tick: u64, tick_rate: u64, uptime_secs: u64) -> (r:
    u64)
    requires
        tick_rate >= 1,
    ensures
        r == cap_u64(spec_cpu_tenths(cpu_ticks, start_tick, tick_rate, uptime_secs)),
        uptime_secs * tick_rate <= start_tick ==> r == 0,
{
    proof {
        assert(uptime_secs * tick_rate <= u64::MAX * u64::MAX) by (nonlinear_arith)
            requires
                uptime_secs <= u64::MAX,
                tick_rate <= u64::MAX,
        ;
    }
    let up_ticks: u128 = (uptime_secs as u128) * (tick_rate as u128);
    if up_ticks <= start_tick as u128 {
        0
    } else {
        let elapsed: u128 = up_ticks - (start_tick as u128);
        let scaled: u128 = (cpu_ticks as u128) * 1000;
        let q: u128 = scaled / elapsed;
        if q > u64::MAX as u128 {
            u64::MAX
        } else {
            q as u64
        }
    }
}

/// Memory percentage in tenths of a percent, capped at `u64::MAX` where a
/// tiny reported total would push it beyond one machine word. The resident
/// set in KiB must itself fit a `u64`, which every physical machine grants.
pub fn memory_percent_tenths(resident_pages: u64, page_size_kb: u64, total_mem_kb: u64) -> (r: u64)
    requires
        resident_pages * page_size_kb <= u64::MAX,
    ensures
        r == cap_u64(spec_mem_tenths(resident_pages, page_size_kb, total_mem_kb)),
{
    if total_mem_kb == 0 {
        0
    } else {
        let resident_kb: u128 = (resident_pages as u128) * (page_size_kb as u128);
        let scaled: u128 = resident_kb * 1000;
        let q: u128 = scaled / (total_mem_kb as u128);
        if q > u64::MAX as u128 {
            u64::MAX
        } else {
            q as u64
        }
    }
}

/// The sum of two tick counts, saturating at `u64::MAX`.
pub fn add_ticks(a: u64, b: u64) -> (r: u64)
    ensures
        r == cap_u64(a + b),
{
    if a <= u64::MAX - b {
        a + b
    } else {
        u64::MAX
    }
}

/// A child-time field clamped to a tick count: the OS types these signed,
/// but a negative reading carries no time and counts as zero.
pub fn ticks_of_signed(t: i64) -> (r: u64)
    ensures
        r == if t >= 0 {
            t as int
        } else {
            0
        },
{
    if t >= 0 {
        t as u64
    } else {
        0
    }
}

/// The ticks charged to a process for its CPU percentage: own user and
/// system time plus that of waited-for children, negatives clamped to zero
/// and the sum saturating at `u64::MAX`.
pub open spec fn spec_total_ticks(raw: RawStat) -> int {
    cap_u64(
        cap_u64(
            cap_u64(raw.utime + raw.stime) + (if raw.cutime >= 0 {
                raw.cutime as int
            } else {
                0
            }),
        ) + (if raw.cstime >= 0 {
            raw.cstime as int
        } else {
            0
        }),
    )
}

/// The ticks shown in the `TIME+` column: own user plus system time,
/// saturating at `u64::MAX`.
pub open spec fn spec_own_ticks(raw: RawStat) -> int {
    cap_u64(raw.utime + raw.stime)
}

/// How a finished record relates to the raw stat it came from, given the
/// machine constants of the cycle: every field but the user name is a pure
/// function of the raw record alone.
pub open spec fn derived_from(
    r: ProcessRecord,
    raw: RawStat,
    tick_rate: u64,
    uptime_secs: u64,
    page_size_kb: u64,
    total_mem_kb: u64,
) -> bool {
    &&& r.pid == raw.pid
    &&& r.ppid == raw.ppid
    &&& r.state == raw.state
    &&& r.threads == raw.num_threads
    &&& r.priority == raw.priority
    &&& r.cpu_ticks == spec_total_ticks(raw)
    &&& r.start_tick == raw.starttime
    &&& r.resident_pages == raw.rss
    &&& r.virt_size == raw.vsize
    &&& r.cpu_tenths == cap_u64(
        spec_cpu_tenths(spec_total_ticks(raw) as u64, raw.starttime, tick_rate, uptime_secs),
    )
    &&& r.mem_tenths == cap_u64(spec_mem_tenths(raw.rss, page_size_kb, total_mem_kb))
    &&& r.time_plus@ == numfmt::hms_chars((spec_own_ticks(raw) / tick_rate as int) as nat)
    &&& r.command == raw.comm
}

/// One snapshot row from its raw stat record: every derived metric of the
/// monitor's table comes from here, each a pure function of the raw record
/// and the machine constants of this cycle.
pub fn build_record(
    raw: RawStat,
    user: String,
    tick_rate: u64,
    uptime_secs: u64,
    page_size_kb: u64,
    total_mem_kb: u64,
) -> (r: ProcessRecord)
    requires
        tick_rate >= 1,
        raw.rss * page_size_kb <= u64::MAX,
    ensures
        derived_from(r, raw, tick_rate, uptime_secs, page_size_kb, total_mem_kb),
        r.user == user,
{
    let total_ticks = add_ticks(
        add_ticks(add_ticks(raw.utime, raw.stime), ticks_of_signed(raw.cutime)),
        ticks_of_signed(raw.cstime),
    );
    let own_ticks = add_ticks(raw.utime, raw.stime);
    ProcessRecord {
        pid: raw.pid,
        ppid: raw.ppid,
        user,
        state: raw.state,
        threads: raw.num_threads,
        priority: raw.priority,
        cpu_ticks: total_ticks,
        start_tick: raw.starttime,
        resident_pages: raw.rss,
        virt_size: raw.vsize,
        cpu_tenths: cpu_percent_tenths(total_ticks, raw.starttime, tick_rate, uptime_secs),
        mem_tenths: memory_percent_tenths(raw.rss, page_size_kb, total_mem_kb),
        time_plus: numfmt::format_time(own_ticks, tick_rate),
        command: raw.comm,
    }
}

/// A process whose elapsed lifetime is not positive gets a CPU percentage
/// of exactly zero: no negative share and no division by a vanishing time.
pub proof fn lemma_cpu_zero_when_not_elapsed(
    cpu_ticks: u64,
    start_tick: u64,
    tick_rate: u64,
    uptime_secs: u64,
)
    requires
        uptime_secs * tick_rate <= start_tick,
    ensures
        spec_cpu_tenths(cpu_ticks, start_tick, tick_rate, uptime_secs) == 0,
{
}

} // verus!
