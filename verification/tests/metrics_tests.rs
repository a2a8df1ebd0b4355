use procmon::metrics::{
    add_ticks, cpu_percent_tenths, memory_percent_tenths, tick_rate_or_default, ticks_of_signed,
    uptime,
};
use procmon::numfmt::{deci_to_string, format_time, i64_to_string, u64_to_string};
use procmon::snapshot::build_snapshot;
use procmon::stats::{kib_to_mib_tenths, used_memory_kib};
use procmon::types::RawStat;

fn raw(pid: i32, ppid: i32) -> RawStat {
    RawStat {
        pid,
        ppid,
        state: 'S',
        num_threads: 1,
        priority: 20,
        utime: 0,
        stime: 0,
        cutime: 0,
        cstime: 0,
        starttime: 0,
        vsize: 0,
        rss: 0,
        comm: String::from("cmd"),
        ruid: 0,
    }
}

#[test]
fn uptime_subtracts_boot_time() {
    assert_eq!(uptime(1000, &400), 600);
    assert_eq!(uptime(400, &400), 0);
}

#[test]
fn uptime_clamps_clock_before_boot() {
    assert_eq!(uptime(100, &400), 0);
}

#[test]
fn tick_rate_defaults_to_100() {
    assert_eq!(tick_rate_or_default(None), 100);
    assert_eq!(tick_rate_or_default(Some(0)), 100);
    assert_eq!(tick_rate_or_default(Some(250)), 250);
}

#[test]
fn cpu_percent_end_to_end() {
    // cpuTicks=50, tickRate=100, startTick=0, uptime=1 -> 50.0%
    assert_eq!(cpu_percent_tenths(50, 0, 100, 1), 500);
}

#[test]
fn cpu_percent_zero_when_elapsed_not_positive() {
    // just-started process: start tick at or past the uptime
    assert_eq!(cpu_percent_tenths(50, 100, 100, 1), 0);
    assert_eq!(cpu_percent_tenths(50, 500, 100, 1), 0);
    assert_eq!(cpu_percent_tenths(u64::MAX, 0, 100, 0), 0);
}

#[test]
fn cpu_percent_partial_share() {
    // 25 ticks over 100 elapsed ticks = 25.0%
    assert_eq!(cpu_percent_tenths(25, 0, 100, 1), 250);
    // 1 tick over 1000 elapsed ticks = 0.1%
    assert_eq!(cpu_percent_tenths(1, 0, 100, 10), 1);
}

#[test]
fn memory_percent_end_to_end() {
    // 256 pages * 4 KiB / 1024000 KiB -> 0.1%
    assert_eq!(memory_percent_tenths(256, 4, 1024000), 1);
}

#[test]
fn memory_percent_zero_total() {
    assert_eq!(memory_percent_tenths(256, 4, 0), 0);
}

#[test]
fn memory_percent_half() {
    assert_eq!(memory_percent_tenths(128, 4, 1024), 500);
}

#[test]
fn saturating_tick_sums() {
    assert_eq!(add_ticks(2, 3), 5);
    assert_eq!(add_ticks(u64::MAX, 1), u64::MAX);
    assert_eq!(ticks_of_signed(-5), 0);
    assert_eq!(ticks_of_signed(7), 7);
}

#[test]
fn format_time_zero() {
    assert_eq!(format_time(0, 100), "00:00:00");
}

#[test]
fn format_time_hours_minutes_seconds() {
    // 3661 seconds at 100 ticks per second
    assert_eq!(format_time(366100, 100), "01:01:01");
    // minutes and seconds run modulo 60, hours unbounded
    assert_eq!(format_time(36000000, 100), "100:00:00");
    assert_eq!(format_time(5999, 100), "00:00:59");
}

#[test]
fn decimal_strings() {
    assert_eq!(u64_to_string(0), "0");
    assert_eq!(u64_to_string(907), "907");
    assert_eq!(i64_to_string(-42), "-42");
    assert_eq!(i64_to_string(i64::MIN), "-9223372036854775808");
    assert_eq!(deci_to_string(500), "50.0");
    assert_eq!(deci_to_string(1), "0.1");
    assert_eq!(deci_to_string(0), "0.0");
}

#[test]
fn used_memory_subtracts_and_clamps() {
    assert_eq!(used_memory_kib(1000, 100, 200, 300), 400);
    assert_eq!(used_memory_kib(100, 200, 0, 0), 0);
}

#[test]
fn kib_to_mib_tenths_rounds_down() {
    assert_eq!(kib_to_mib_tenths(1024), 10);
    assert_eq!(kib_to_mib_tenths(1536), 15);
    assert_eq!(kib_to_mib_tenths(0), 0);
}

#[test]
fn build_snapshot_derives_metrics() {
    let mut r = raw(42, 1);
    r.utime = 30;
    r.stime = 20;
    r.rss = 256;
    r.comm = String::from("worker");
    let snap = build_snapshot(vec![r], 100, 1, 4, 1024000);
    assert_eq!(snap.len(), 1);
    let p = &snap[0];
    assert_eq!(p.pid, 42);
    assert_eq!(p.ppid, 1);
    assert_eq!(p.cpu_ticks, 50);
    assert_eq!(p.cpu_tenths, 500);
    assert_eq!(p.mem_tenths, 1);
    assert_eq!(p.time_plus, "00:00:00");
    assert_eq!(p.command, "worker");
}

#[test]
fn build_snapshot_clamps_negative_child_time() {
    let mut r = raw(7, 1);
    r.utime = 10;
    r.stime = 10;
    r.cutime = -4;
    r.cstime = -4;
    let snap = build_snapshot(vec![r], 100, 1, 4, 1024000);
    assert_eq!(snap[0].cpu_ticks, 20);
}

#[test]
fn build_snapshot_empty_input() {
    let snap = build_snapshot(Vec::new(), 100, 1, 4, 1024000);
    assert!(snap.is_empty());
}

#[test]
fn build_snapshot_keeps_source_order() {
    let snap = build_snapshot(vec![raw(3, 1), raw(1, 0), raw(2, 1)], 100, 1, 4, 1024000);
    let pids: Vec<i32> = snap.iter().map(|p| p.pid).collect();
    assert_eq!(pids, vec![3, 1, 2]);
}

#[test]
fn system_snapshot_derivations() {
    let snap = procmon::stats::SystemSnapshot {
        load_one_centi: 125,
        load_five_centi: 80,
        load_fifteen_centi: 42,
        total_kib: 1000,
        free_kib: 100,
        buffers_kib: 200,
        cached_kib: 300,
    };
    assert_eq!(snap.used_kib(), 400);
    assert_eq!(snap.buff_cache_kib(), 500);
}
