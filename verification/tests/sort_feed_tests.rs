use procmon::crashfeed::{filter_crash_lines, line_is_crash};
use procmon::rows::{pids_of, row_cells, sort_label, view_label, visible_range};
use procmon::sorter::sort_processes;
use procmon::types::ProcessRecord;
use procmon::userlookup::user_or_na;
use procmon::view::{SortCriteria, ViewMode, WINDOW_ROWS};

fn rec(pid: i32, cpu_tenths: u64, mem_tenths: u64, priority: i64) -> ProcessRecord {
    ProcessRecord {
        pid,
        ppid: 1,
        user: String::from("root"),
        state: 'R',
        threads: 2,
        priority,
        cpu_ticks: 0,
        start_tick: 0,
        resident_pages: 0,
        virt_size: 0,
        cpu_tenths,
        mem_tenths,
        time_plus: String::from("00:00:07"),
        command: String::from("cmd"),
    }
}

#[test]
fn sort_by_cpu_descending() {
    let v = vec![rec(1, 10, 0, 0), rec(2, 500, 0, 0), rec(3, 250, 0, 0)];
    let s = sort_processes(v, &SortCriteria::CPU);
    let pids: Vec<i32> = s.iter().map(|p| p.pid).collect();
    assert_eq!(pids, vec![2, 3, 1]);
}

#[test]
fn sort_by_memory_descending() {
    let v = vec![rec(1, 0, 7, 0), rec(2, 0, 3, 0), rec(3, 0, 9, 0)];
    let s = sort_processes(v, &SortCriteria::Memory);
    let pids: Vec<i32> = s.iter().map(|p| p.pid).collect();
    assert_eq!(pids, vec![3, 1, 2]);
}

#[test]
fn sort_by_pid_strictly_ascending() {
    let v = vec![rec(30, 0, 0, 0), rec(4, 0, 0, 0), rec(700, 0, 0, 0), rec(17, 0, 0, 0)];
    let s = sort_processes(v, &SortCriteria::PID);
    let pids: Vec<i32> = s.iter().map(|p| p.pid).collect();
    assert_eq!(pids, vec![4, 17, 30, 700]);
    for w in pids.windows(2) {
        assert!(w[0] < w[1]);
    }
}

#[test]
fn sort_by_priority_descending() {
    let v = vec![rec(1, 0, 0, -20), rec(2, 0, 0, 20), rec(3, 0, 0, 0)];
    let s = sort_processes(v, &SortCriteria::PR);
    let pids: Vec<i32> = s.iter().map(|p| p.pid).collect();
    assert_eq!(pids, vec![2, 3, 1]);
}

#[test]
fn sort_keeps_every_record_on_ties() {
    let v = vec![rec(1, 5, 0, 0), rec(2, 5, 0, 0), rec(3, 5, 0, 0)];
    let s = sort_processes(v, &SortCriteria::CPU);
    let mut pids: Vec<i32> = s.iter().map(|p| p.pid).collect();
    pids.sort();
    assert_eq!(pids, vec![1, 2, 3]);
}

#[test]
fn crash_feed_keeps_fault_lines_in_order() {
    let lines = vec![
        String::from("a normal line"),
        String::from("kernel: segfault at 0x0"),
        String::from("oom-killer invoked"),
    ];
    let out = filter_crash_lines(&lines);
    assert_eq!(out, vec![
        String::from("kernel: segfault at 0x0"),
        String::from("oom-killer invoked"),
    ]);
}

#[test]
fn crash_line_markers() {
    assert!(line_is_crash("something about a segfault here"));
    assert!(line_is_crash("oom"));
    assert!(line_is_crash("late oom"));
    assert!(!line_is_crash(""));
    assert!(!line_is_crash("segfaul"));
    assert!(!line_is_crash("ordinary kernel chatter"));
}

#[test]
fn crash_feed_empty_input() {
    let out = filter_crash_lines(&Vec::new());
    assert!(out.is_empty());
}

#[test]
fn visible_range_windows_the_table() {
    assert_eq!(visible_range(30, 0), (0, WINDOW_ROWS));
    assert_eq!(visible_range(30, 5), (5, 25));
    assert_eq!(visible_range(30, 25), (25, 30));
    assert_eq!(visible_range(5, 0), (0, 5));
    assert_eq!(visible_range(0, 0), (0, 0));
    assert_eq!(visible_range(5, 99), (5, 5));
}

#[test]
fn row_cells_in_column_order() {
    let mut p = rec(42, 501, 1, -3);
    p.ppid = 7;
    let cells = row_cells(&p);
    assert_eq!(cells, vec![
        String::from("42"),
        String::from("7"),
        String::from("root"),
        String::from("R"),
        String::from("2"),
        String::from("-3"),
        String::from("50.1"),
        String::from("0.1"),
        String::from("00:00:07"),
        String::from("cmd"),
    ]);
}

#[test]
fn pids_in_display_order() {
    let v = vec![rec(5, 0, 0, 0), rec(3, 0, 0, 0), rec(8, 0, 0, 0)];
    assert_eq!(pids_of(&v), vec![5, 3, 8]);
}

#[test]
fn help_labels() {
    assert_eq!(sort_label(&SortCriteria::CPU), "Sorting by: CPU");
    assert_eq!(sort_label(&SortCriteria::Memory), "Sorting by: Memory");
    assert_eq!(sort_label(&SortCriteria::PID), "Sorting by: PID");
    assert_eq!(sort_label(&SortCriteria::PR), "Sorting by: Priority");
    assert_eq!(view_label(&ViewMode::Processes), "View: Processes");
    assert_eq!(view_label(&ViewMode::CrashTracking), "View: Crash Tracking");
    assert_eq!(view_label(&ViewMode::ProcessTree), "View: Process Tree");
}

#[test]
fn user_name_or_placeholder() {
    assert_eq!(user_or_na(Some(String::from("alice"))), "alice");
    assert_eq!(user_or_na(None), "N/A");
}

#[test]
fn unknown_uid_resolves_to_placeholder() {
    // uid u32::MAX is reserved as invalid on Linux: no account carries it
    assert_eq!(procmon::userlookup::get_user(u32::MAX), "N/A");
}
