use vstd::prelude::*;

use crate::numfmt::{deci_chars, deci_to_string, i64_to_string, int_chars};
use crate::types::ProcessRecord;
use crate::view::{SortCriteria, ViewMode, WINDOW_ROWS};

verus! {

/// The slice of the table that the window shows: row indices `[start,
/// end)`, at most `WINDOW_ROWS` of them, beginning at the scroll offset
/// and never past the table.
pub fn visible_range(n: usize, scroll: usize) -> (r: (usize, usize))
    ensures
        r.0 == if scroll <= n {
            scroll as int
        } else {
            n as int
        },
        r.1 == if scroll + WINDOW_ROWS <= n {
            scroll + WINDOW_ROWS
        } else {
            n as int
        },
        r.0 <= r.1 <= n,
        r.1 - r.0 <= WINDOW_ROWS,
{
    if scroll >= n {
        (n, n)
    } else if n - scroll >= WINDOW_ROWS {
        (scroll, scroll + WINDOW_ROWS)
    } else {
        (scroll, n)
    }
}

/// The ten table cells of one row, in column order: pid, parent pid, user,
/// state, threads, priority, CPU percent, memory percent, accumulated time
/// and command, numbers in decimal and percentages with one fractional
/// digit.
pub open spec fn spec_row_cells(p: ProcessRecord) -> Seq<Seq<char>> {
    seq![
        int_chars(p.pid as int),
        int_chars(p.ppid as int),
        p.user@,
        seq![p.state],
        int_chars(p.threads as int),
        int_chars(p.priority as int),
        deci_chars(p.cpu_tenths as nat),
        deci_chars(p.mem_tenths as nat),
        p.time_plus@,
        p.command@,
    ]
}

/// One row of the process table, cell for cell as `spec_row_cells` lays it
/// down.
pub fn row_cells(p: &ProcessRecord) -> (r: Vec<String>)
    ensures
        r@.map_values(|c: String| c@) == spec_row_cells(*p),
{
    let mut v: Vec<String> = Vec::new();
    v.push(i64_to_string(p.pid as i64));
    v.push(i64_to_string(p.ppid as i64));
    v.push(p.user.clone());
    let mut st = String::new();
    st.push(p.state);
    v.push(st);
    v.push(i64_to_string(p.threads));
    v.push(i64_to_string(p.priority));
    v.push(deci_to_string(p.cpu_tenths));
    v.push(deci_to_string(p.mem_tenths));
    v.push(p.time_plus.clone());
    v.push(p.command.clone());
    proof {
        assert(v@.map_values(|c: String| c@) =~= spec_row_cells(*p));
    }
    v
}

/// The pids of the table rows, in display order, as the state machine's
/// step consumes them.
pub fn pids_of(procs: &Vec<ProcessRecord>) -> (r: Vec<i32>)
    ensures
        r@ == procs@.map_values(|p: ProcessRecord| p.pid),
{
    let mut out: Vec<i32> = Vec::new();
    let mut i: usize = 0;
    while i < procs.len()
        invariant
            i <= procs@.len(),
            out@ == procs@.take(i as int).map_values(|p: ProcessRecord| p.pid),
        decreases procs@.len() - i,
    {
        out.push(procs[i].pid);
        proof {
            assert(out@ =~= procs@.take(i + 1).map_values(|p: ProcessRecord| p.pid));
        }
        i += 1;
    }
    proof {
        assert(procs@.take(procs@.len() as int) =~= procs@);
    }
    out
}

/// The help line's label for the active sort criterion.
pub fn sort_label(c: &SortCriteria) -> (r: &'static str)
    ensures
        r@ == match *c {
            SortCriteria::CPU => "Sorting by: CPU"@,
            SortCriteria::Memory => "Sorting by: Memory"@,
            SortCriteria::PID => "Sorting by: PID"@,
            SortCriteria::PR => "Sorting by: Priority"@,
        },
{
    match c {
        SortCriteria::CPU => "Sorting by: CPU",
        SortCriteria::Memory => "Sorting by: Memory",
        SortCriteria::PID => "Sorting by: PID",
        SortCriteria::PR => "Sorting by: Priority",
    }
}

/// The help line's label for the current view mode.
pub fn view_label(m: &ViewMode) -> (r: &'static str)
    ensures
        r@ == match *m {
            ViewMode::Processes => "View: Processes"@,
            ViewMode::CrashTracking => "View: Crash Tracking"@,
            ViewMode::ProcessTree => "View: Process Tree"@,
        },
{
    match m {
        ViewMode::Processes => "View: Processes",
        ViewMode::CrashTracking => "View: Crash Tracking",
        ViewMode::ProcessTree => "View: Process Tree",
    }
}

} // verus!
