use procmon::view::{
    clamp_selection, step, InputEvent, SignalKind, SortCriteria, ViewMode, ViewState, WINDOW_ROWS,
};

fn initial() -> ViewState {
    ViewState::init()
}

#[test]
fn initial_state_is_processes_cpu() {
    let s = initial();
    assert_eq!(s.mode, ViewMode::Processes);
    assert_eq!(s.sort, SortCriteria::CPU);
    assert_eq!(s.selected, 0);
    assert_eq!(s.scroll, 0);
    assert!(s.tree_focus.is_none());
}

#[test]
fn right_three_times_returns_to_same_mode() {
    let pids: Vec<i32> = vec![1, 2, 3];
    for start in [ViewMode::Processes, ViewMode::CrashTracking, ViewMode::ProcessTree] {
        let mut s = initial();
        s.mode = start;
        let s1 = step(&s, InputEvent::Right, &pids).state;
        let s2 = step(&s1, InputEvent::Right, &pids).state;
        let s3 = step(&s2, InputEvent::Right, &pids).state;
        assert_eq!(s3.mode, start);
        assert_ne!(s1.mode, start);
        assert_ne!(s2.mode, start);
    }
}

#[test]
fn left_then_right_is_identity_on_mode() {
    let pids: Vec<i32> = vec![1];
    for start in [ViewMode::Processes, ViewMode::CrashTracking, ViewMode::ProcessTree] {
        let mut s = initial();
        s.mode = start;
        let l = step(&s, InputEvent::Left, &pids).state;
        let lr = step(&l, InputEvent::Right, &pids).state;
        assert_eq!(lr.mode, start);
        let r = step(&s, InputEvent::Right, &pids).state;
        let rl = step(&r, InputEvent::Left, &pids).state;
        assert_eq!(rl.mode, start);
    }
}

#[test]
fn up_down_stay_in_bounds_empty_table() {
    let pids: Vec<i32> = vec![];
    let mut s = initial();
    for ev in [InputEvent::Down, InputEvent::Down, InputEvent::Up, InputEvent::Down] {
        s = step(&s, ev, &pids).state;
        assert_eq!(s.selected, 0);
        assert_eq!(s.scroll, 0);
    }
}

#[test]
fn up_down_stay_in_bounds_single_row() {
    let pids: Vec<i32> = vec![9];
    let mut s = initial();
    for ev in [InputEvent::Down, InputEvent::Up, InputEvent::Down, InputEvent::Down] {
        s = step(&s, ev, &pids).state;
        assert_eq!(s.selected, 0);
    }
}

#[test]
fn down_moves_and_scrolls_at_window_edge() {
    let pids: Vec<i32> = (0..30).collect();
    let mut s = initial();
    for expect in 1..=(WINDOW_ROWS - 1) {
        s = step(&s, InputEvent::Down, &pids).state;
        assert_eq!(s.selected, expect);
        assert_eq!(s.scroll, 0);
    }
    // the next step pushes the selection past the window: scroll follows
    s = step(&s, InputEvent::Down, &pids).state;
    assert_eq!(s.selected, WINDOW_ROWS);
    assert_eq!(s.scroll, 1);
    // never past the last row
    for _ in 0..100 {
        s = step(&s, InputEvent::Down, &pids).state;
    }
    assert_eq!(s.selected, 29);
    assert!(s.scroll <= s.selected);
    assert!(s.selected < s.scroll + WINDOW_ROWS);
}

#[test]
fn up_moves_and_scrolls_back() {
    let pids: Vec<i32> = (0..30).collect();
    let mut s = initial();
    for _ in 0..25 {
        s = step(&s, InputEvent::Down, &pids).state;
    }
    assert_eq!(s.selected, 25);
    assert_eq!(s.scroll, 6);
    for _ in 0..25 {
        s = step(&s, InputEvent::Up, &pids).state;
    }
    assert_eq!(s.selected, 0);
    assert_eq!(s.scroll, 0);
    // one more Up stays put
    s = step(&s, InputEvent::Up, &pids).state;
    assert_eq!(s.selected, 0);
}

#[test]
fn navigation_ignored_outside_processes_view() {
    let pids: Vec<i32> = (0..5).collect();
    let mut s = initial();
    s.mode = ViewMode::CrashTracking;
    s = step(&s, InputEvent::Down, &pids).state;
    assert_eq!(s.selected, 0);
}

#[test]
fn sort_keys_switch_criterion_in_any_view() {
    let pids: Vec<i32> = vec![1];
    let s = initial();
    assert_eq!(step(&s, InputEvent::SortMemory, &pids).state.sort, SortCriteria::Memory);
    assert_eq!(step(&s, InputEvent::SortPid, &pids).state.sort, SortCriteria::PID);
    assert_eq!(step(&s, InputEvent::SortPriority, &pids).state.sort, SortCriteria::PR);
    assert_eq!(step(&s, InputEvent::SortCpu, &pids).state.sort, SortCriteria::CPU);
    // the key sets the criterion immediately in every view; it only takes
    // effect once the process table is next sorted
    let mut t = initial();
    t.mode = ViewMode::ProcessTree;
    assert_eq!(step(&t, InputEvent::SortMemory, &pids).state.sort, SortCriteria::Memory);
    let mut c = initial();
    c.mode = ViewMode::CrashTracking;
    assert_eq!(step(&c, InputEvent::SortPid, &pids).state.sort, SortCriteria::PID);
}

#[test]
fn control_keys_resolve_selected_pid() {
    let pids: Vec<i32> = vec![11, 22, 33];
    let mut s = initial();
    s = step(&s, InputEvent::Down, &pids).state;
    let r = step(&s, InputEvent::Kill, &pids);
    let req = r.request.expect("a request");
    assert_eq!(req.pid, 22);
    assert_eq!(req.kind, SignalKind::Terminate);
    assert!(!r.quit);
    // the state never changes on a control key
    assert_eq!(r.state.selected, s.selected);
    assert_eq!(r.state.mode, s.mode);
    let sus = step(&s, InputEvent::Suspend, &pids).request.expect("a request");
    assert_eq!(sus.kind, SignalKind::Suspend);
    let res = step(&s, InputEvent::Resume, &pids).request.expect("a request");
    assert_eq!(res.kind, SignalKind::Resume);
}

#[test]
fn control_keys_on_empty_table_request_nothing() {
    let pids: Vec<i32> = vec![];
    let s = initial();
    assert!(step(&s, InputEvent::Kill, &pids).request.is_none());
    assert!(step(&s, InputEvent::Suspend, &pids).request.is_none());
}

#[test]
fn focus_tree_captures_selection() {
    let pids: Vec<i32> = vec![11, 22, 33];
    let mut s = initial();
    s = step(&s, InputEvent::Down, &pids).state;
    s = step(&s, InputEvent::Down, &pids).state;
    let t = step(&s, InputEvent::FocusTree, &pids).state;
    assert_eq!(t.mode, ViewMode::ProcessTree);
    assert_eq!(t.tree_focus, Some(33));
    // leaving tree mode clears the focus
    let back = step(&t, InputEvent::Right, &pids).state;
    assert_eq!(back.mode, ViewMode::Processes);
    assert!(back.tree_focus.is_none());
}

#[test]
fn quit_sets_the_flag_and_keeps_state() {
    let pids: Vec<i32> = vec![1];
    let s = initial();
    let r = step(&s, InputEvent::Quit, &pids);
    assert!(r.quit);
    assert!(r.request.is_none());
    assert_eq!(r.state.mode, ViewMode::Processes);
}

#[test]
fn clamp_selection_pulls_back_after_shrink() {
    let mut s = initial();
    s.selected = 25;
    s.scroll = 6;
    let c = clamp_selection(&s, 10);
    assert_eq!(c.selected, 9);
    assert_eq!(c.scroll, 6);
    let c0 = clamp_selection(&s, 0);
    assert_eq!(c0.selected, 0);
    assert_eq!(c0.scroll, 0);
    // a state already well-formed comes back unchanged
    let ok = clamp_selection(&s, 30);
    assert_eq!(ok.selected, 25);
    assert_eq!(ok.scroll, 6);
}
