use vstd::prelude::*;

verus! {

/// Rows of the process table that fit the visible window.
pub const WINDOW_ROWS: usize = 20;

/// The display perspectives, in their fixed cyclic order for Left/Right
/// navigation.
#[derive(Clone, Copy, PartialEq, Eq, Structural, Debug)]
pub enum ViewMode {
    Processes,
    CrashTracking,
    ProcessTree,
}

/// The interchangeable orderings of the process table.
#[derive(Clone, Copy, PartialEq, Eq, Structural, Debug)]
pub enum SortCriteria {
    CPU,
    Memory,
    PID,
    PR,
}

/// The lifecycle signals the operator can request for the selected process.
#[derive(Clone, Copy, PartialEq, Eq, Structural, Debug)]
pub enum SignalKind {
    Terminate,
    Suspend,
    Resume,
}

/// One recognized key, already decoded by the input layer.
#[derive(Clone, Copy, PartialEq, Eq, Structural, Debug)]
pub enum InputEvent {
    Quit,
    Up,
    Down,
    Left,
    Right,
    SortCpu,
    SortMemory,
    SortPid,
    SortPriority,
    Kill,
    Suspend,
    Resume,
    FocusTree,
}

/// A request to deliver one signal to one process, handed to the
/// process-control collaborator. It never alters the view state: a signaled
/// process simply changes or disappears in a later snapshot.
#[derive(Clone, Copy, Debug)]
pub struct ControlRequest {
    pub pid: i32,
    pub kind: SignalKind,
}

/// The only state that outlives a refresh cycle: view mode, sort criterion,
/// selection, scroll offset, and the process the tree view is focused on.
///
/// The tree focus is set by the focus action on entering the tree view and
/// cleared whenever the view leaves tree mode.
#[derive(Clone, Copy, Debug)]
pub struct ViewState {
    pub mode: ViewMode,
    pub sort: SortCriteria,
    pub selected: usize,
    pub scroll: usize,
    pub tree_focus: Option<i32>,
}

/// What one step of the state machine decides: the next view state, at most
/// one process-control request, and whether the operator asked to quit.
#[derive(Clone, Copy, Debug)]
pub struct StepResult {
    pub state: ViewState,
    pub request: Option<ControlRequest>,
    pub quit: bool,
}

/// Well-formedness of the view state against a table of `n` rows: the
/// selection stays within `[0, n-1]` (pinned to 0 when the table is empty)
/// and the scroll offset keeps the selected row inside the visible window.
pub open spec fn wf(s: ViewState, n: nat) -> bool {
    &&& if n == 0 {
        s.selected == 0
    } else {
        s.selected < n
    }
    &&& s.scroll <= s.selected
    &&& s.selected < s.scroll + WINDOW_ROWS
}

/// The next view mode to the right in the fixed cycle.
pub open spec fn spec_mode_right(m: ViewMode) -> ViewMode {
    match m {
        ViewMode::Processes => ViewMode::CrashTracking,
        ViewMode::CrashTracking => ViewMode::ProcessTree,
        ViewMode::ProcessTree => ViewMode::Processes,
    }
}

/// The next view mode to the left in the fixed cycle.
pub open spec fn spec_mode_left(m: ViewMode) -> ViewMode {
    match m {
        ViewMode::Processes => ViewMode::ProcessTree,
        ViewMode::CrashTracking => ViewMode::Processes,
        ViewMode::ProcessTree => ViewMode::CrashTracking,
    }
}

/// A mode switch keeps selection and sort, and the tree focus survives only
/// while the view stays in tree mode.
pub open spec fn spec_switch_mode(s: ViewState, m: ViewMode) -> ViewState {
    ViewState {
        mode: m,
        tree_focus: if m is ProcessTree {
            s.tree_focus
        } else {
            None
        },
        ..s
    }
}

/// The state after moving the selection one row down: only meaningful in
/// the process view, a no-op at the last row and on an empty table; the
/// scroll offset follows when the selection would leave the window.
pub open spec fn spec_move_down(s: ViewState, n: nat) -> ViewState {
    if s.mode is Processes && n > 0 && s.selected < n - 1 {
        let sel = (s.selected + 1) as usize;
        ViewState {
            selected: sel,
            scroll: if sel >= s.scroll + WINDOW_ROWS {
                (s.scroll + 1) as usize
            } else {
                s.scroll
            },
            ..s
        }
    } else {
        s
    }
}

/// The state after moving the selection one row up: only meaningful in the
/// process view, a no-op at row zero; the scroll offset follows when the
/// selection would leave the window.
pub open spec fn spec_move_up(s: ViewState) -> ViewState {
    if s.mode is Processes && s.selected > 0 {
        let sel = (s.selected - 1) as usize;
        ViewState {
            selected: sel,
            scroll: if sel < s.scroll {
                (s.scroll - 1) as usize
            } else {
                s.scroll
            },
            ..s
        }
    } else {
        s
    }
}

/// The sort criterion switches immediately, in whatever view the key is
/// pressed; it takes effect only where the process table is ordered, which
/// is the process view alone.
pub open spec fn spec_set_sort(s: ViewState, c: SortCriteria) -> ViewState {
    ViewState { sort: c, ..s }
}

/// A process-control key resolves the selected row to its pid and requests
/// the signal; it never changes the view state, and an empty or stale
/// selection requests nothing.
pub open spec fn spec_control(s: ViewState, pids: Seq<i32>, k: SignalKind) -> Option<
    ControlRequest,
> {
    if s.mode is Processes && s.selected < pids.len() {
        Some(ControlRequest { pid: pids[s.selected as int], kind: k })
    } else {
        None
    }
}

/// One step of the view-state machine: the event against the current state
/// and the pids of the currently displayed table, in display order.
pub open spec fn spec_step(s: ViewState, e: InputEvent, pids: Seq<i32>) -> StepResult {
    match e {
        InputEvent::Quit => StepResult { state: s, request: None, quit: true },
        InputEvent::Left => StepResult {
            state: spec_switch_mode(s, spec_mode_left(s.mode)),
            request: None,
            quit: false,
        },
        InputEvent::Right => StepResult {
            state: spec_switch_mode(s, spec_mode_right(s.mode)),
            request: None,
            quit: false,
        },
        InputEvent::Up => StepResult { state: spec_move_up(s), request: None, quit: false },
        InputEvent::Down => StepResult {
            state: spec_move_down(s, pids.len()),
            request: None,
            quit: false,
        },
        InputEvent::SortCpu => StepResult {
            state: spec_set_sort(s, SortCriteria::CPU),
            request: None,
            quit: false,
        },
        InputEvent::SortMemory => StepResult {
            state: spec_set_sort(s, SortCriteria::Memory),
            request: None,
            quit: false,
        },
        InputEvent::SortPid => StepResult {
            state: spec_set_sort(s, SortCriteria::PID),
            request: None,
            quit: false,
        },
        InputEvent::SortPriority => StepResult {
            state: spec_set_sort(s, SortCriteria::PR),
            request: None,
            quit: false,
        },
        InputEvent::Kill => StepResult {
            state: s,
            request: spec_control(s, pids, SignalKind::Terminate),
            quit: false,
        },
        InputEvent::Suspend => StepResult {
            state: s,
            request: spec_control(s, pids, SignalKind::Suspend),
            quit: false,
        },
        InputEvent::Resume => StepResult {
            state: s,
            request: spec_control(s, pids, SignalKind::Resume),
            quit: false,
        },
        InputEvent::FocusTree => if s.mode is Processes && s.selected < pids.len() {
            StepResult {
                state: ViewState {
                    mode: ViewMode::ProcessTree,
                    tree_focus: Some(pids[s.selected as int]),
                    ..s
                },
                request: None,
                quit: false,
            }
        } else {
            StepResult { state: s, request: None, quit: false }
        },
    }
}

impl ViewState {
    /// The initial state: process view, CPU sort, selection and scroll at
    /// zero, no tree focus. Well-formed against a table of any size.
    pub fn init() -> (r: ViewState)
        ensures
            r == (ViewState {
                mode: ViewMode::Processes,
                sort: SortCriteria::CPU,
                selected: 0,
                scroll: 0,
                tree_focus: None,
            }),
            forall|n: nat| wf(r, n),
    {
        ViewState {
            mode: ViewMode::Processes,
            sort: SortCriteria::CPU,
            selected: 0,
            scroll: 0,
            tree_focus: None,
        }
    }
}

fn mode_right(m: ViewMode) -> (r: ViewMode)
    ensures
        r == spec_mode_right(m),
{
    match m {
        ViewMode::Processes => ViewMode::CrashTracking,
        ViewMode::CrashTracking => ViewMode::ProcessTree,
        ViewMode::ProcessTree => ViewMode::Processes,
    }
}

fn mode_left(m: ViewMode) -> (r: ViewMode)
    ensures
        r == spec_mode_left(m),
{
    match m {
        ViewMode::Processes => ViewMode::ProcessTree,
        ViewMode::CrashTracking => ViewMode::Processes,
        ViewMode::ProcessTree => ViewMode::CrashTracking,
    }
}

fn switch_mode(s: &ViewState, m: ViewMode) -> (r: ViewState)
    ensures
        r == spec_switch_mode(*s, m),
{
    ViewState {
        mode: m,
        tree_focus: match m {
            ViewMode::ProcessTree => s.tree_focus,
            _ => None,
        },
        ..*s
    }
}

fn in_processes(s: &ViewState) -> (r: bool)
    ensures
        r == (s.mode is Processes),
{
    match s.mode {
        ViewMode::Processes => true,
        _ => false,
    }
}

fn control_for(s: &ViewState, pids: &Vec<i32>, k: SignalKind) -> (r: Option<ControlRequest>)
    ensures
        r == spec_control(*s, pids@, k),
{
    if in_processes(s) && s.selected < pids.len() {
        Some(ControlRequest { pid: pids[s.selected], kind: k })
    } else {
        None
    }
}

/// One step of the view-state machine, exactly as `spec_step` lays it down:
/// consumes one decoded key against the pids of the displayed table and
/// yields the next state, at most one control request, and the quit flag.
pub fn step(s: &ViewState, e: InputEvent, pids: &Vec<i32>) -> (r: StepResult)
    ensures
        r == spec_step(*s, e, pids@),
{
    match e {
        InputEvent::Quit => StepResult { state: *s, request: None, quit: true },
        InputEvent::Left => StepResult {
            state: switch_mode(s, mode_left(s.mode)),
            request: None,
            quit: false,
        },
        InputEvent::Right => StepResult {
            state: switch_mode(s, mode_right(s.mode)),
            request: None,
            quit: false,
        },
        InputEvent::Up => {
            let state = if in_processes(s) && s.selected > 0 {
                let sel = s.selected - 1;
                ViewState {
                    selected: sel,
                    scroll: if sel < s.scroll {
                        s.scroll - 1
                    } else {
                        s.scroll
                    },
                    ..*s
                }
            } else {
                *s
            };
            StepResult { state, request: None, quit: false }
        },
        InputEvent::Down => {
            let n = pids.len();
            let state = if in_processes(s) && n > 0 && s.selected < n - 1 {
                let sel = s.selected + 1;
                ViewState {
                    selected: sel,
                    scroll: if s.scroll <= sel && sel - s.scroll >= WINDOW_ROWS {
                        s.scroll + 1
                    } else {
                        s.scroll
                    },
                    ..*s
                }
            } else {
                *s
            };
            proof {
                assert(state == spec_move_down(*s, pids@.len()));
            }
            StepResult { state, request: None, quit: false }
        },
        InputEvent::SortCpu => StepResult {
            state: ViewState { sort: SortCriteria::CPU, ..*s },
            request: None,
            quit: false,
        },
        InputEvent::SortMemory => StepResult {
            state: ViewState { sort: SortCriteria::Memory, ..*s },
            request: None,
            quit: false,
        },
        InputEvent::SortPid => StepResult {
            state: ViewState { sort: SortCriteria::PID, ..*s },
            request: None,
            quit: false,
        },
        InputEvent::SortPriority => StepResult {
            state: ViewState { sort: SortCriteria::PR, ..*s },
            request: None,
            quit: false,
        },
        InputEvent::Kill => StepResult {
            state: *s,
            request: control_for(s, pids, SignalKind::Terminate),
            quit: false,
        },
        InputEvent::Suspend => StepResult {
            state: *s,
            request: control_for(s, pids, SignalKind::Suspend),
            quit: false,
        },
        InputEvent::Resume => StepResult {
            state: *s,
            request: control_for(s, pids, SignalKind::Resume),
            quit: false,
        },
        InputEvent::FocusTree => {
            if in_processes(s) && s.selected < pids.len() {
                StepResult {
                    state: ViewState {
                        mode: ViewMode::ProcessTree,
                        tree_focus: Some(pids[s.selected]),
                        ..*s
                    },
                    request: None,
                    quit: false,
                }
            } else {
                StepResult { state: *s, request: None, quit: false }
            }
        },
    }
}

/// What the selection becomes when a fresh snapshot has `n` rows: pulled
/// back onto the table, with the scroll offset following so the selected
/// row stays inside the window.
pub open spec fn spec_clamp(s: ViewState, n: nat) -> ViewState {
    let sel = if n == 0 {
        0usize
    } else if s.selected >= n {
        (n - 1) as usize
    } else {
        s.selected
    };
    let scroll = if s.scroll > sel {
        sel
    } else if sel >= s.scroll + WINDOW_ROWS {
        (sel - WINDOW_ROWS + 1) as usize
    } else {
        s.scroll
    };
    ViewState { selected: sel, scroll: scroll, ..s }
}

/// Pulls the selection back onto a table of `n` rows after a refresh, so
/// the state is well-formed for the new snapshot whatever the last one
/// held. A state already well-formed for `n` comes back unchanged.
pub fn clamp_selection(s: &ViewState, n: usize) -> (r: ViewState)
    ensures
        r == spec_clamp(*s, n as nat),
        wf(r, n as nat),
        wf(*s, n as nat) ==> r == *s,
{
    let sel: usize = if n == 0 {
        0
    } else if s.selected >= n {
        n - 1
    } else {
        s.selected
    };
    let scroll: usize = if s.scroll > sel {
        sel
    } else if sel >= WINDOW_ROWS && s.scroll <= sel - WINDOW_ROWS {
        sel - WINDOW_ROWS + 1
    } else {
        s.scroll
    };
    ViewState { selected: sel, scroll: scroll, ..*s }
}

/// Selection safety: one step from a state that is well-formed for the
/// displayed table leaves a state that is still well-formed, whatever the
/// event.
pub proof fn lemma_step_preserves_wf(s: ViewState, e: InputEvent, pids: Seq<i32>)
    requires
        pids.len() <= usize::MAX,
        wf(s, pids.len()),
    ensures
        wf(spec_step(s, e, pids).state, pids.len()),
{
    match e {
        InputEvent::Up => {
            assert(wf(spec_move_up(s), pids.len()));
        },
        InputEvent::Down => {
            assert(wf(spec_move_down(s, pids.len()), pids.len()));
        },
        _ => {},
    }
}

/// The states a sequence of events walks through, folded over `spec_step`.
pub open spec fn spec_run(s: ViewState, evs: Seq<InputEvent>, pids: Seq<i32>) -> ViewState
    decreases evs.len(),
{
    if evs.len() == 0 {
        s
    } else {
        spec_run(spec_step(s, evs[0], pids).state, evs.drop_first(), pids)
    }
}

/// Selection safety over any run: after any sequence of events — all the
/// Up/Down navigation included, from an empty table up — the selection is
/// still within `[0, n-1]` and the scroll window still holds it.
pub proof fn lemma_run_preserves_wf(s: ViewState, evs: Seq<InputEvent>, pids: Seq<i32>)
    requires
        pids.len() <= usize::MAX,
        wf(s, pids.len()),
    ensures
        wf(spec_run(s, evs, pids), pids.len()),
    decreases evs.len(),
{
    if evs.len() > 0 {
        lemma_step_preserves_wf(s, evs[0], pids);
        lemma_run_preserves_wf(spec_step(s, evs[0], pids).state, evs.drop_first(), pids);
    }
}

/// Cycling right three times returns every mode to itself.
pub proof fn lemma_cycle_right_three(m: ViewMode)
    ensures
        spec_mode_right(spec_mode_right(spec_mode_right(m))) == m,
{
}

/// Left undoes Right, and Right undoes Left, on every mode.
pub proof fn lemma_left_right_identity(m: ViewMode)
    ensures
        spec_mode_right(spec_mode_left(m)) == m,
        spec_mode_left(spec_mode_right(m)) == m,
{
}

} // verus!
