//! The game inside the editor: which window is taken in, how it is changed and given back, and
//! how its process is followed and ended.
//!
//! The application asks the system and performs each step; what follows from the answers is
//! decided here.
use vstd::prelude::*;

verus! {

/// How long the game's window may take to appear, in milliseconds.
pub const WINDOW_DISCOVERY_TIMEOUT_MS: u64 = 30_000;

/// The style bits of a window with a frame of its own: popup, caption, thick frame, minimize box,
/// maximize box and system menu.
pub const FRAME_STYLES: u32 = 0x80cf_0000;

/// The style bits of a window inside another: child, clipped at children and siblings.
pub const CHILD_STYLES: u32 = 0x4600_0000;

/// The extended style bit of a window in the task bar.
pub const TASK_BAR_STYLE: u32 = 0x0004_0000;

/// The extended style bit of a child that does not notify its parent.
pub const QUIET_CHILD_STYLE: u32 = 0x0000_0004;

/// Whether a click moves the focus into the game: it has to be new, and inside the game's window.
pub fn should_handoff_focus(
    pointer_over_embedded_window: bool,
    mouse_buttons_were_down: bool,
    mouse_buttons_down: bool,
    mouse_button_pressed: bool,
) -> (r: bool)
    ensures
        r == (pointer_over_embedded_window && (mouse_button_pressed || (mouse_buttons_down
            && !mouse_buttons_were_down))),
{
    pointer_over_embedded_window && (mouse_button_pressed || (mouse_buttons_down
        && !mouse_buttons_were_down))
}

/// The key is held.
pub open spec fn is_held(state: u16) -> bool {
    state & 0x8000 != 0
}

/// The key was pressed since it was last asked for.
pub open spec fn was_pressed(state: u16) -> bool {
    state & 1 != 0
}

/// Whether a mouse button is held, and whether one was pressed, from the states of the left, right
/// and middle button.
pub fn mouse_button_state(left: u16, right: u16, middle: u16) -> (r: (bool, bool))
    ensures
        r.0 == (is_held(left) || is_held(right) || is_held(middle)),
        r.1 == (was_pressed(left) || was_pressed(right) || was_pressed(middle)),
{
    (
        left & 0x8000 != 0 || right & 0x8000 != 0 || middle & 0x8000 != 0,
        left & 1 != 0 || right & 1 != 0 || middle & 1 != 0,
    )
}

/// The style of the game's window inside the editor.
pub fn embedded_style(original: u32) -> (r: u32)
    ensures
        r == (original & !FRAME_STYLES) | CHILD_STYLES,
{
    (original & !FRAME_STYLES) | CHILD_STYLES
}

/// The extended style of the game's window inside the editor.
pub fn embedded_ex_style(original: u32) -> (r: u32)
    ensures
        r == (original & !TASK_BAR_STYLE) | QUIET_CHILD_STYLE,
{
    (original & !TASK_BAR_STYLE) | QUIET_CHILD_STYLE
}

/// Inside the editor the window is a child without a frame and without a place in the task bar;
/// no other style changes.
pub proof fn law_embedded_window_has_no_frame(style: u32, ex_style: u32)
    ensures
        ((style & !FRAME_STYLES) | CHILD_STYLES) & FRAME_STYLES == 0,
        ((style & !FRAME_STYLES) | CHILD_STYLES) & CHILD_STYLES == CHILD_STYLES,
        ((style & !FRAME_STYLES) | CHILD_STYLES) & !(FRAME_STYLES | CHILD_STYLES) == style & !(
        FRAME_STYLES | CHILD_STYLES),
        ((ex_style & !TASK_BAR_STYLE) | QUIET_CHILD_STYLE) & TASK_BAR_STYLE == 0,
        ((ex_style & !TASK_BAR_STYLE) | QUIET_CHILD_STYLE) & QUIET_CHILD_STYLE == QUIET_CHILD_STYLE,
{
    assert(((style & !0x80cf_0000u32) | 0x4600_0000u32) & 0x80cf_0000u32 == 0) by (bit_vector);
    assert(((style & !0x80cf_0000u32) | 0x4600_0000u32) & 0x4600_0000u32 == 0x4600_0000u32) by (bit_vector);
    assert(((style & !0x80cf_0000u32) | 0x4600_0000u32) & !(0x80cf_0000u32 | 0x4600_0000u32) == style & !(
    0x80cf_0000u32 | 0x4600_0000u32)) by (bit_vector);
    assert(((ex_style & !0x0004_0000u32) | 0x0000_0004u32) & 0x0004_0000u32 == 0) by (bit_vector);
    assert(((ex_style & !0x0004_0000u32) | 0x0000_0004u32) & 0x0000_0004u32 == 0x0000_0004u32) by (bit_vector);
}

/// The edges of a window.
#[derive(Debug, Clone, Copy, PartialEq, Eq, Structural)]
pub struct WindowRect {
    pub left: i32,
    pub top: i32,
    pub right: i32,
    pub bottom: i32,
}

/// Position and size of a window.
#[derive(Debug, Clone, Copy, PartialEq, Eq, Structural)]
pub struct WindowBounds {
    pub x: i32,
    pub y: i32,
    pub width: i32,
    pub height: i32,
}

/// Width and height fit 32 bits.
pub open spec fn rect_fits(rect: WindowRect) -> bool {
    i32::MIN <= rect.right - rect.left <= i32::MAX && i32::MIN <= rect.bottom - rect.top
        <= i32::MAX
}

/// Where a window is put back: its old place, at least one pixel large.
pub fn restored_bounds(rect: WindowRect) -> (r: WindowBounds)
    requires
        rect_fits(rect),
    ensures
        r.x == rect.left,
        r.y == rect.top,
        r.width == (if rect.right - rect.left < 1 {
            1
        } else {
            rect.right - rect.left
        }),
        r.height == (if rect.bottom - rect.top < 1 {
            1
        } else {
            rect.bottom - rect.top
        }),
{
    let width: i32 = rect.right - rect.left;
    let height: i32 = rect.bottom - rect.top;
    WindowBounds {
        x: rect.left,
        y: rect.top,
        width: if width < 1 {
            1
        } else {
            width
        },
        height: if height < 1 {
            1
        } else {
            height
        },
    }
}

/// A top-level window.
#[derive(Debug, Clone, Copy, PartialEq, Eq, Structural)]
pub struct WindowCandidate {
    pub handle: isize,
    pub process_id: u32,
    pub visible: bool,
    pub has_parent: bool,
    pub rect: Option<WindowRect>,
}

/// The extent between two edges.
pub open spec fn extent(from: i32, to: i32) -> int {
    if to < from {
        0
    } else {
        to - from
    }
}

/// The window is a visible top-level window of the process.
pub open spec fn is_candidate(window: WindowCandidate, process_id: u32) -> bool {
    window.process_id == process_id && window.visible && !window.has_parent
}

/// The area of a window that can be the game's; nothing for any other window.
pub open spec fn render_area(window: WindowCandidate, process_id: u32) -> Option<int> {
    match window.rect {
        Some(rect) => {
            let width = extent(rect.left, rect.right);
            let height = extent(rect.top, rect.bottom);
            if is_candidate(window, process_id) && width >= 320 && height >= 240 {
                Some(width * height)
            } else {
                None
            }
        },
        None => None,
    }
}

/// The handle and the area of the largest window among the first `n`; of equals the first.
pub open spec fn largest(windows: Seq<WindowCandidate>, process_id: u32, n: nat) -> (isize, int)
    decreases n,
{
    if n == 0 {
        (0, 0)
    } else {
        let rest = largest(windows, process_id, (n - 1) as nat);
        match render_area(windows[n - 1], process_id) {
            Some(area) => if area > rest.1 {
                (windows[n - 1].handle, area)
            } else {
                rest
            },
            None => rest,
        }
    }
}

fn area_of(window: &WindowCandidate, process_id: u32) -> (r: Option<i64>)
    requires
        is_candidate(*window, process_id) ==> (window.rect matches Some(rect) ==> rect_fits(rect)),
    ensures
        match r {
            Some(area) => render_area(*window, process_id) == Some(area as int) && area >= 0,
            None => render_area(*window, process_id) is None,
        },
{
    if window.process_id != process_id || !window.visible || window.has_parent {
        return None;
    }
    let rect = match window.rect {
        Some(rect) => rect,
        None => {
            return None;
        },
    };
    let width: i64 = if rect.right < rect.left {
        0
    } else {
        (rect.right - rect.left) as i64
    };
    let height: i64 = if rect.bottom < rect.top {
        0
    } else {
        (rect.bottom - rect.top) as i64
    };
    proof {
        assert(0 <= width * height <= 0x7fff_ffff * 0x7fff_ffff) by (nonlinear_arith)
            requires
                0 <= width <= 0x7fff_ffff,
                0 <= height <= 0x7fff_ffff,
        ;
    }
    if width >= 320 && height >= 240 {
        Some(width * height)
    } else {
        None
    }
}

/// Finds the game's window: the largest visible top-level window of its process that is not too
/// small to play in.
pub fn find_process_window(windows: &[WindowCandidate], process_id: u32) -> (r: Option<isize>)
    requires
        forall|i: int|
            0 <= i < windows@.len() && is_candidate(#[trigger] windows@[i], process_id) ==> (
            windows@[i].rect matches Some(rect) ==> rect_fits(rect)),
    ensures
        r == (if largest(windows@, process_id, windows@.len()).0 != 0 {
            Some(largest(windows@, process_id, windows@.len()).0)
        } else {
            None
        }),
{
    let mut best_handle: isize = 0;
    let mut best_area: i64 = 0;
    let mut i: usize = 0;
    while i < windows.len()
        invariant
            i <= windows.len(),
            forall|j: int|
                0 <= j < windows@.len() && is_candidate(#[trigger] windows@[j], process_id) ==> (
                windows@[j].rect matches Some(rect) ==> rect_fits(rect)),
            (best_handle, best_area as int) == largest(windows@, process_id, i as nat),
        decreases windows.len() - i,
    {
        assert(is_candidate(windows@[i as int], process_id) ==> (windows@[i as int].rect matches Some(
            rect,
        ) ==> rect_fits(rect)));
        if let Some(area) = area_of(&windows[i], process_id) {
            if area > best_area {
                best_handle = windows[i].handle;
                best_area = area;
            }
        }
        i += 1;
    }
    if best_handle != 0 {
        Some(best_handle)
    } else {
        None
    }
}

/// Whether a call that returns the previous value failed: zero is a value too, so only the error
/// code tells.
pub fn call_failed(value: isize, error_code: u32) -> (r: bool)
    ensures
        r == (value == 0 && error_code != 0),
{
    value == 0 && error_code != 0
}

/// How the focus is moved to a window.
#[derive(Debug, Clone, Copy, PartialEq, Eq, Structural)]
pub enum FocusPlan {
    Nothing,
    /// Both windows belong to one thread.
    Direct,
    /// The threads' input is joined for the change.
    Joined,
}

/// How the focus is moved to a window: not at all where a window or its thread is unknown.
pub fn focus_window(target: isize, host: isize, editor_thread: u32, game_thread: u32) -> (r:
    FocusPlan)
    ensures
        r == (if target == 0 || host == 0 || editor_thread == 0 || game_thread == 0 {
            FocusPlan::Nothing
        } else if editor_thread == game_thread {
            FocusPlan::Direct
        } else {
            FocusPlan::Joined
        }),
{
    if target == 0 || host == 0 || editor_thread == 0 || game_thread == 0 {
        FocusPlan::Nothing
    } else if editor_thread == game_thread {
        FocusPlan::Direct
    } else {
        FocusPlan::Joined
    }
}

/// A step of taking a window in.
#[derive(Debug, Clone, Copy, PartialEq, Eq, Structural)]
pub enum AttachStep {
    ApplyStyle,
    ApplyExStyle,
    SetParent,
    RefreshFrame,
    Show,
    Focus,
    RestoreStyle,
    RestoreExStyle,
    Detach,
    Attached,
    Failed,
}

/// The step that follows: what goes wrong before the window is in the editor restores its styles,
/// what goes wrong after gives it back.
pub open spec fn attach_next(step: AttachStep, succeeded: bool) -> AttachStep {
    match step {
        AttachStep::ApplyStyle => if succeeded {
            AttachStep::ApplyExStyle
        } else {
            AttachStep::RestoreStyle
        },
        AttachStep::ApplyExStyle => if succeeded {
            AttachStep::SetParent
        } else {
            AttachStep::RestoreStyle
        },
        AttachStep::SetParent => if succeeded {
            AttachStep::RefreshFrame
        } else {
            AttachStep::RestoreStyle
        },
        AttachStep::RefreshFrame => if succeeded {
            AttachStep::Show
        } else {
            AttachStep::Detach
        },
        AttachStep::Show => AttachStep::Focus,
        AttachStep::Focus => AttachStep::Attached,
        AttachStep::RestoreStyle => AttachStep::RestoreExStyle,
        AttachStep::RestoreExStyle => AttachStep::Failed,
        AttachStep::Detach => AttachStep::Failed,
        AttachStep::Attached => AttachStep::Attached,
        AttachStep::Failed => AttachStep::Failed,
    }
}

/// The step that follows when a window is taken in.
pub fn after_attach_step(step: AttachStep, succeeded: bool) -> (r: AttachStep)
    ensures
        r == attach_next(step, succeeded),
{
    match step {
        AttachStep::ApplyStyle => if succeeded {
            AttachStep::ApplyExStyle
        } else {
            AttachStep::RestoreStyle
        },
        AttachStep::ApplyExStyle => if succeeded {
            AttachStep::SetParent
        } else {
            AttachStep::RestoreStyle
        },
        AttachStep::SetParent => if succeeded {
            AttachStep::RefreshFrame
        } else {
            AttachStep::RestoreStyle
        },
        AttachStep::RefreshFrame => if succeeded {
            AttachStep::Show
        } else {
            AttachStep::Detach
        },
        AttachStep::Show => AttachStep::Focus,
        AttachStep::Focus => AttachStep::Attached,
        AttachStep::RestoreStyle => AttachStep::RestoreExStyle,
        AttachStep::RestoreExStyle => AttachStep::Failed,
        AttachStep::Detach => AttachStep::Failed,
        AttachStep::Attached => AttachStep::Attached,
        AttachStep::Failed => AttachStep::Failed,
    }
}

/// The step after some outcomes, from the start.
pub open spec fn attach_run(outcomes: Seq<bool>) -> AttachStep
    decreases outcomes.len(),
{
    if outcomes.len() == 0 {
        AttachStep::ApplyStyle
    } else {
        attach_next(attach_run(outcomes.drop_last()), outcomes.last())
    }
}

/// Taking a window in ends after six steps at most. It succeeds exactly where none of the first
/// four fails; where one of them fails it is either given back or gets its styles back.
pub proof fn law_attaching_ends(outcomes: Seq<bool>)
    requires
        outcomes.len() == 6,
    ensures
        attach_run(outcomes) == (if outcomes[0] && outcomes[1] && outcomes[2] && outcomes[3] {
            AttachStep::Attached
        } else {
            AttachStep::Failed
        }),
        !(outcomes[0] && outcomes[1] && outcomes[2]) ==> exists|k: int|
            1 <= k <= 3 && #[trigger] attach_run(outcomes.take(k)) == AttachStep::RestoreStyle
                && attach_run(outcomes.take(k + 1)) == AttachStep::RestoreExStyle,
        outcomes[0] && outcomes[1] && outcomes[2] && !outcomes[3] ==> attach_run(outcomes.take(4))
            == AttachStep::Detach,
{
    reveal_with_fuel(attach_run, 7);
    let o = outcomes;
    assert(o.take(0).len() == 0);
    assert(o.take(1).drop_last() =~= o.take(0));
    assert(o.take(2).drop_last() =~= o.take(1));
    assert(o.take(3).drop_last() =~= o.take(2));
    assert(o.take(4).drop_last() =~= o.take(3));
    assert(o.take(5).drop_last() =~= o.take(4));
    assert(o.drop_last() =~= o.take(5));
    assert(attach_run(o.take(1)) == attach_next(AttachStep::ApplyStyle, o[0]));
    assert(attach_run(o.take(2)) == attach_next(attach_run(o.take(1)), o[1]));
    assert(attach_run(o.take(3)) == attach_next(attach_run(o.take(2)), o[2]));
    assert(attach_run(o.take(4)) == attach_next(attach_run(o.take(3)), o[3]));
    assert(attach_run(o.take(5)) == attach_next(attach_run(o.take(4)), o[4]));
    assert(attach_run(o) == attach_next(attach_run(o.take(5)), o[5]));
    if !(o[0] && o[1] && o[2]) {
        let k: int = if !o[0] {
            1
        } else if !o[1] {
            2
        } else {
            3
        };
        assert(attach_run(o.take(k)) == AttachStep::RestoreStyle);
        assert(attach_run(o.take(k + 1)) == AttachStep::RestoreExStyle);
    }
}

/// A step of giving a window back.
#[derive(Debug, Clone, Copy, PartialEq, Eq, Structural)]
pub enum DetachStep {
    Hide,
    SetParent,
    RestoreStyle,
    RestoreExStyle,
    Place,
    Show,
    Detached,
    Failed,
}

/// The step that follows when a window is given back; hiding and showing cannot fail.
pub fn after_detach_step(step: DetachStep, succeeded: bool) -> (r: DetachStep)
    ensures
        r == (match step {
            DetachStep::Hide => DetachStep::SetParent,
            DetachStep::SetParent => if succeeded {
                DetachStep::RestoreStyle
            } else {
                DetachStep::Failed
            },
            DetachStep::RestoreStyle => if succeeded {
                DetachStep::RestoreExStyle
            } else {
                DetachStep::Failed
            },
            DetachStep::RestoreExStyle => if succeeded {
                DetachStep::Place
            } else {
                DetachStep::Failed
            },
            DetachStep::Place => if succeeded {
                DetachStep::Show
            } else {
                DetachStep::Failed
            },
            DetachStep::Show => DetachStep::Detached,
            DetachStep::Detached => DetachStep::Detached,
            DetachStep::Failed => DetachStep::Failed,
        }),
{
    match step {
        DetachStep::Hide => DetachStep::SetParent,
        DetachStep::SetParent => if succeeded {
            DetachStep::RestoreStyle
        } else {
            DetachStep::Failed
        },
        DetachStep::RestoreStyle => if succeeded {
            DetachStep::RestoreExStyle
        } else {
            DetachStep::Failed
        },
        DetachStep::RestoreExStyle => if succeeded {
            DetachStep::Place
        } else {
            DetachStep::Failed
        },
        DetachStep::Place => if succeeded {
            DetachStep::Show
        } else {
            DetachStep::Failed
        },
        DetachStep::Show => DetachStep::Detached,
        DetachStep::Detached => DetachStep::Detached,
        DetachStep::Failed => DetachStep::Failed,
    }
}

/// The game's window inside the editor, and what it was before.
#[derive(Debug, Clone, Copy, PartialEq, Eq, Structural)]
pub struct EmbeddedWindow {
    pub handle: isize,
    pub host: isize,
    pub original_parent: isize,
    pub original_style: isize,
    pub original_ex_style: isize,
    pub original_rect: WindowRect,
    pub last_bounds: Option<WindowBounds>,
    pub mouse_buttons_were_down: bool,
    pub detached: bool,
}

impl EmbeddedWindow {
    /// Takes note of the mouse and says whether the focus moves into the game. Without a cursor
    /// position it does not.
    pub fn poll_focus_handoff(
        &mut self,
        buttons_down: bool,
        button_pressed: bool,
        pointer_over_embedded_window: Option<bool>,
    ) -> (r: bool)
        ensures
            *final(self) == (EmbeddedWindow { mouse_buttons_were_down: buttons_down, ..*old(self) }),
            r == (pointer_over_embedded_window == Some(true) && (button_pressed || (buttons_down
                && !old(self).mouse_buttons_were_down))),
    {
        let were_down: bool = self.mouse_buttons_were_down;
        self.mouse_buttons_were_down = buttons_down;
        match pointer_over_embedded_window {
            None => false,
            Some(over) => should_handoff_focus(over, were_down, buttons_down, button_pressed),
        }
    }

    /// Whether the window has to be moved to these bounds.
    pub fn needs_bounds(&self, bounds: WindowBounds) -> (r: bool)
        ensures
            r == (self.last_bounds != Some(bounds)),
    {
        match self.last_bounds {
            Some(last) => last != bounds,
            None => true,
        }
    }

    /// Takes note of where the window was moved; a move that failed is tried again.
    pub fn set_bounds(&mut self, bounds: WindowBounds, moved: bool)
        ensures
            *final(self) == (if moved {
                EmbeddedWindow { last_bounds: Some(bounds), ..*old(self) }
            } else {
                *old(self)
            }),
    {
        if moved {
            self.last_bounds = Some(bounds);
        }
    }

    /// Begins to give the window back; nothing is left to do where that is done or the window is
    /// gone.
    pub fn detach(&mut self, valid: bool) -> (r: DetachStep)
        ensures
            r == (if old(self).detached || !valid {
                DetachStep::Detached
            } else {
                DetachStep::Hide
            }),
            *final(self) == (EmbeddedWindow {
                detached: old(self).detached || !valid,
                ..*old(self)
            }),
    {
        if self.detached || !valid {
            self.detached = true;
            DetachStep::Detached
        } else {
            DetachStep::Hide
        }
    }
}

/// What the system says about the game's process.
#[derive(Debug, Clone, Copy, PartialEq, Eq, Structural)]
pub enum ProcessStatus {
    Unknown,
    Running,
    Exited,
}

/// What is asked or reported next when the game is polled.
#[derive(Debug, Clone, Copy, PartialEq, Eq, Structural)]
pub enum PollStep {
    /// Ask whether the window is still there.
    CheckWindow,
    /// Let the mouse move the focus; nothing else happened.
    PollFocus,
    /// Look for the game's window.
    FindWindow,
    /// Take this window in.
    Attach(isize),
    /// Nothing happened.
    Idle,
    /// The window was taken in.
    Attached,
    /// The process ended.
    Exited,
    /// The window could not be taken in.
    AttachFailed,
    /// The windows could not be listed.
    SearchFailed,
    /// The process could not be asked.
    StatusFailed,
    /// The window did not appear in time.
    TimedOut,
}

/// What ends, or goes on, when the game is stopped.
#[derive(Debug, Clone, Copy, PartialEq, Eq, Structural)]
pub enum StopStep {
    /// Ask for the process.
    QueryProcess,
    /// End the process.
    Kill,
    /// Wait for its end.
    Wait,
    /// It has ended.
    Stopped,
    /// The process could not be asked.
    StatusFailed,
    /// The process could not be ended.
    KillFailed,
    /// Its end could not be awaited.
    WaitFailed,
}

/// A run of the game inside the editor.
#[derive(Debug, Clone, Copy, PartialEq, Eq, Structural)]
pub struct EmbeddedDolphinSession {
    pub window: Option<EmbeddedWindow>,
    pub terminated: bool,
}

impl EmbeddedDolphinSession {
    /// A run whose window has not appeared yet.
    pub fn new() -> (r: EmbeddedDolphinSession)
        ensures
            r == (EmbeddedDolphinSession { window: None, terminated: false }),
    {
        EmbeddedDolphinSession { window: None, terminated: false }
    }

    /// Whether the game's window is in the editor.
    pub fn is_attached(&self) -> (r: bool)
        ensures
            r == (self.window is Some),
    {
        match self.window {
            Some(_) => true,
            None => false,
        }
    }

    /// What follows from the state of the process. On a system without window embedding only the
    /// time is watched.
    pub fn poll(&self, status: ProcessStatus, embeds: bool, elapsed_ms: u64) -> (r: PollStep)
        ensures
            r == (match status {
                ProcessStatus::Unknown => PollStep::StatusFailed,
                ProcessStatus::Exited => PollStep::Exited,
                ProcessStatus::Running => if !embeds {
                    waiting_step(elapsed_ms)
                } else if self.window is Some {
                    PollStep::CheckWindow
                } else {
                    PollStep::FindWindow
                },
            }),
    {
        match status {
            ProcessStatus::Unknown => PollStep::StatusFailed,
            ProcessStatus::Exited => PollStep::Exited,
            ProcessStatus::Running => if !embeds {
                wait_on(elapsed_ms)
            } else if self.is_attached() {
                PollStep::CheckWindow
            } else {
                PollStep::FindWindow
            },
        }
    }

    /// What follows from the state of the window: one that is gone is looked for again.
    pub fn after_window_check(&mut self, valid: bool) -> (r: PollStep)
        ensures
            r == (if valid {
                PollStep::PollFocus
            } else {
                PollStep::FindWindow
            }),
            *final(self) == (if valid {
                *old(self)
            } else {
                EmbeddedDolphinSession { window: None, ..*old(self) }
            }),
    {
        if valid {
            PollStep::PollFocus
        } else {
            self.window = None;
            PollStep::FindWindow
        }
    }

    /// What follows from the search for the window.
    pub fn after_window_search(&self, found: Result<Option<isize>, ()>, elapsed_ms: u64) -> (r:
        PollStep)
        ensures
            r == (match found {
                Err(_) => PollStep::SearchFailed,
                Ok(Some(handle)) => PollStep::Attach(handle),
                Ok(None) => waiting_step(elapsed_ms),
            }),
    {
        match found {
            Err(_) => PollStep::SearchFailed,
            Ok(Some(handle)) => PollStep::Attach(handle),
            Ok(None) => wait_on(elapsed_ms),
        }
    }

    /// What follows from the attempt to take the window in.
    pub fn after_attach(&mut self, attached: Option<EmbeddedWindow>) -> (r: PollStep)
        ensures
            match attached {
                Some(window) => r == PollStep::Attached && *final(self) == (EmbeddedDolphinSession {
                    window: Some(window),
                    ..*old(self)
                }),
                None => r == PollStep::AttachFailed && *final(self) == *old(self),
            },
    {
        match attached {
            Some(window) => {
                self.window = Some(window);
                PollStep::Attached
            },
            None => PollStep::AttachFailed,
        }
    }

    /// Gives up the window, which is to be given back.
    pub fn detach_window(&mut self) -> (r: Option<EmbeddedWindow>)
        ensures
            r == old(self).window,
            *final(self) == (EmbeddedDolphinSession { window: None, ..*old(self) }),
    {
        let window = self.window;
        self.window = None;
        window
    }

    /// Begins to end the run, after its window was given up; a run ends once.
    pub fn terminate(&self) -> (r: StopStep)
        ensures
            r == (if self.terminated {
                StopStep::Stopped
            } else {
                StopStep::QueryProcess
            }),
    {
        if self.terminated {
            StopStep::Stopped
        } else {
            StopStep::QueryProcess
        }
    }

    /// What follows from a step of ending the run: a process that has ended is not killed.
    pub fn after_stop_step(&mut self, step: StopStep, status: ProcessStatus, succeeded: bool) -> (r:
        StopStep)
        ensures
            r == stop_next(step, status, succeeded),
            *final(self) == (EmbeddedDolphinSession {
                terminated: old(self).terminated || r == StopStep::Stopped,
                ..*old(self)
            }),
    {
        let next = match step {
            StopStep::QueryProcess => match status {
                ProcessStatus::Unknown => StopStep::StatusFailed,
                ProcessStatus::Exited => StopStep::Stopped,
                ProcessStatus::Running => StopStep::Kill,
            },
            StopStep::Kill => if succeeded {
                StopStep::Wait
            } else {
                StopStep::KillFailed
            },
            StopStep::Wait => if succeeded {
                StopStep::Stopped
            } else {
                StopStep::WaitFailed
            },
            _ => step,
        };
        if next == StopStep::Stopped {
            self.terminated = true;
        }
        next
    }
}

/// What follows while the window has not appeared.
pub open spec fn waiting_step(elapsed_ms: u64) -> PollStep {
    if elapsed_ms >= WINDOW_DISCOVERY_TIMEOUT_MS {
        PollStep::TimedOut
    } else {
        PollStep::Idle
    }
}

fn wait_on(elapsed_ms: u64) -> (r: PollStep)
    ensures
        r == waiting_step(elapsed_ms),
{
    if elapsed_ms >= WINDOW_DISCOVERY_TIMEOUT_MS {
        PollStep::TimedOut
    } else {
        PollStep::Idle
    }
}

/// What follows from a step of ending a run.
pub open spec fn stop_next(step: StopStep, status: ProcessStatus, succeeded: bool) -> StopStep {
    match step {
        StopStep::QueryProcess => match status {
            ProcessStatus::Unknown => StopStep::StatusFailed,
            ProcessStatus::Exited => StopStep::Stopped,
            ProcessStatus::Running => StopStep::Kill,
        },
        StopStep::Kill => if succeeded {
            StopStep::Wait
        } else {
            StopStep::KillFailed
        },
        StopStep::Wait => if succeeded {
            StopStep::Stopped
        } else {
            StopStep::WaitFailed
        },
        _ => step,
    }
}

/// A running game that can be ended and awaited is stopped.
pub proof fn law_a_running_game_is_stopped(status: ProcessStatus)
    ensures
        stop_next(
            stop_next(
                stop_next(StopStep::QueryProcess, ProcessStatus::Running, true),
                status,
                true,
            ),
            status,
            true,
        ) == StopStep::Stopped,
        stop_next(StopStep::QueryProcess, ProcessStatus::Exited, false) == StopStep::Stopped,
{
}

/// A message about a system call: what was tried, and what the system said.
pub open spec fn failure_text(action: Seq<char>, error: Seq<char>) -> Seq<char> {
    action + ": "@ + error
}

/// The message about a system call that failed.
pub fn last_error(action: &str, error: &str) -> (r: String)
    ensures
        r@ == failure_text(action@, error@),
{
    let mut r = action.to_owned();
    r.append(": ");
    r.append(error);
    r
}

/// What is said where the game cannot be polled or stopped; `error` is what the system said.
pub open spec fn poll_failure_text(step: PollStep, error: Seq<char>) -> Option<Seq<char>> {
    match step {
        PollStep::StatusFailed => Some(
            failure_text("cannot query Dolphin process state"@, error),
        ),
        PollStep::TimedOut => Some(
            "Dolphin started, but its render window did not appear within 30 seconds"@,
        ),
        PollStep::AttachFailed => Some(error),
        PollStep::SearchFailed => Some(failure_text("enumerate Dolphin windows"@, error)),
        _ => None,
    }
}

/// What is said where the game cannot be polled.
pub fn poll_failure(step: PollStep, error: &str) -> (r: Option<String>)
    ensures
        match r {
            Some(message) => poll_failure_text(step, error@) == Some(message@),
            None => poll_failure_text(step, error@) is None,
        },
{
    match step {
        PollStep::StatusFailed => Some(last_error("cannot query Dolphin process state", error)),
        PollStep::TimedOut => Some(
            "Dolphin started, but its render window did not appear within 30 seconds".to_owned(),
        ),
        PollStep::AttachFailed => Some(error.to_owned()),
        PollStep::SearchFailed => Some(last_error("enumerate Dolphin windows", error)),
        _ => None,
    }
}

/// What is said where the game cannot be stopped.
pub open spec fn stop_failure_text(step: StopStep, error: Seq<char>) -> Option<Seq<char>> {
    match step {
        StopStep::StatusFailed => Some(
            failure_text("cannot query Dolphin process state"@, error),
        ),
        StopStep::KillFailed => Some(failure_text("failed to stop Dolphin"@, error)),
        StopStep::WaitFailed => Some(failure_text("failed to finish stopping Dolphin"@, error)),
        _ => None,
    }
}

/// What is said where the game cannot be stopped.
pub fn stop_failure(step: StopStep, error: &str) -> (r: Option<String>)
    ensures
        match r {
            Some(message) => stop_failure_text(step, error@) == Some(message@),
            None => stop_failure_text(step, error@) is None,
        },
{
    match step {
        StopStep::StatusFailed => Some(last_error("cannot query Dolphin process state", error)),
        StopStep::KillFailed => Some(last_error("failed to stop Dolphin", error)),
        StopStep::WaitFailed => Some(last_error("failed to finish stopping Dolphin", error)),
        _ => None,
    }
}

} // verus!
