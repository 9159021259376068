//! How a running game is found, taken into the editor and let go.
use vstd::prelude::*;

use crate::play_in_editor;
use crate::play_in_editor::{
    AttachStep, PollStep, ProcessStatus, StopStep, WindowCandidate,
};

verus! {

/// A window of the game: of its process, visible, standing alone, and at least 320 by 240.
pub open spec fn is_game_window(window: WindowCandidate, process_id: u32) -> bool {
    &&& window.process_id == process_id
    &&& window.visible
    &&& !window.has_parent
    &&& window.rect matches Some(rect)
    &&& rect.right - rect.left >= 320
    &&& rect.bottom - rect.top >= 240
}

/// The area of a window.
pub open spec fn area(window: WindowCandidate) -> int {
    let rect = window.rect->0;
    (rect.right - rect.left) * (rect.bottom - rect.top)
}

/// The window that is taken is a window of the game, and no other window of the game is larger;
/// one is taken whenever there is any.
pub proof fn law_the_largest_game_window_is_taken(
    windows: Seq<WindowCandidate>,
    process_id: u32,
    n: nat,
)
    requires
        n <= windows.len(),
    ensures
        ({
            let found = play_in_editor::largest(windows, process_id, n);
            &&& found.1 >= 0
            &&& forall|i: int|
                0 <= i < n && is_game_window(#[trigger] windows[i], process_id) ==> area(
                    windows[i],
                ) <= found.1 && found.1 > 0
            &&& found.1 > 0 ==> exists|i: int|
                0 <= i < n && is_game_window(#[trigger] windows[i], process_id) && area(windows[i])
                    == found.1 && windows[i].handle == found.0
            &&& found.1 == 0 ==> found.0 == 0
        }),
    decreases n,
{
    if n > 0 {
        let m = (n - 1) as nat;
        law_the_largest_game_window_is_taken(windows, process_id, m);
        let rest = play_in_editor::largest(windows, process_id, m);
        let found = play_in_editor::largest(windows, process_id, n);
        let last = windows[n - 1];
        if is_game_window(last, process_id) {
            let rect = last.rect->0;
            let width = rect.right - rect.left;
            let height = rect.bottom - rect.top;
            assert(width * height >= 320 * 240) by (nonlinear_arith)
                requires
                    width >= 320,
                    height >= 240,
            ;
            assert(play_in_editor::render_area(last, process_id) == Some(width * height));
        } else {
            assert(play_in_editor::render_area(last, process_id) is None);
        }
        if found != rest {
            assert(is_game_window(windows[n - 1], process_id) && area(windows[n - 1]) == found.1);
        } else if found.1 > 0 {
            let i = choose|i: int|
                0 <= i < m && is_game_window(#[trigger] windows[i], process_id) && area(windows[i])
                    == rest.1 && windows[i].handle == rest.0;
            assert(is_game_window(windows[i], process_id));
        }
    }
}

/// A taken window has lost its caption, border, buttons and pop-up style, and is a child that
/// clips; outside these it is styled as before, and so it leaves the task bar.
pub proof fn law_taken_windows_are_children(style: u32, ex_style: u32)
    ensures
        (style & !play_in_editor::FRAME_STYLES) | play_in_editor::CHILD_STYLES == (style
            & 0x7f30_ffffu32) | 0x4600_0000u32,
        (ex_style & !play_in_editor::TASK_BAR_STYLE) | play_in_editor::QUIET_CHILD_STYLE == (
        ex_style & 0xfffb_ffffu32) | 0x0000_0004u32,
{
    assert((style & !0x80cf_0000u32) | 0x4600_0000u32 == (style & 0x7f30_ffffu32) | 0x4600_0000u32)
        by (bit_vector);
    assert((ex_style & !0x0004_0000u32) | 0x0000_0004u32 == (ex_style & 0xfffb_ffffu32)
        | 0x0000_0004u32) by (bit_vector);
}

/// A button counts as held by the highest bit of its state, and as pressed by the lowest.
pub proof fn law_button_states_are_bits(state: u16)
    ensures
        play_in_editor::is_held(state) <==> state >= 0x8000,
        play_in_editor::was_pressed(state) <==> state % 2 == 1,
{
    assert((state & 0x8000u16 != 0) <==> state >= 0x8000u16) by (bit_vector);
    assert((state & 1u16 != 0) <==> state % 2u16 == 1u16) by (bit_vector);
}

/// The editor waits half a minute for the window of a game.
pub proof fn law_the_window_is_awaited_half_a_minute(elapsed_ms: u64)
    ensures
        elapsed_ms < 30_000 ==> play_in_editor::waiting_step(elapsed_ms) == PollStep::Idle,
        elapsed_ms >= 30_000 ==> play_in_editor::waiting_step(elapsed_ms) == PollStep::TimedOut,
{
}

/// A window is restyled before it gets its new parent, and is shown and focused only behind that;
/// where a step fails, both styles are restored, or the window is let go where it had its parent
/// already.
pub proof fn law_a_window_is_taken_step_by_step(succeeded: bool)
    ensures
        play_in_editor::attach_next(AttachStep::ApplyStyle, true) == AttachStep::ApplyExStyle,
        play_in_editor::attach_next(AttachStep::ApplyExStyle, true) == AttachStep::SetParent,
        play_in_editor::attach_next(AttachStep::SetParent, true) == AttachStep::RefreshFrame,
        play_in_editor::attach_next(AttachStep::RefreshFrame, true) == AttachStep::Show,
        play_in_editor::attach_next(AttachStep::Show, succeeded) == AttachStep::Focus,
        play_in_editor::attach_next(AttachStep::Focus, succeeded) == AttachStep::Attached,
        play_in_editor::attach_next(AttachStep::ApplyStyle, false) == AttachStep::RestoreStyle,
        play_in_editor::attach_next(AttachStep::ApplyExStyle, false) == AttachStep::RestoreStyle,
        play_in_editor::attach_next(AttachStep::SetParent, false) == AttachStep::RestoreStyle,
        play_in_editor::attach_next(AttachStep::RestoreStyle, succeeded)
            == AttachStep::RestoreExStyle,
        play_in_editor::attach_next(AttachStep::RestoreExStyle, succeeded) == AttachStep::Failed,
        play_in_editor::attach_next(AttachStep::RefreshFrame, false) == AttachStep::Detach,
        play_in_editor::attach_next(AttachStep::Detach, succeeded) == AttachStep::Failed,
{
}

/// Only a game that still runs is ended, and one counts as stopped only where it was gone already
/// or was ended and awaited; a status that cannot be read ends nothing.
pub proof fn law_only_a_running_game_is_ended(
    step: StopStep,
    status: ProcessStatus,
    succeeded: bool,
)
    ensures
        ({
            let next = play_in_editor::stop_next(step, status, succeeded);
            &&& next == StopStep::Kill && step != StopStep::Kill ==> step == StopStep::QueryProcess
                && status == ProcessStatus::Running
            &&& next == StopStep::Stopped && step != StopStep::Stopped ==> (step
                == StopStep::QueryProcess && status == ProcessStatus::Exited) || (step
                == StopStep::Wait && succeeded)
            &&& step == StopStep::QueryProcess && status == ProcessStatus::Unknown ==> next
                == StopStep::StatusFailed
            &&& step == StopStep::Kill ==> next == (if succeeded {
                StopStep::Wait
            } else {
                StopStep::KillFailed
            })
            &&& step == StopStep::Wait && !succeeded ==> next == StopStep::WaitFailed
        }),
{
}

/// Of windows that are equally large the first is kept.
pub proof fn law_the_first_of_equal_windows_is_kept(
    windows: Seq<WindowCandidate>,
    process_id: u32,
    n: nat,
)
    requires
        n < windows.len(),
    ensures
        ({
            let before = play_in_editor::largest(windows, process_id, n);
            let after = play_in_editor::largest(windows, process_id, n + 1);
            let last = windows[n as int];
            &&& !is_game_window(last, process_id) ==> after == before
            &&& is_game_window(last, process_id) && area(last) <= before.1 ==> after == before
            &&& is_game_window(last, process_id) && area(last) > before.1 ==> after == (
                last.handle,
                area(last),
            )
        }),
{
    let last = windows[n as int];
    if is_game_window(last, process_id) {
        assert(play_in_editor::render_area(last, process_id) == Some(area(last)));
    } else {
        assert(play_in_editor::render_area(last, process_id) is None);
    }
}

} // verus!
