use graffito_editor::play_in_editor::{
    after_attach_step, after_detach_step, call_failed, embedded_ex_style, embedded_style,
    find_process_window, focus_window, last_error, mouse_button_state, poll_failure,
    restored_bounds, should_handoff_focus, stop_failure, AttachStep, DetachStep,
    EmbeddedDolphinSession, EmbeddedWindow, FocusPlan, PollStep, ProcessStatus, StopStep,
    WindowBounds, WindowCandidate, WindowRect,
};

#[test]
fn focus_handoff_requires_a_new_click_inside_the_embedded_window() {
    assert!(should_handoff_focus(true, false, true, false));
    assert!(should_handoff_focus(true, false, false, true));
    assert!(!should_handoff_focus(true, true, true, false));
    assert!(!should_handoff_focus(false, false, true, true));
}

fn window() -> EmbeddedWindow {
    EmbeddedWindow {
        handle: 10,
        host: 20,
        original_parent: 0,
        original_style: 1,
        original_ex_style: 2,
        original_rect: WindowRect {
            left: 5,
            top: 6,
            right: 645,
            bottom: 486,
        },
        last_bounds: None,
        mouse_buttons_were_down: false,
        detached: false,
    }
}

fn candidate(handle: isize, process_id: u32, width: i32, height: i32) -> WindowCandidate {
    WindowCandidate {
        handle,
        process_id,
        visible: true,
        has_parent: false,
        rect: Some(WindowRect {
            left: 10,
            top: 10,
            right: 10 + width,
            bottom: 10 + height,
        }),
    }
}

#[test]
fn mouse_states_tell_held_and_pressed_buttons() {
    assert_eq!(mouse_button_state(0, 0, 0), (false, false));
    assert_eq!(mouse_button_state(0x8000, 0, 0), (true, false));
    assert_eq!(mouse_button_state(0, 1, 0), (false, true));
    assert_eq!(mouse_button_state(0, 0, 0x8001), (true, true));
}

#[test]
fn an_embedded_window_loses_its_frame() {
    assert_eq!(embedded_style(0x16cf_0000), 0x5600_0000);
    assert_eq!(embedded_ex_style(0x0004_0100), 0x0000_0104);
}

#[test]
fn the_largest_window_of_the_process_is_taken() {
    let mut hidden = candidate(4, 7, 4000, 4000);
    hidden.visible = false;
    let mut child = candidate(5, 7, 4000, 4000);
    child.has_parent = true;
    let mut lost = candidate(6, 7, 4000, 4000);
    lost.rect = None;
    let mut endless = candidate(10, 8, 640, 480);
    endless.rect = Some(WindowRect {
        left: i32::MIN,
        top: i32::MIN,
        right: i32::MAX,
        bottom: i32::MAX,
    });
    let windows = [
        candidate(1, 7, 640, 480),
        candidate(2, 7, 1280, 960),
        candidate(3, 8, 2000, 2000),
        hidden,
        child,
        lost,
        candidate(9, 7, 1280, 960),
        endless,
    ];
    assert_eq!(find_process_window(&windows, 7), Some(2));
    assert_eq!(find_process_window(&[candidate(1, 7, 319, 900)], 7), None);
    assert_eq!(find_process_window(&[candidate(1, 7, 900, 239)], 7), None);
    assert_eq!(find_process_window(&[candidate(1, 7, 320, 240)], 7), Some(1));
}

#[test]
fn attaching_undoes_what_it_began() {
    let run = |failing: AttachStep| {
        let mut step = AttachStep::ApplyStyle;
        let mut seen = vec![];
        while step != AttachStep::Attached && step != AttachStep::Failed {
            seen.push(step);
            step = after_attach_step(step, step != failing);
        }
        (seen, step)
    };
    let (seen, end) = run(AttachStep::SetParent);
    assert_eq!(end, AttachStep::Failed);
    assert_eq!(
        seen,
        vec![
            AttachStep::ApplyStyle,
            AttachStep::ApplyExStyle,
            AttachStep::SetParent,
            AttachStep::RestoreStyle,
            AttachStep::RestoreExStyle,
        ]
    );
    let (seen, end) = run(AttachStep::RefreshFrame);
    assert_eq!(end, AttachStep::Failed);
    assert_eq!(seen.last(), Some(&AttachStep::Detach));
    let (_, end) = run(AttachStep::Failed);
    assert_eq!(end, AttachStep::Attached);
}

#[test]
fn detaching_stops_at_the_first_failure() {
    let mut step = DetachStep::Hide;
    let mut count = 0;
    while step != DetachStep::Detached {
        step = after_detach_step(step, true);
        count += 1;
    }
    assert_eq!(count, 6);
    assert_eq!(
        after_detach_step(DetachStep::Hide, false),
        DetachStep::SetParent
    );
    assert_eq!(
        after_detach_step(DetachStep::Place, false),
        DetachStep::Failed
    );
    let mut gone = window();
    assert_eq!(gone.detach(false), DetachStep::Detached);
    assert!(gone.detached);
    let mut there = window();
    assert_eq!(there.detach(true), DetachStep::Hide);
    assert!(!there.detached);
}

#[test]
fn windows_are_put_back_where_they_were() {
    assert_eq!(
        restored_bounds(window().original_rect),
        WindowBounds {
            x: 5,
            y: 6,
            width: 640,
            height: 480
        }
    );
    let flat = WindowRect {
        left: 3,
        top: 3,
        right: 3,
        bottom: 1,
    };
    assert_eq!(
        restored_bounds(flat),
        WindowBounds {
            x: 3,
            y: 3,
            width: 1,
            height: 1
        }
    );
}

#[test]
fn bounds_are_set_once() {
    let bounds = WindowBounds {
        x: 0,
        y: 0,
        width: 10,
        height: 10,
    };
    let mut window = window();
    assert!(window.needs_bounds(bounds));
    window.set_bounds(bounds, false);
    assert!(window.needs_bounds(bounds));
    window.set_bounds(bounds, true);
    assert!(!window.needs_bounds(bounds));
}

#[test]
fn focus_follows_a_click_into_the_window() {
    let mut window = window();
    assert!(!window.poll_focus_handoff(true, false, None));
    assert!(window.mouse_buttons_were_down);
    assert!(!window.poll_focus_handoff(true, false, Some(true)));
    assert!(!window.poll_focus_handoff(false, false, Some(true)));
    assert!(window.poll_focus_handoff(true, false, Some(true)));
    assert_eq!(focus_window(1, 2, 3, 3), FocusPlan::Direct);
    assert_eq!(focus_window(1, 2, 3, 4), FocusPlan::Joined);
    assert_eq!(focus_window(0, 2, 3, 4), FocusPlan::Nothing);
    assert_eq!(focus_window(1, 2, 0, 4), FocusPlan::Nothing);
}

#[test]
fn a_session_attaches_and_notices_the_end() {
    let mut session = EmbeddedDolphinSession::new();
    assert_eq!(
        session.poll(ProcessStatus::Running, true, 0),
        PollStep::FindWindow
    );
    assert_eq!(session.after_window_search(Ok(None), 29_999), PollStep::Idle);
    assert_eq!(
        session.after_window_search(Ok(None), 30_000),
        PollStep::TimedOut
    );
    assert_eq!(
        session.after_window_search(Err(()), 0),
        PollStep::SearchFailed
    );
    assert_eq!(
        session.after_window_search(Ok(Some(10)), 0),
        PollStep::Attach(10)
    );
    assert_eq!(session.after_attach(None), PollStep::AttachFailed);
    assert!(!session.is_attached());
    assert_eq!(session.after_attach(Some(window())), PollStep::Attached);
    assert!(session.is_attached());
    assert_eq!(
        session.poll(ProcessStatus::Running, true, 0),
        PollStep::CheckWindow
    );
    assert_eq!(session.after_window_check(true), PollStep::PollFocus);
    assert_eq!(session.after_window_check(false), PollStep::FindWindow);
    assert!(!session.is_attached());
    assert_eq!(session.poll(ProcessStatus::Exited, true, 0), PollStep::Exited);
    assert_eq!(
        session.poll(ProcessStatus::Unknown, true, 0),
        PollStep::StatusFailed
    );
    assert_eq!(
        session.poll(ProcessStatus::Running, false, 30_000),
        PollStep::TimedOut
    );
}

#[test]
fn a_session_is_ended_once() {
    let mut session = EmbeddedDolphinSession::new();
    session.after_attach(Some(window()));
    assert_eq!(session.detach_window(), Some(window()));
    assert_eq!(session.detach_window(), None);
    assert_eq!(session.terminate(), StopStep::QueryProcess);
    let step = session.after_stop_step(StopStep::QueryProcess, ProcessStatus::Running, true);
    assert_eq!(step, StopStep::Kill);
    let step = session.after_stop_step(step, ProcessStatus::Running, true);
    assert_eq!(step, StopStep::Wait);
    assert!(!session.terminated);
    let step = session.after_stop_step(step, ProcessStatus::Running, true);
    assert_eq!(step, StopStep::Stopped);
    assert_eq!(session.terminate(), StopStep::Stopped);

    let mut ended = EmbeddedDolphinSession::new();
    assert_eq!(
        ended.after_stop_step(StopStep::QueryProcess, ProcessStatus::Exited, true),
        StopStep::Stopped
    );
    let mut stuck = EmbeddedDolphinSession::new();
    assert_eq!(
        stuck.after_stop_step(StopStep::Kill, ProcessStatus::Running, false),
        StopStep::KillFailed
    );
    assert!(!stuck.terminated);
}

#[test]
fn failures_are_put_into_words() {
    assert_eq!(last_error("read", "denied"), "read: denied");
    assert!(call_failed(0, 5));
    assert!(!call_failed(0, 0));
    assert!(!call_failed(3, 5));
    assert_eq!(
        poll_failure(PollStep::TimedOut, ""),
        Some("Dolphin started, but its render window did not appear within 30 seconds".to_string())
    );
    assert_eq!(
        poll_failure(PollStep::StatusFailed, "gone"),
        Some("cannot query Dolphin process state: gone".to_string())
    );
    assert_eq!(poll_failure(PollStep::Idle, ""), None);
    assert_eq!(
        stop_failure(StopStep::KillFailed, "denied"),
        Some("failed to stop Dolphin: denied".to_string())
    );
    assert_eq!(
        stop_failure(StopStep::WaitFailed, "denied"),
        Some("failed to finish stopping Dolphin: denied".to_string())
    );
    assert_eq!(stop_failure(StopStep::Stopped, ""), None);
}
