use bettertouchscreen::output::emitter::{
    button_events, click_events, pointer_move_events, scroll_events, Axis, Key, OutputEvent,
};
use bettertouchscreen::output::virtpad::{new_pad_state, on_gesture, PadAction, DRAG_RELEASE_WINDOW_NS};
use bettertouchscreen::types::{GestureEvent, GestureState, GestureType};

use OutputEvent::{Rel, SynReport};

#[test]
fn vertical_scroll_only() {
    assert_eq!(scroll_events(0, 3, 2), vec![Rel(Axis::Wheel, 3), SynReport]);
    // Below the horizontal threshold: treated as vertical only.
    assert_eq!(scroll_events(1, -2, 2), vec![Rel(Axis::Wheel, -2), SynReport]);
    assert!(scroll_events(1, 0, 2).is_empty());
    // A zero threshold disables horizontal scrolling.
    assert!(scroll_events(9, 0, 0).is_empty());
}

#[test]
fn horizontal_scroll_holds_shift() {
    assert_eq!(
        scroll_events(-4, 0, 2),
        vec![
            OutputEvent::Key(Key::LeftShift, 1),
            SynReport,
            Rel(Axis::Wheel, -4),
            SynReport,
            OutputEvent::Key(Key::LeftShift, 0),
            SynReport,
        ]
    );
    assert_eq!(
        scroll_events(2, 1, 2),
        vec![
            OutputEvent::Key(Key::LeftShift, 1),
            SynReport,
            Rel(Axis::Wheel, 2),
            SynReport,
            Rel(Axis::Wheel, 1),
            SynReport,
            OutputEvent::Key(Key::LeftShift, 0),
            SynReport,
        ]
    );
}

#[test]
fn pointer_motion_events() {
    assert!(pointer_move_events(0, 0).is_empty());
    assert_eq!(pointer_move_events(3, 0), vec![Rel(Axis::X, 3), SynReport]);
    assert_eq!(pointer_move_events(0, -2), vec![Rel(Axis::Y, -2), SynReport]);
    assert_eq!(pointer_move_events(1, 1), vec![Rel(Axis::X, 1), Rel(Axis::Y, 1), SynReport]);
}

#[test]
fn click_and_button_events() {
    assert_eq!(
        click_events(Key::BtnRight),
        vec![OutputEvent::Key(Key::BtnRight, 1), SynReport, OutputEvent::Key(Key::BtnRight, 0), SynReport]
    );
    assert_eq!(button_events(Key::BtnLeft, true), vec![OutputEvent::Key(Key::BtnLeft, 1), SynReport]);
    assert_eq!(button_events(Key::BtnLeft, false), vec![OutputEvent::Key(Key::BtnLeft, 0), SynReport]);
}

fn ev(t: GestureType, fingers: u8, s: GestureState) -> GestureEvent {
    GestureEvent::new(t, fingers, s)
}

fn actions(steps: &[bettertouchscreen::output::virtpad::PadStep]) -> Vec<PadAction> {
    steps.iter().map(|s| s.action).collect()
}

#[test]
fn tap_clicks() {
    let s = new_pad_state();
    let (s, steps) = on_gesture(s, ev(GestureType::Pointer, 1, GestureState::Begin), 0);
    assert_eq!(actions(&steps), vec![PadAction::ResetPointerMotion]);
    assert!(s.pointer_active);
    let (s, steps) = on_gesture(s, ev(GestureType::Pointer, 1, GestureState::End), 10);
    assert_eq!(actions(&steps), vec![PadAction::Click]);
    assert!(!s.pointer_active);
}

#[test]
fn moved_pointer_does_not_click() {
    let s = new_pad_state();
    let (s, _) = on_gesture(s, ev(GestureType::Pointer, 1, GestureState::Begin), 0);
    let (s, steps) = on_gesture(s, ev(GestureType::Pointer, 1, GestureState::Update), 5);
    assert_eq!(actions(&steps), vec![PadAction::MovePointer]);
    let (_, steps) = on_gesture(s, ev(GestureType::Pointer, 1, GestureState::End), 10);
    assert!(steps.is_empty());
}

#[test]
fn interrupted_pointer_does_not_click() {
    let s = new_pad_state();
    let (s, _) = on_gesture(s, ev(GestureType::Pointer, 1, GestureState::Begin), 0);
    let mut end = ev(GestureType::Pointer, 1, GestureState::End);
    end.suppress_click = true;
    let (_, steps) = on_gesture(s, end, 10);
    assert!(steps.is_empty());
}

#[test]
fn drag_presses_then_releases_after_window() {
    let s = new_pad_state();
    let (s, _) = on_gesture(s, ev(GestureType::Pointer, 1, GestureState::Begin), 0);
    let mut upd = ev(GestureType::Pointer, 1, GestureState::Update);
    upd.is_drag = true;
    let (s, steps) = on_gesture(s, upd, 100);
    assert_eq!(actions(&steps), vec![PadAction::PressLeft, PadAction::MovePointer]);
    assert!(steps[0].state.drag_active);
    let mut end = ev(GestureType::Pointer, 1, GestureState::End);
    end.is_drag = true;
    let (s, steps) = on_gesture(s, end, 1_000);
    assert!(steps.is_empty());
    assert!(s.drag_active);
    assert_eq!(s.drag_release_deadline, Some(1_000 + DRAG_RELEASE_WINDOW_NS));
    // Before the deadline, a pointer update does not release.
    let (s2, steps) = on_gesture(s, ev(GestureType::Pointer, 1, GestureState::Update), 2_000);
    assert_eq!(actions(&steps), vec![PadAction::MovePointer]);
    assert!(s2.drag_active);
    // At the deadline, the next event releases first.
    let (s3, steps) = on_gesture(s, ev(GestureType::Pointer, 1, GestureState::Begin), 1_000 + DRAG_RELEASE_WINDOW_NS);
    assert_eq!(actions(&steps), vec![PadAction::ReleaseDrag, PadAction::ResetPointerMotion]);
    assert!(!s3.drag_active);
    assert_eq!(s3.drag_release_deadline, None);
}

#[test]
fn two_finger_tap_right_clicks_after_releasing_drag() {
    let mut s = new_pad_state();
    s.drag_active = true;
    s.drag_release_deadline = Some(5_000);
    let mut end = ev(GestureType::Scroll, 2, GestureState::End);
    end.is_tap = true;
    let (s, steps) = on_gesture(s, end, 1_000);
    assert_eq!(actions(&steps), vec![PadAction::ReleaseDrag, PadAction::RightClick, PadAction::ResetScrollMotion]);
    assert!(!s.drag_active);
}

#[test]
fn scrolling_releases_held_drag() {
    let mut s = new_pad_state();
    s.drag_active = true;
    s.drag_release_deadline = Some(5_000);
    let (s, steps) = on_gesture(s, ev(GestureType::Scroll, 2, GestureState::Update), 1_000);
    assert_eq!(actions(&steps), vec![PadAction::ReleaseDrag, PadAction::Scroll]);
    assert_eq!(s.drag_release_deadline, None);
}

#[test]
fn begin_with_drag_presses_left() {
    let s = new_pad_state();
    let mut b = ev(GestureType::Pointer, 1, GestureState::Begin);
    b.is_drag = true;
    let (s, steps) = on_gesture(s, b, 0);
    assert_eq!(actions(&steps), vec![PadAction::PressLeft, PadAction::ResetPointerMotion]);
    assert!(s.drag_active);
    let (_, steps) = on_gesture(s, ev(GestureType::Scroll, 2, GestureState::Begin), 1);
    assert_eq!(actions(&steps), vec![PadAction::ResetScrollMotion]);
}
