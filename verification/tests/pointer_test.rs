use bettertouchscreen::gesture::handlers::pointer::{PointerHandler, DRAG_HOLD_MS, NANOS_PER_MILLI};
use bettertouchscreen::types::{GestureState, GestureType, TouchPoint};

fn tp(x: i32, y: i32) -> TouchPoint {
    TouchPoint { x, y, tracking_id: 0 }
}

fn ms(v: u64) -> u64 {
    v * NANOS_PER_MILLI
}

#[test]
fn begin_records_start_pos() {
    let mut h = PointerHandler::new();
    let e = h.begin(&[tp(10, 20)], ms(0));
    assert_eq!(e.state, GestureState::Begin);
    assert_eq!(e.gesture_type, GestureType::Pointer);
    assert!(!e.is_drag);
    assert_eq!(h.touch_start_pos(), Some((10, 20)));
    assert!(!h.drag_active());
}

#[test]
fn tap_records_for_double_tap() {
    let mut h = PointerHandler::new();
    h.begin(&[tp(100, 100)], ms(0));
    h.end(true, ms(50));
    assert!(h.last_tap_end().is_some());
    assert_eq!(h.last_tap_pos(), Some((100, 100)));
}

#[test]
fn double_tap_activates_drag_after_hold() {
    let mut h = PointerHandler::new();
    h.begin(&[tp(100, 100)], ms(1000));
    h.end(true, ms(1050));
    let e = h.begin(&[tp(102, 101)], ms(1100));
    assert!(!e.is_drag);
    assert!(!h.drag_active());
    assert!(h.drag_pending().is_some());
    // Held for longer than the hold time.
    let e = h.update(&[tp(102, 101)], &[tp(102, 101)], false, ms(1100 + DRAG_HOLD_MS + 10)).unwrap();
    assert!(e.is_drag);
    assert!(h.drag_active());
    assert!(h.drag_pending().is_none());
}

#[test]
fn rapid_double_tap_released_before_hold_is_click() {
    let mut h = PointerHandler::new();
    h.begin(&[tp(100, 100)], ms(0));
    h.end(true, ms(40));
    h.begin(&[tp(102, 101)], ms(120));
    let e = h.end(true, ms(150));
    assert!(!e.is_drag);
    assert!(!e.suppress_click);
    assert!(!e.has_moved);
    assert!(h.last_tap_end().is_some());
}

#[test]
fn double_tap_too_far_no_drag() {
    let mut h = PointerHandler::new();
    h.begin(&[tp(100, 100)], ms(0));
    h.end(true, ms(40));
    let e = h.begin(&[tp(700, 700)], ms(100));
    assert!(!e.is_drag);
    assert!(!h.drag_active());
    assert!(h.drag_pending().is_none());
}

#[test]
fn double_tap_too_late_no_drag() {
    let mut h = PointerHandler::new();
    h.begin(&[tp(100, 100)], ms(0));
    h.end(true, ms(40));
    // 301 ms after the tap ended.
    h.begin(&[tp(100, 100)], ms(341));
    assert!(h.drag_pending().is_none());
    // Exactly 300 ms still counts.
    let mut h = PointerHandler::new();
    h.begin(&[tp(100, 100)], ms(0));
    h.end(true, ms(40));
    h.begin(&[tp(400, 500)], ms(340));
    assert!(h.drag_pending().is_some());
}

#[test]
fn moving_touch_not_recorded_as_tap() {
    let mut h = PointerHandler::new();
    h.begin(&[tp(100, 100)], ms(0));
    // Moved by (100, 100) at sensitivity 1: the motion reaches one unit.
    h.update(&[tp(200, 200)], &[tp(100, 100)], true, ms(10));
    h.end(true, ms(20));
    assert!(h.last_tap_end().is_none());
}

#[test]
fn update_empty_prev() {
    let mut h = PointerHandler::new();
    let e = h.update(&[tp(10, 20)], &[], false, ms(0));
    assert!(e.is_none());
}

#[test]
fn pointer_end_returns_end_event() {
    let mut h = PointerHandler::new();
    h.begin(&[tp(10, 20)], ms(0));
    let e = h.end(true, ms(10));
    assert_eq!(e.state, GestureState::End);
    assert!(!e.is_drag);
}

#[test]
fn finger_range_is_1() {
    let h = PointerHandler::new();
    assert_eq!(h.finger_range(), (1, 1));
}

#[test]
fn interrupted_touch_suppresses_click_and_forgets_tap() {
    let mut h = PointerHandler::new();
    h.begin(&[tp(10, 20)], ms(0));
    let e = h.end(false, ms(10));
    assert!(e.suppress_click);
    assert!(h.last_tap_end().is_none());
    assert!(h.last_tap_pos().is_none());
}

#[test]
fn drag_end_reports_drag_then_resets() {
    let mut h = PointerHandler::new();
    h.begin(&[tp(0, 0)], ms(0));
    h.end(true, ms(10));
    h.begin(&[tp(0, 0)], ms(20));
    h.update(&[tp(5, 0)], &[tp(0, 0)], true, ms(200));
    let e = h.end(true, ms(300));
    assert!(e.is_drag);
    assert!(e.has_moved);
    assert!(!h.drag_active());
    assert!(h.last_tap_end().is_none());
}
