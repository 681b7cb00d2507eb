use bettertouchscreen::gesture::engine::{GestureRouter, HandlerSpec, RouteStep};
use bettertouchscreen::types::{GestureType, TouchPoint};

fn tp(x: i32, y: i32) -> TouchPoint {
    TouchPoint { x, y, tracking_id: 0 }
}

#[test]
fn single_finger_tap_routes_begin_then_end() {
    let mut r = GestureRouter::new();
    let p = r.route(&[tp(100, 100)]);
    assert_eq!(p.steps, vec![RouteStep::Begin(0)]);
    assert!(p.prev.is_empty());
    let p = r.route(&[]);
    assert_eq!(p.steps, vec![RouteStep::End(0, true)]);
    assert_eq!(p.prev, vec![tp(100, 100)]);
    assert_eq!(r.active(), None);
}

#[test]
fn moving_finger_updates_with_previous_frame() {
    let mut r = GestureRouter::new();
    r.route(&[tp(100, 100)]);
    let p = r.route(&[tp(120, 100)]);
    assert_eq!(p.steps, vec![RouteStep::Update(0)]);
    assert_eq!(p.prev, vec![tp(100, 100)]);
}

#[test]
fn adding_a_finger_switches_to_scroll() {
    let mut r = GestureRouter::new();
    r.route(&[tp(100, 100)]);
    let p = r.route(&[tp(80, 100), tp(120, 100)]);
    assert_eq!(p.steps, vec![RouteStep::End(0, false), RouteStep::Begin(1)]);
    assert_eq!(r.active(), Some(1));
}

#[test]
fn leftover_finger_after_scroll_is_ignored_until_all_lift() {
    let mut r = GestureRouter::new();
    r.route(&[tp(80, 100), tp(120, 100)]);
    let p = r.route(&[tp(80, 100)]);
    assert_eq!(p.steps, vec![RouteStep::End(1, false)]);
    assert_eq!(r.active(), None);
    assert!(r.route(&[tp(85, 100)]).steps.is_empty());
    assert!(r.route(&[tp(85, 100), tp(130, 100)]).steps.is_empty());
    assert!(r.route(&[]).steps.is_empty());
    // After all fingers lifted, one finger starts a pointer gesture again.
    assert_eq!(r.route(&[tp(1, 1)]).steps, vec![RouteStep::Begin(0)]);
}

#[test]
fn empty_input_clears_state() {
    let mut r = GestureRouter::new();
    r.route(&[tp(100, 100)]);
    assert_eq!(r.route(&[]).steps.len(), 1);
    assert!(r.route(&[]).steps.is_empty());
}

#[test]
fn three_fingers_start_nothing() {
    let mut r = GestureRouter::new();
    let p = r.route(&[tp(1, 1), tp(2, 2), tp(3, 3)]);
    assert!(p.steps.is_empty());
    assert_eq!(r.active(), None);
    // Going from scroll up to three fingers ends the scroll without suppression.
    let mut r = GestureRouter::new();
    r.route(&[tp(1, 1), tp(2, 2)]);
    let p = r.route(&[tp(1, 1), tp(2, 2), tp(3, 3)]);
    assert_eq!(p.steps, vec![RouteStep::End(1, false)]);
    assert_eq!(r.route(&[tp(1, 1), tp(2, 2)]).steps, vec![RouteStep::Begin(1)]);
}

#[test]
fn handler_descriptions() {
    let r = GestureRouter::new();
    let p = r.handler(0);
    assert_eq!(p, HandlerSpec::pointer());
    assert_eq!(p.gesture_type, GestureType::Pointer);
    assert_eq!(p.name(), "Pointer");
    assert!(p.finger_range_contains(1));
    assert!(!p.finger_range_contains(2));
    let s = r.handler(1);
    assert_eq!(s.name(), "Scroll");
    assert!(s.finger_range_contains(2));
    assert_eq!(r.select_handler(2), Some(1));
    assert_eq!(r.select_handler(5), None);
}

#[test]
fn stream_of_frames_follows_gesture_life_cycle() {
    let mut r = GestureRouter::new();
    let frames: Vec<Vec<TouchPoint>> = vec![
        vec![tp(10, 10)],
        vec![tp(12, 10)],
        vec![tp(12, 10), tp(40, 10)],
        vec![tp(13, 11), tp(41, 11)],
        vec![tp(13, 11), tp(41, 11), tp(60, 11)],
        vec![],
        vec![tp(5, 5)],
        vec![],
    ];
    let mut all = Vec::new();
    for f in &frames {
        all.extend(r.route(f).steps);
    }
    assert_eq!(
        all,
        vec![
            RouteStep::Begin(0),
            RouteStep::Update(0),
            RouteStep::End(0, false),
            RouteStep::Begin(1),
            RouteStep::Update(1),
            RouteStep::End(1, false),
            RouteStep::Begin(0),
            RouteStep::End(0, true),
        ]
    );
    assert_eq!(r.active(), None);
}
