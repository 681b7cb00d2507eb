use bettertouchscreen::types::{transform_touch_coords, GestureEvent, GestureState, GestureType, TouchPoint};

fn tp(x: i32, y: i32) -> TouchPoint {
    TouchPoint { x, y, tracking_id: 0 }
}

#[test]
fn coord_transform_noop() {
    let mut pts = vec![tp(100, 200), tp(300, 400)];
    transform_touch_coords(&mut pts, false, false, false, 1920, 1080);
    assert_eq!(pts[0].x, 100);
    assert_eq!(pts[0].y, 200);
    assert_eq!(pts[1].x, 300);
    assert_eq!(pts[1].y, 400);
}

#[test]
fn coord_transform_invert_x() {
    let mut pts = vec![tp(100, 200)];
    transform_touch_coords(&mut pts, false, true, false, 1920, 1080);
    assert_eq!(pts[0].x, 1820);
    assert_eq!(pts[0].y, 200);
}

#[test]
fn coord_transform_invert_y() {
    let mut pts = vec![tp(100, 200)];
    transform_touch_coords(&mut pts, false, false, true, 1920, 1080);
    assert_eq!(pts[0].x, 100);
    assert_eq!(pts[0].y, 880);
}

#[test]
fn coord_transform_swap() {
    let mut pts = vec![tp(100, 200)];
    transform_touch_coords(&mut pts, true, false, false, 1920, 1080);
    assert_eq!(pts[0].x, 200);
    assert_eq!(pts[0].y, 100);
}

#[test]
fn coord_transform_180_rotation() {
    let mut pts = vec![tp(100, 200)];
    transform_touch_coords(&mut pts, false, true, true, 1920, 1080);
    assert_eq!(pts[0].x, 1820);
    assert_eq!(pts[0].y, 880);
}

#[test]
fn coord_transform_empty() {
    let mut pts: Vec<TouchPoint> = vec![];
    transform_touch_coords(&mut pts, true, true, true, 1920, 1080);
    assert!(pts.is_empty());
}

#[test]
fn coord_transform_swap_invert_asymmetric() {
    let mut pts = vec![tp(100, 200)];
    transform_touch_coords(&mut pts, true, true, false, 1080, 1920);
    assert_eq!(pts[0].x, 880);
    assert_eq!(pts[0].y, 100);
}

#[test]
fn coord_transform_swap_invert_y_asymmetric() {
    let mut pts = vec![tp(100, 200)];
    transform_touch_coords(&mut pts, true, false, true, 1080, 1920);
    assert_eq!(pts[0].x, 200);
    assert_eq!(pts[0].y, 1820);
}

#[test]
fn coord_transform_keeps_tracking_ids_and_mirrors_back() {
    let mut pts = vec![TouchPoint { x: 7, y: 9, tracking_id: 42 }];
    transform_touch_coords(&mut pts, false, true, true, 1920, 1080);
    assert_eq!(pts[0].tracking_id, 42);
    transform_touch_coords(&mut pts, false, true, true, 1920, 1080);
    assert_eq!(pts[0], TouchPoint { x: 7, y: 9, tracking_id: 42 });
}

#[test]
fn new_event_is_plain() {
    let e = GestureEvent::new(GestureType::Scroll, 2, GestureState::Update);
    assert_eq!(e.gesture_type, GestureType::Scroll);
    assert_eq!(e.fingers, 2);
    assert_eq!(e.state, GestureState::Update);
    assert!(!e.is_tap);
    assert!(!e.is_drag);
    assert!(!e.suppress_click);
    assert!(!e.has_moved);
}

#[test]
fn half_turn_equals_two_mirrors() {
    let mut a = vec![tp(100, 200)];
    transform_touch_coords(&mut a, false, true, true, 1920, 1080);
    let mut b = vec![tp(100, 200)];
    transform_touch_coords(&mut b, false, true, false, 1920, 1080);
    transform_touch_coords(&mut b, false, false, true, 1920, 1080);
    assert_eq!(a, b);
}
