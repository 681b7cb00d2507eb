use bettertouchscreen::calibration::{
    compute_transform, describe_transform, SwipeCalibrator, SwipeOutcome, MIN_SWIPE_DISTANCE,
};
use bettertouchscreen::types::TouchPoint;

fn tp(x: i32, y: i32, id: i32) -> TouchPoint {
    TouchPoint { x, y, tracking_id: id }
}

#[test]
fn normal_orientation() {
    // 正常屏幕: 上滑 → raw_dy 负，右滑 → raw_dx 正
    let up = (5, -500);
    let right = (500, 10);
    let (swap, ix, iy) = compute_transform(up, right);
    assert!(!swap);
    assert!(!ix);
    assert!(!iy);
}

#[test]
fn rotation_180() {
    let up = (-10, 500);
    let right = (-500, 5);
    let (swap, ix, iy) = compute_transform(up, right);
    assert!(!swap);
    assert!(ix);
    assert!(iy);
}

#[test]
fn rotation_90_cw() {
    let up = (500, 10);
    let right = (-5, 500);
    let (swap, ix, iy) = compute_transform(up, right);
    assert!(swap);
    assert!(!ix);
    assert!(iy);
}

#[test]
fn rotation_90_ccw() {
    let up = (-500, 8);
    let right = (3, -500);
    let (swap, ix, iy) = compute_transform(up, right);
    assert!(swap);
    assert!(ix);
    assert!(!iy);
}

#[test]
fn describe_all_combos() {
    assert_eq!(describe_transform(false, false, false), "无旋转（原始方向）");
    assert_eq!(describe_transform(false, true, false), "水平镜像（X 轴反转）");
    assert_eq!(describe_transform(false, false, true), "垂直镜像（Y 轴反转）");
    assert_eq!(describe_transform(false, true, true), "180° 旋转");
    assert_eq!(describe_transform(true, false, false), "90° 逆时针旋转");
    assert_eq!(describe_transform(true, false, true), "90° 顺时针旋转");
    assert_eq!(describe_transform(true, true, false), "90° 逆时针 + 水平镜像");
    assert_eq!(describe_transform(true, true, true), "90° 顺时针 + 垂直镜像");
}

#[test]
fn diagonal_swipes_keep_axes() {
    // Equal components on both axes: no axis dominates, so no swap.
    let (swap, ix, iy) = compute_transform((300, -300), (300, 300));
    assert!(!swap);
    assert!(!ix);
    assert!(!iy);
}

#[test]
fn swipe_up_is_detected_and_measured() {
    let mut c = SwipeCalibrator::new();
    assert_eq!(c.feed(&[]), SwipeOutcome::Pending);
    assert_eq!(c.feed(&[tp(500, 900, 7)]), SwipeOutcome::Pending);
    assert_eq!(c.feed(&[tp(505, 700, 7)]), SwipeOutcome::Pending);
    assert_eq!(c.feed(&[tp(510, 400, 7), tp(10, 10, 8)]), SwipeOutcome::Pending);
    // The finger lifts: the swipe ends at its last position.
    assert_eq!(c.feed(&[tp(10, 10, 8)]), SwipeOutcome::Accepted(10, -500));
}

#[test]
fn short_swipe_is_rejected_and_detection_restarts() {
    let mut c = SwipeCalibrator::new();
    assert_eq!(c.feed(&[tp(100, 100, 1)]), SwipeOutcome::Pending);
    assert_eq!(c.feed(&[tp(190, 210, 1)]), SwipeOutcome::Pending);
    // 90^2 + 110^2 = 20200 < 150^2
    assert_eq!(c.feed(&[]), SwipeOutcome::TooShort(90, 110));
    assert_eq!(c.feed(&[tp(0, 0, 2)]), SwipeOutcome::Pending);
    assert_eq!(c.feed(&[tp(0, 150, 2)]), SwipeOutcome::Pending);
    assert_eq!(c.feed(&[]), SwipeOutcome::Accepted(0, 150));
    assert_eq!(MIN_SWIPE_DISTANCE, 150);
}

#[test]
fn swipe_follows_the_first_finger_only() {
    let mut c = SwipeCalibrator::new();
    assert_eq!(c.feed(&[tp(0, 0, 3), tp(50, 50, 4)]), SwipeOutcome::Pending);
    // Finger 4 moves far; finger 3 moves to (200, 0).
    assert_eq!(c.feed(&[tp(900, 900, 4), tp(200, 0, 3)]), SwipeOutcome::Pending);
    assert_eq!(c.feed(&[tp(900, 900, 4)]), SwipeOutcome::Accepted(200, 0));
}
