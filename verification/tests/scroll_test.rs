use bettertouchscreen::gesture::handlers::scroll::{ScrollHandler, ScrollStep, WARMUP_FRAMES};
use bettertouchscreen::types::{GestureState, GestureType};

#[test]
fn begin_records_initial_state() {
    let mut h = ScrollHandler::new();
    let e = h.begin();
    assert_eq!(e.state, GestureState::Begin);
    assert_eq!(e.gesture_type, GestureType::Scroll);
    assert_eq!(e.fingers, 2);
}

#[test]
fn update_below_threshold_silent() {
    let mut h = ScrollHandler::new();
    h.begin();
    // Moved 2 units, below the threshold of 5.
    let step = h.update(false);
    assert!(!matches!(step, ScrollStep::Scroll(_)));
}

#[test]
fn update_above_threshold_emits_event() {
    let mut h = ScrollHandler::new();
    h.begin();
    for _ in 0..WARMUP_FRAMES {
        assert_eq!(h.update(false), ScrollStep::Recenter);
    }
    match h.update(true) {
        ScrollStep::Scroll(e) => {
            assert_eq!(e.gesture_type, GestureType::Scroll);
            assert_eq!(e.state, GestureState::Update);
        }
        other => panic!("expected a scroll, got {:?}", other),
    }
}

#[test]
fn scroll_end_returns_end_event() {
    let mut h = ScrollHandler::new();
    let e = h.end(true);
    assert_eq!(e.state, GestureState::End);
}

#[test]
fn warmup_ignores_large_motion() {
    let mut h = ScrollHandler::new();
    h.begin();
    assert_eq!(h.update(true), ScrollStep::Recenter);
    assert_eq!(h.update(true), ScrollStep::Recenter);
    assert_eq!(h.update(true), ScrollStep::Recenter);
    assert_eq!(h.update(false), ScrollStep::Silent);
}

#[test]
fn unmoved_two_finger_touch_is_a_tap() {
    let mut h = ScrollHandler::new();
    h.begin();
    h.update(false);
    let e = h.end(true);
    assert!(e.is_tap);
}

#[test]
fn scrolled_touch_is_not_a_tap() {
    let mut h = ScrollHandler::new();
    h.begin();
    for _ in 0..3 {
        h.update(false);
    }
    h.update(true);
    let e = h.end(true);
    assert!(!e.is_tap);
    // A new gesture starts afresh.
    h.begin();
    assert!(h.end(true).is_tap);
}

#[test]
fn scroll_finger_range_is_2() {
    let h = ScrollHandler::new();
    assert_eq!(h.finger_range(), (2, 2));
}
