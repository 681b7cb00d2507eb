use bettertouchscreen::input::touch_input::{
    choose_touchscreen, classify_device, is_direct_bus, is_touchpad_name, names_touchpad, DeviceCandidate, SlotTracker,
    TouchEvent, MAX_SLOTS,
};
use bettertouchscreen::types::TouchPoint;

use TouchEvent::{Other, PositionX, PositionY, Slot, SynReport, TrackingId};

fn pt(x: i32, y: i32, id: i32) -> TouchPoint {
    TouchPoint { x, y, tracking_id: id }
}

#[test]
fn one_finger_frame() {
    let mut t = SlotTracker::new();
    let f = t.process_batch(vec![Slot(0), TrackingId(5), PositionX(100), PositionY(200), SynReport]);
    assert_eq!(f, Some(vec![pt(100, 200, 5)]));
    assert!(!t.has_buffered());
}

#[test]
fn batch_without_report_completes_no_frame() {
    let mut t = SlotTracker::new();
    assert_eq!(t.process_batch(vec![TrackingId(1), PositionX(10)]), None);
    assert_eq!(t.process_batch(vec![PositionY(20), Other, SynReport]), Some(vec![pt(10, 20, 1)]));
}

#[test]
fn events_after_report_are_kept_for_next_frame() {
    let mut t = SlotTracker::new();
    let f = t.process_batch(vec![
        TrackingId(1),
        PositionX(10),
        PositionY(20),
        SynReport,
        PositionX(30),
        SynReport,
        PositionY(40),
    ]);
    assert_eq!(f, Some(vec![pt(10, 20, 1)]));
    assert!(t.has_buffered());
    let rest = t.take_buffered();
    assert_eq!(rest, vec![PositionX(30), SynReport, PositionY(40)]);
    assert!(!t.has_buffered());
    assert_eq!(t.process_batch(rest), Some(vec![pt(30, 20, 1)]));
    assert_eq!(t.take_buffered(), vec![PositionY(40)]);
}

#[test]
fn contact_needs_both_coordinates() {
    let mut t = SlotTracker::new();
    // Only X reported so far: the contact is not shown yet.
    assert_eq!(t.process_batch(vec![TrackingId(3), PositionX(50), SynReport]), Some(vec![]));
    assert_eq!(t.process_batch(vec![PositionY(60), SynReport]), Some(vec![pt(50, 60, 3)]));
}

#[test]
fn contact_at_zero_x_is_reported() {
    let mut t = SlotTracker::new();
    let f = t.process_batch(vec![Slot(0), TrackingId(3), PositionX(0), PositionY(200), SynReport]);
    assert_eq!(f, Some(vec![pt(0, 200, 3)]));
}

#[test]
fn contact_at_origin_is_reported() {
    let mut t = SlotTracker::new();
    let f = t.process_batch(vec![TrackingId(5), PositionY(0), PositionX(0), SynReport]);
    assert_eq!(f, Some(vec![pt(0, 0, 5)]));
}

#[test]
fn new_contact_in_slot_waits_for_both_axes_again() {
    let mut t = SlotTracker::new();
    t.process_batch(vec![TrackingId(1), PositionX(10), PositionY(20), SynReport]);
    // The contact is lifted and a new one starts in the same slot: only its Y so far.
    assert_eq!(t.process_batch(vec![TrackingId(-1), TrackingId(2), PositionY(30), SynReport]), Some(vec![]));
    assert_eq!(t.process_batch(vec![PositionX(0), SynReport]), Some(vec![pt(0, 30, 2)]));
}

#[test]
fn released_contacts_never_reported() {
    let mut t = SlotTracker::new();
    let f = t.process_batch(vec![TrackingId(-1), PositionX(4), PositionY(5), SynReport]);
    assert_eq!(f, Some(vec![]));
}

#[test]
fn touchpad_words_in_lowercase_chars() {
    let chars = |s: &str| s.chars().collect::<Vec<char>>();
    assert!(names_touchpad(&chars("syna touchpad")));
    assert!(names_touchpad(&chars("magic trackpad")));
    assert!(!names_touchpad(&chars("touch pad")));
    assert!(!names_touchpad(&chars("Touchpad")));
    assert!(!names_touchpad(&chars("")));
}

#[test]
fn two_fingers_in_slot_order_and_release() {
    let mut t = SlotTracker::new();
    let f = t.process_batch(vec![
        Slot(2),
        TrackingId(9),
        PositionX(5),
        PositionY(6),
        Slot(0),
        TrackingId(8),
        PositionX(1),
        PositionY(2),
        SynReport,
    ]);
    assert_eq!(f, Some(vec![pt(1, 2, 8), pt(5, 6, 9)]));
    let f = t.process_batch(vec![Slot(2), TrackingId(-1), SynReport]);
    assert_eq!(f, Some(vec![pt(1, 2, 8)]));
}

#[test]
fn release_of_empty_slot_clears_first_contact() {
    let mut t = SlotTracker::new();
    t.process_batch(vec![Slot(1), TrackingId(4), PositionX(1), PositionY(1), Slot(3), TrackingId(6), PositionX(3), PositionY(3), SynReport]);
    // Slot 0 is empty: the release clears the first occupied slot (slot 1).
    let f = t.process_batch(vec![Slot(0), TrackingId(-1), SynReport]);
    assert_eq!(f, Some(vec![pt(3, 3, 6)]));
}

#[test]
fn reused_tracking_id_moves_to_new_slot() {
    let mut t = SlotTracker::new();
    t.process_batch(vec![Slot(0), TrackingId(7), PositionX(1), PositionY(1), SynReport]);
    let f = t.process_batch(vec![Slot(4), TrackingId(7), PositionX(9), PositionY(9), SynReport]);
    assert_eq!(f, Some(vec![pt(9, 9, 7)]));
}

#[test]
fn out_of_range_slot_is_ignored() {
    let mut t = SlotTracker::new();
    let f = t.process_batch(vec![Slot(16), TrackingId(1), PositionX(5), PositionY(5), Slot(-1), TrackingId(2), SynReport]);
    assert_eq!(f, Some(vec![]));
    assert_eq!(MAX_SLOTS, 16);
}

#[test]
fn bus_types() {
    assert!(is_direct_bus(0x18));
    assert!(is_direct_bus(0x03));
    assert!(is_direct_bus(0x06));
    assert!(!is_direct_bus(0x11));
}

#[test]
fn touchpad_names_in_any_case() {
    assert!(is_touchpad_name("Synaptics TouchPad"));
    assert!(is_touchpad_name("Apple Magic TRACKPAD 2"));
    assert!(!is_touchpad_name("ELAN9008:00 04F3:2C82"));
    assert!(!is_touchpad_name("touch pad"));
}

#[test]
fn device_classification() {
    assert_eq!(classify_device(true, "Goodix Capacitive TouchScreen", 0x18), Some(true));
    assert_eq!(classify_device(true, "Sunshine Touchscreen", 0x1f), Some(false));
    assert_eq!(classify_device(true, "SYNA TouchPad", 0x18), None);
    assert_eq!(classify_device(false, "Goodix", 0x18), None);
}

fn cand(path: &str, direct: bool) -> DeviceCandidate {
    DeviceCandidate { path: path.to_string(), name: "n".to_string(), is_direct: direct }
}

#[test]
fn touchscreen_choice() {
    assert_eq!(choose_touchscreen(&vec![]), None);
    assert_eq!(choose_touchscreen(&vec![cand("a", false), cand("b", false)]), Some(0));
    assert_eq!(choose_touchscreen(&vec![cand("a", false), cand("b", true), cand("c", true)]), Some(1));
}

#[test]
fn split_reads_give_same_frame() {
    let all = vec![Slot(1), TrackingId(2), PositionX(30), PositionY(40), SynReport, PositionX(31)];
    let mut one = SlotTracker::new();
    let f1 = one.process_batch(all);
    let mut two = SlotTracker::new();
    assert_eq!(two.process_batch(vec![Slot(1), TrackingId(2)]), None);
    let f2 = two.process_batch(vec![PositionX(30), PositionY(40), SynReport, PositionX(31)]);
    assert_eq!(f1, f2);
    assert_eq!(one.take_buffered(), two.take_buffered());
}
