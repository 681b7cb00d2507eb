//! The input events the virtual touchpad sends, and the sequences that make up
//! a scroll, a pointer motion, a click and a button change. Writing them to
//! the uinput device is the application's part; every SYN_REPORT closes one
//! write.
use crate::types::abs;
use vstd::prelude::*;

verus! {

/// Keys and buttons of the virtual device.
#[derive(Clone, Copy, Debug, PartialEq, Eq, Structural)]
pub enum Key {
    BtnLeft,
    BtnRight,
    LeftShift,
}

/// Relative axes of the virtual device.
#[derive(Clone, Copy, Debug, PartialEq, Eq, Structural)]
pub enum Axis {
    X,
    Y,
    Wheel,
}

/// One input event.
#[derive(Clone, Copy, Debug, PartialEq, Eq, Structural)]
pub enum OutputEvent {
    /// A key event: 1 press, 0 release.
    Key(Key, i32),
    /// A relative motion.
    Rel(Axis, i32),
    /// SYN_REPORT.
    SynReport,
}

/// The wheel value is large enough to scroll horizontally.
pub open spec fn has_hscroll(h_scroll: i32, hscroll_threshold: i32) -> bool {
    hscroll_threshold > 0 && abs(h_scroll as int) >= hscroll_threshold
}

/// A scroll: vertical wheel alone, or, for a horizontal part, the wheel with
/// Shift held (the vertical part, if any, inside the same Shift press).
pub open spec fn scroll_sequence(h_scroll: i32, v_scroll: i32, hscroll_threshold: i32) -> Seq<OutputEvent> {
    if !has_hscroll(h_scroll, hscroll_threshold) {
        if v_scroll != 0 {
            seq![OutputEvent::Rel(Axis::Wheel, v_scroll), OutputEvent::SynReport]
        } else {
            Seq::empty()
        }
    } else {
        seq![
            OutputEvent::Key(Key::LeftShift, 1),
            OutputEvent::SynReport,
            OutputEvent::Rel(Axis::Wheel, h_scroll),
            OutputEvent::SynReport,
        ] + (if v_scroll != 0 {
            seq![OutputEvent::Rel(Axis::Wheel, v_scroll), OutputEvent::SynReport]
        } else {
            Seq::empty()
        }) + seq![OutputEvent::Key(Key::LeftShift, 0), OutputEvent::SynReport]
    }
}

/// A pointer motion by whole units; nothing when both are zero.
pub open spec fn pointer_move_sequence(dx: i32, dy: i32) -> Seq<OutputEvent> {
    (if dx != 0 {
        seq![OutputEvent::Rel(Axis::X, dx)]
    } else {
        Seq::empty()
    }) + (if dy != 0 {
        seq![OutputEvent::Rel(Axis::Y, dy)]
    } else {
        Seq::empty()
    }) + (if dx != 0 || dy != 0 {
        seq![OutputEvent::SynReport]
    } else {
        Seq::empty()
    })
}

/// A click: press, report, release, report.
pub open spec fn click_sequence(key: Key) -> Seq<OutputEvent> {
    seq![
        OutputEvent::Key(key, 1),
        OutputEvent::SynReport,
        OutputEvent::Key(key, 0),
        OutputEvent::SynReport,
    ]
}

/// A single press or release.
pub open spec fn button_sequence(key: Key, press: bool) -> Seq<OutputEvent> {
    seq![OutputEvent::Key(key, if press { 1 } else { 0 }), OutputEvent::SynReport]
}

/// The events of a scroll by whole wheel steps. `h_scroll` and `v_scroll` are
/// the horizontal and vertical steps; the horizontal part is sent only when it
/// reaches `hscroll_threshold` (and the threshold is positive).
pub fn scroll_events(h_scroll: i32, v_scroll: i32, hscroll_threshold: i32) -> (evs: Vec<OutputEvent>)
    requires
        h_scroll != i32::MIN,
    ensures
        evs@ == scroll_sequence(h_scroll, v_scroll, hscroll_threshold),
{
    let h_abs: i32 = if h_scroll < 0 {
        -h_scroll
    } else {
        h_scroll
    };
    let has_h = hscroll_threshold > 0 && h_abs >= hscroll_threshold;
    let mut evs: Vec<OutputEvent> = Vec::new();
    if !has_h && v_scroll != 0 {
        evs.push(OutputEvent::Rel(Axis::Wheel, v_scroll));
        evs.push(OutputEvent::SynReport);
        assert(evs@ =~= scroll_sequence(h_scroll, v_scroll, hscroll_threshold));
        return evs;
    }
    if !has_h && v_scroll == 0 {
        return evs;
    }
    evs.push(OutputEvent::Key(Key::LeftShift, 1));
    evs.push(OutputEvent::SynReport);
    evs.push(OutputEvent::Rel(Axis::Wheel, h_scroll));
    evs.push(OutputEvent::SynReport);
    if v_scroll != 0 {
        evs.push(OutputEvent::Rel(Axis::Wheel, v_scroll));
        evs.push(OutputEvent::SynReport);
    }
    evs.push(OutputEvent::Key(Key::LeftShift, 0));
    evs.push(OutputEvent::SynReport);
    assert(evs@ =~= scroll_sequence(h_scroll, v_scroll, hscroll_threshold));
    evs
}

/// The events of a pointer motion by whole units (the truncated motion).
pub fn pointer_move_events(dx: i32, dy: i32) -> (evs: Vec<OutputEvent>)
    ensures
        evs@ == pointer_move_sequence(dx, dy),
{
    let mut evs: Vec<OutputEvent> = Vec::new();
    if dx != 0 {
        evs.push(OutputEvent::Rel(Axis::X, dx));
    }
    if dy != 0 {
        evs.push(OutputEvent::Rel(Axis::Y, dy));
    }
    if evs.len() > 0 {
        evs.push(OutputEvent::SynReport);
    }
    assert(evs@ =~= pointer_move_sequence(dx, dy));
    evs
}

/// The events of a click of `key`.
pub fn click_events(key: Key) -> (evs: Vec<OutputEvent>)
    ensures
        evs@ == click_sequence(key),
{
    let mut evs: Vec<OutputEvent> = Vec::new();
    evs.push(OutputEvent::Key(key, 1));
    evs.push(OutputEvent::SynReport);
    evs.push(OutputEvent::Key(key, 0));
    evs.push(OutputEvent::SynReport);
    assert(evs@ =~= click_sequence(key));
    evs
}

/// The events of pressing (or releasing) `key`.
pub fn button_events(key: Key, press: bool) -> (evs: Vec<OutputEvent>)
    ensures
        evs@ == button_sequence(key, press),
{
    let value: i32 = if press {
        1
    } else {
        0
    };
    let mut evs: Vec<OutputEvent> = Vec::new();
    evs.push(OutputEvent::Key(key, value));
    evs.push(OutputEvent::SynReport);
    assert(evs@ =~= button_sequence(key, press));
    evs
}

/// Shift is never left held by a scroll: when the sequence presses it, it
/// starts with the press and ends with the release; every write ends with a report.
pub proof fn lemma_scroll_releases_shift(h_scroll: i32, v_scroll: i32, thr: i32)
    ensures
        ({
            let s = scroll_sequence(h_scroll, v_scroll, thr);
            &&& (s.len() > 0 ==> s.last() == OutputEvent::SynReport)
            &&& (s.contains(OutputEvent::Key(Key::LeftShift, 1)) ==> s[0] == OutputEvent::Key(
                Key::LeftShift,
                1,
            ) && s[s.len() - 2] == OutputEvent::Key(Key::LeftShift, 0))
            &&& (!has_hscroll(h_scroll, thr) && v_scroll == 0 ==> s.len() == 0)
        }),
{
    let s = scroll_sequence(h_scroll, v_scroll, thr);
    if s.contains(OutputEvent::Key(Key::LeftShift, 1)) {
        if !has_hscroll(h_scroll, thr) {
            let i = choose|i: int| 0 <= i < s.len() && s[i] == OutputEvent::Key(Key::LeftShift, 1);
            assert(false);
        }
    }
}

} // verus!
