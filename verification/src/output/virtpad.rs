//! The virtual touchpad's button logic: when to press and release the left
//! button for drags, when to click, and when to right-click.
//!
//! The caller owns the device and the sub-unit motion accumulators; for each
//! gesture event it performs the returned actions in order. Each action comes
//! with the button state as it stands when that action is performed, which is
//! the state to keep if the action fails.
use crate::gesture::handlers::pointer::{pointer_begin, pointer_end, PointerModel};
use crate::gesture::handlers::scroll::{scroll_begin, scroll_end, scroll_update, ScrollModel};
use crate::types::{GestureEvent, GestureState, GestureType};
use vstd::prelude::*;

verus! {

/// After a drag ends, the left button stays down this long (milliseconds), so
/// that a following right click still sees the selection.
pub const DRAG_RELEASE_WINDOW_MS: u64 = 150;

/// The same window in nanoseconds.
pub const DRAG_RELEASE_WINDOW_NS: u64 = 150_000_000;

/// Button and gesture state of the virtual touchpad.
#[derive(Clone, Copy, Debug, PartialEq, Eq, Structural)]
pub struct PadState {
    pub pointer_active: bool,
    pub pointer_moved: bool,
    pub drag_active: bool,
    /// When a finished drag releases the left button (nanoseconds), if one is pending.
    pub drag_release_deadline: Option<u64>,
}

/// Something the caller does on the device or its motion accumulators.
#[derive(Clone, Copy, Debug, PartialEq, Eq, Structural)]
pub enum PadAction {
    /// Release the left button (end of a drag).
    ReleaseDrag,
    /// Press the left button (start of a drag).
    PressLeft,
    /// Left click.
    Click,
    /// Right click.
    RightClick,
    /// Zero the pointer's sub-unit accumulators.
    ResetPointerMotion,
    /// Zero the scroll's sub-unit accumulator.
    ResetScrollMotion,
    /// Add the event's motion to the pointer accumulators and send the whole units.
    MovePointer,
    /// Add the event's vertical motion to the scroll accumulator and send the whole steps.
    Scroll,
}

/// An action with the state in force when it is performed.
#[derive(Clone, Copy, Debug, PartialEq, Eq, Structural)]
pub struct PadStep {
    pub action: PadAction,
    pub state: PadState,
}

pub open spec fn step(action: PadAction, state: PadState) -> PadStep {
    PadStep { action, state }
}

/// The idle touchpad.
pub open spec fn pad_idle() -> PadState {
    PadState { pointer_active: false, pointer_moved: false, drag_active: false, drag_release_deadline: None }
}

/// Releases a pending drag now.
pub open spec fn release_pending(s: PadState) -> (PadState, Seq<PadStep>) {
    if s.drag_release_deadline is Some {
        (
            PadState { drag_active: false, drag_release_deadline: None, ..s },
            seq![step(PadAction::ReleaseDrag, s)],
        )
    } else {
        (s, Seq::empty())
    }
}

/// Releases a pending drag whose deadline has passed.
pub open spec fn release_expired(s: PadState, now: u64) -> (PadState, Seq<PadStep>) {
    match s.drag_release_deadline {
        Some(d) => if now >= d {
            release_pending(s)
        } else {
            (s, Seq::empty())
        },
        None => (s, Seq::empty()),
    }
}

pub open spec fn on_begin(s: PadState, e: GestureEvent) -> (PadState, Seq<PadStep>) {
    let r = release_pending(s);
    let s2 = r.0;
    match e.gesture_type {
        GestureType::Pointer => {
            let s3 = PadState { pointer_active: true, pointer_moved: false, drag_active: e.is_drag, ..s2 };
            (
                s3,
                r.1 + (if e.is_drag {
                    seq![step(PadAction::PressLeft, s3)]
                } else {
                    Seq::empty()
                }) + seq![step(PadAction::ResetPointerMotion, s3)],
            )
        },
        GestureType::Scroll => (s2, r.1 + seq![step(PadAction::ResetScrollMotion, s2)]),
    }
}

pub open spec fn on_end(s: PadState, e: GestureEvent, now: u64) -> (PadState, Seq<PadStep>) {
    match e.gesture_type {
        GestureType::Pointer => {
            if s.drag_active {
                (
                    PadState {
                        pointer_active: false,
                        pointer_moved: false,
                        drag_release_deadline: Some((now + DRAG_RELEASE_WINDOW_NS) as u64),
                        ..s
                    },
                    Seq::empty(),
                )
            } else {
                let after = PadState { pointer_active: false, pointer_moved: false, ..s };
                if !e.suppress_click && !s.pointer_moved {
                    (after, seq![step(PadAction::Click, s)])
                } else {
                    (after, Seq::empty())
                }
            }
        },
        GestureType::Scroll => {
            if e.is_tap {
                let r = release_pending(s);
                (
                    r.0,
                    r.1 + seq![step(PadAction::RightClick, r.0), step(PadAction::ResetScrollMotion, r.0)],
                )
            } else {
                (s, seq![step(PadAction::ResetScrollMotion, s)])
            }
        },
    }
}

pub open spec fn on_update(s: PadState, e: GestureEvent) -> (PadState, Seq<PadStep>) {
    match e.gesture_type {
        GestureType::Pointer => {
            let press = e.is_drag && !s.drag_active;
            let s3 = PadState { drag_active: s.drag_active || e.is_drag, ..s };
            let s4 = PadState { pointer_moved: true, ..s3 };
            (
                s4,
                (if press {
                    seq![step(PadAction::PressLeft, s3)]
                } else {
                    Seq::empty()
                }) + seq![step(PadAction::MovePointer, s4)],
            )
        },
        GestureType::Scroll => {
            let r = release_pending(s);
            (r.0, r.1 + seq![step(PadAction::Scroll, r.0)])
        },
    }
}

/// What a gesture event at time `now` does: first a drag whose release time
/// has come is released, then the event is handled by its phase.
pub open spec fn pad_on_gesture(s: PadState, e: GestureEvent, now: u64) -> (PadState, Seq<PadStep>) {
    let r = release_expired(s, now);
    let t = match e.state {
        GestureState::Begin => on_begin(r.0, e),
        GestureState::End => on_end(r.0, e, now),
        GestureState::Update => on_update(r.0, e),
    };
    (t.0, r.1 + t.1)
}

/// Ending a drag sets a release time; that time must be representable.
pub open spec fn release_time_fits(s: PadState, e: GestureEvent, now: u64) -> bool {
    (e.state == GestureState::End && e.gesture_type == GestureType::Pointer && release_expired(
        s,
        now,
    ).0.drag_active) ==> now as int + DRAG_RELEASE_WINDOW_NS as int <= u64::MAX as int
}

pub fn new_pad_state() -> (s: PadState)
    ensures
        s == pad_idle(),
{
    PadState { pointer_active: false, pointer_moved: false, drag_active: false, drag_release_deadline: None }
}

fn release_pending_exec(s: PadState, steps: &mut Vec<PadStep>) -> (r: PadState)
    ensures
        r == release_pending(s).0,
        final(steps)@ == old(steps)@ + release_pending(s).1,
{
    match s.drag_release_deadline {
        Some(_) => {
            steps.push(PadStep { action: PadAction::ReleaseDrag, state: s });
            PadState { drag_active: false, drag_release_deadline: None, ..s }
        },
        None => {
            assert(steps@ =~= steps@ + Seq::<PadStep>::empty());
            s
        },
    }
}

/// The actions for one gesture event at time `now`, with the state after it.
pub fn on_gesture(state: PadState, event: GestureEvent, now: u64) -> (r: (PadState, Vec<PadStep>))
    requires
        release_time_fits(state, event, now),
    ensures
        (r.0, r.1@) == pad_on_gesture(state, event, now),
{
    let mut steps: Vec<PadStep> = Vec::new();
    let mut s = state;
    match s.drag_release_deadline {
        Some(d) => {
            if now >= d {
                s = release_pending_exec(s, &mut steps);
            }
        },
        None => {},
    }
    let ghost pre = steps@;
    assert(pre == release_expired(state, now).1);
    match event.state {
        GestureState::Begin => {
            s = release_pending_exec(s, &mut steps);
            match event.gesture_type {
                GestureType::Pointer => {
                    s.pointer_active = true;
                    s.pointer_moved = false;
                    s.drag_active = event.is_drag;
                    if event.is_drag {
                        steps.push(PadStep { action: PadAction::PressLeft, state: s });
                    }
                    steps.push(PadStep { action: PadAction::ResetPointerMotion, state: s });
                },
                GestureType::Scroll => {
                    steps.push(PadStep { action: PadAction::ResetScrollMotion, state: s });
                },
            }
        },
        GestureState::End => {
            match event.gesture_type {
                GestureType::Pointer => {
                    if s.drag_active {
                        s.drag_release_deadline = Some(now + DRAG_RELEASE_WINDOW_NS);
                    } else if !event.suppress_click && !s.pointer_moved {
                        steps.push(PadStep { action: PadAction::Click, state: s });
                    }
                    s.pointer_active = false;
                    s.pointer_moved = false;
                },
                GestureType::Scroll => {
                    if event.is_tap {
                        s = release_pending_exec(s, &mut steps);
                        steps.push(PadStep { action: PadAction::RightClick, state: s });
                    }
                    steps.push(PadStep { action: PadAction::ResetScrollMotion, state: s });
                },
            }
        },
        GestureState::Update => {
            match event.gesture_type {
                GestureType::Pointer => {
                    if event.is_drag && !s.drag_active {
                        s.drag_active = true;
                        steps.push(PadStep { action: PadAction::PressLeft, state: s });
                    }
                    s.pointer_moved = true;
                    steps.push(PadStep { action: PadAction::MovePointer, state: s });
                },
                GestureType::Scroll => {
                    s = release_pending_exec(s, &mut steps);
                    steps.push(PadStep { action: PadAction::Scroll, state: s });
                },
            }
        },
    }
    let ghost t = match event.state {
        GestureState::Begin => on_begin(release_expired(state, now).0, event),
        GestureState::End => on_end(release_expired(state, now).0, event, now),
        GestureState::Update => on_update(release_expired(state, now).0, event),
    };
    assert(steps@ =~= pre + t.1);
    (s, steps)
}

/// A plain one-finger tap (Begin, then End with no motion and nothing
/// suppressed) clicks the left button exactly once.
pub proof fn lemma_tap_clicks_once(s: PadState, t1: u64, t2: u64)
    ensures
        ({
            let b = pad_on_gesture(s, GestureEvent::plain(GestureType::Pointer, 1, GestureState::Begin), t1);
            let e = pad_on_gesture(b.0, GestureEvent::plain(GestureType::Pointer, 1, GestureState::End), t2);
            &&& e.1.len() == 1
            &&& e.1[0].action == PadAction::Click
            &&& !e.0.drag_active
            &&& !e.0.pointer_active
        }),
{
}

/// A pointer gesture cut short by a change of finger count never clicks.
pub proof fn lemma_interrupted_pointer_never_clicks(s: PadState, e: GestureEvent, now: u64)
    requires
        e.state == GestureState::End,
        e.gesture_type == GestureType::Pointer,
        e.suppress_click,
    ensures
        forall|k: int|
            0 <= k < pad_on_gesture(s, e, now).1.len() ==> (#[trigger] pad_on_gesture(s, e, now).1[k]).action
                != PadAction::Click,
{
}

/// Ending a drag keeps the left button down until the release time, and the
/// first event at or after that time releases it before anything else.
pub proof fn lemma_drag_button_is_released(s: PadState, e: GestureEvent, now: u64, later: u64, e2: GestureEvent)
    requires
        e.state == GestureState::End,
        e.gesture_type == GestureType::Pointer,
        release_expired(s, now).0.drag_active,
        release_time_fits(s, e, now),
        later >= now + DRAG_RELEASE_WINDOW_NS,
    ensures
        ({
            let a = pad_on_gesture(s, e, now);
            let b = pad_on_gesture(a.0, e2, later);
            &&& a.0.drag_active
            &&& a.0.drag_release_deadline == Some((now + DRAG_RELEASE_WINDOW_NS) as u64)
            &&& forall|k: int| 0 <= k < a.1.len() ==> (#[trigger] a.1[k]).action != PadAction::ReleaseDrag
            &&& b.1.len() > 0
            &&& b.1[0].action == PadAction::ReleaseDrag
        }),
{
}

/// A two-finger tap right-clicks; a drag still holding the left button is
/// released first.
pub proof fn lemma_two_finger_tap_right_clicks(s: PadState, e: GestureEvent, now: u64)
    requires
        e.state == GestureState::End,
        e.gesture_type == GestureType::Scroll,
        e.is_tap,
    ensures
        ({
            let r = pad_on_gesture(s, e, now);
            let n = r.1.len();
            &&& n >= 2
            &&& r.1[n - 2].action == PadAction::RightClick
            &&& r.1[n - 1].action == PadAction::ResetScrollMotion
            &&& r.0.drag_release_deadline is None
            &&& (s.drag_release_deadline is Some ==> r.1[0].action == PadAction::ReleaseDrag)
        }),
{
}

/// End to end: a single finger put down and lifted without moving makes the
/// touchpad click the left button once.
pub proof fn lemma_one_finger_tap_is_left_click(
    ps: PointerModel,
    pad: PadState,
    p: Option<(i32, i32)>,
    t_down: u64,
    t_up: u64,
    t1: u64,
    t2: u64,
)
    ensures
        ({
            let b = pointer_begin(ps, p, t_down);
            let e = pointer_end(b.0, true, t_up);
            let pad1 = pad_on_gesture(pad, b.1, t1);
            let pad2 = pad_on_gesture(pad1.0, e.1, t2);
            &&& pad2.1.len() == 1
            &&& pad2.1[0].action == PadAction::Click
        }),
{
    lemma_tap_clicks_once(pad, t1, t2);
}

/// End to end: two fingers put down and lifted again within the warm-up,
/// however they moved meanwhile, make the touchpad right-click.
pub proof fn lemma_two_finger_tap_is_right_click(ss: ScrollModel, b: bool, pad: PadState, now: u64)
    ensures
        ({
            let s0 = scroll_begin(ss).0;
            let u = scroll_update(s0, b);
            let e = scroll_end(u.0).1;
            let r = pad_on_gesture(pad, e, now);
            let n = r.1.len();
            &&& e.is_tap
            &&& n >= 2
            &&& r.1[n - 2].action == PadAction::RightClick
        }),
{
    let s0 = scroll_begin(ss).0;
    let e = scroll_end(scroll_update(s0, b).0).1;
    lemma_two_finger_tap_right_clicks(pad, e, now);
}

/// Only a two-finger tap right-clicks: an event whose actions include a right
/// click is the End of a scroll gesture that was a tap. In particular a scroll
/// that moved ends without any click.
pub proof fn lemma_right_click_only_on_tap(s: PadState, e: GestureEvent, now: u64)
    ensures
        forall|k: int|
            0 <= k < pad_on_gesture(s, e, now).1.len() && (#[trigger] pad_on_gesture(s, e, now).1[k]).action
                == PadAction::RightClick ==> e.state == GestureState::End && e.gesture_type == GestureType::Scroll
                && e.is_tap,
{
}

/// A scroll gesture that was not a tap ends by resetting the scroll motion and
/// nothing else (after releasing a drag whose time has come).
pub proof fn lemma_scroll_end_without_tap(s: PadState, e: GestureEvent, now: u64)
    requires
        e.state == GestureState::End,
        e.gesture_type == GestureType::Scroll,
        !e.is_tap,
    ensures
        ({
            let r = pad_on_gesture(s, e, now);
            &&& r.1.len() >= 1
            &&& r.1.last().action == PadAction::ResetScrollMotion
            &&& forall|k: int| 0 <= k < r.1.len() - 1 ==> (#[trigger] r.1[k]).action == PadAction::ReleaseDrag
        }),
{
}

/// The touchpad's invariant: a pending release belongs to a drag that still
/// holds the left button.
pub open spec fn pad_state_ok(s: PadState) -> bool {
    s.drag_release_deadline is Some ==> s.drag_active
}

/// Every event keeps the touchpad's invariant.
pub proof fn lemma_pad_state_ok_kept(s: PadState, e: GestureEvent, now: u64)
    requires
        pad_state_ok(s),
    ensures
        pad_state_ok(pad_on_gesture(s, e, now).0),
{
}

/// A held left button is never dropped silently: whenever an event clears a
/// pending release, or ends a drag that was waiting for its release, the very
/// first action is the release of the left button.
pub proof fn lemma_cleared_release_is_performed(s: PadState, e: GestureEvent, now: u64)
    requires
        pad_state_ok(s),
    ensures
        ({
            let r = pad_on_gesture(s, e, now);
            (s.drag_release_deadline is Some && (r.0.drag_release_deadline is None || !r.0.drag_active))
                ==> r.1.len() > 0 && r.1[0].action == PadAction::ReleaseDrag && r.1[0].state == s
        }),
{
    let x = release_expired(s, now);
    if x.1.len() == 0 {
        assert(x.0 == s);
        let t = match e.state {
            GestureState::Begin => on_begin(s, e),
            GestureState::End => on_end(s, e, now),
            GestureState::Update => on_update(s, e),
        };
        assert(pad_on_gesture(s, e, now).1 =~= t.1);
    } else {
        assert(x.1[0] == step(PadAction::ReleaseDrag, s));
        assert(pad_on_gesture(s, e, now).1[0] == x.1[0]);
    }
}

/// A new gesture never starts while a finished drag still holds the left
/// button: its first action releases it, and no release is left pending.
pub proof fn lemma_begin_releases_pending_drag(s: PadState, e: GestureEvent, now: u64)
    requires
        e.state == GestureState::Begin,
        s.drag_release_deadline is Some,
    ensures
        ({
            let r = pad_on_gesture(s, e, now);
            &&& r.1.len() > 0
            &&& r.1[0].action == PadAction::ReleaseDrag
            &&& r.0.drag_release_deadline is None
            &&& r.0.drag_active == (e.gesture_type == GestureType::Pointer && e.is_drag)
        }),
{
}

/// The left button is only pressed for a drag: an event whose actions press it
/// reports a drag.
pub proof fn lemma_press_only_for_drag(s: PadState, e: GestureEvent, now: u64)
    ensures
        forall|k: int|
            0 <= k < pad_on_gesture(s, e, now).1.len() && (#[trigger] pad_on_gesture(s, e, now).1[k]).action
                == PadAction::PressLeft ==> e.is_drag && e.gesture_type == GestureType::Pointer,
{
}

/// The left button clicks only at the end of a pointer gesture that was not
/// cut short, did not move and was not a drag.
pub proof fn lemma_click_only_on_plain_pointer_end(s: PadState, e: GestureEvent, now: u64)
    ensures
        forall|k: int|
            0 <= k < pad_on_gesture(s, e, now).1.len() && (#[trigger] pad_on_gesture(s, e, now).1[k]).action
                == PadAction::Click ==> e.state == GestureState::End && e.gesture_type == GestureType::Pointer
                && !e.suppress_click && !release_expired(s, now).0.drag_active && !s.pointer_moved,
{
}

/// The pointer moves only on pointer updates and the wheel turns only on
/// scroll updates.
pub proof fn lemma_motion_only_on_updates(s: PadState, e: GestureEvent, now: u64)
    ensures
        forall|k: int|
            0 <= k < pad_on_gesture(s, e, now).1.len() ==> {
                let a = (#[trigger] pad_on_gesture(s, e, now).1[k]).action;
                &&& (a == PadAction::MovePointer ==> e.state == GestureState::Update && e.gesture_type
                    == GestureType::Pointer)
                &&& (a == PadAction::Scroll ==> e.state == GestureState::Update && e.gesture_type
                    == GestureType::Scroll)
            },
{
}

} // verus!
