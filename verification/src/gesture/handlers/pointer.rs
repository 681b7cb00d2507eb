//! Single-finger pointer: cursor motion, click, and double-tap-and-hold drag.
//!
//! Time stamps are nanoseconds on a monotonic clock, supplied by the caller.
//! The caller also owns the pointer sensitivity and tells `update` whether the
//! scaled motion of the frame reached one unit.
use crate::types::{GestureEvent, GestureState, GestureType, TouchPoint};
use vstd::prelude::*;

verus! {

/// Longest gap, in milliseconds, between the end of a tap and the next touch for a double tap.
pub const DOUBLE_TAP_MS: u64 = 300;

/// Largest distance, in device units, between the two touches of a double tap.
pub const DOUBLE_TAP_RADIUS: i64 = 500;

/// How long, in milliseconds, the second touch of a double tap must be held to start a drag.
pub const DRAG_HOLD_MS: u64 = 80;

/// Nanoseconds per millisecond.
pub const NANOS_PER_MILLI: u64 = 1_000_000;

/// Whole milliseconds from `then` to `now` (zero if the clock reads earlier).
pub open spec fn elapsed_ms(now: u64, then: u64) -> int {
    if now >= then {
        (now - then) / (NANOS_PER_MILLI as int)
    } else {
        0
    }
}

/// Two positions are close enough for a double tap.
pub open spec fn within_tap_radius(a: (i32, i32), b: (i32, i32)) -> bool {
    let dx = a.0 as int - b.0 as int;
    let dy = a.1 as int - b.1 as int;
    dx * dx + dy * dy <= DOUBLE_TAP_RADIUS * DOUBLE_TAP_RADIUS
}

/// The state of the pointer handler.
pub struct PointerModel {
    pub drag_active: bool,
    pub has_moved: bool,
    /// When the last plain tap ended.
    pub last_tap_end: Option<u64>,
    /// Where the last plain tap was.
    pub last_tap_pos: Option<(i32, i32)>,
    /// Where the current touch started.
    pub touch_start_pos: Option<(i32, i32)>,
    /// A double tap was seen at this time; the drag starts once it is held long enough.
    pub drag_pending: Option<u64>,
}

/// The first touch of a frame, as a position.
pub open spec fn first_pos(touches: Seq<TouchPoint>) -> Option<(i32, i32)> {
    if touches.len() > 0 {
        Some((touches[0].x, touches[0].y))
    } else {
        None
    }
}

/// A touch starting at `start` at time `now` is the second touch of a double tap.
pub open spec fn is_double_tap(s: PointerModel, start: Option<(i32, i32)>, now: u64) -> bool {
    match (s.last_tap_end, s.last_tap_pos, start) {
        (Some(end_time), Some(end_pos), Some(p)) => elapsed_ms(now, end_time) <= DOUBLE_TAP_MS
            && within_tap_radius(p, end_pos),
        _ => false,
    }
}

/// A touch begins.
pub open spec fn pointer_begin(s: PointerModel, start: Option<(i32, i32)>, now: u64) -> (PointerModel, GestureEvent) {
    (
        PointerModel {
            drag_active: false,
            has_moved: false,
            last_tap_end: None,
            last_tap_pos: s.last_tap_pos,
            touch_start_pos: start,
            drag_pending: if is_double_tap(s, start, now) {
                Some(now)
            } else {
                None
            },
        },
        GestureEvent::plain(GestureType::Pointer, 1, GestureState::Begin),
    )
}

/// The drag state after checking whether a pending drag has been held long enough.
pub open spec fn confirm_drag(s: PointerModel, now: u64) -> PointerModel {
    match s.drag_pending {
        Some(since) => if elapsed_ms(now, since) >= DRAG_HOLD_MS {
            PointerModel { drag_active: true, drag_pending: None, ..s }
        } else {
            s
        },
        None => s,
    }
}

/// A frame while the finger is down. `followed` says whether both this frame and
/// the previous one have a touch; `moved` whether the scaled motion reached one unit.
pub open spec fn pointer_update(s: PointerModel, followed: bool, moved: bool, now: u64) -> (PointerModel, Option<GestureEvent>) {
    let c = confirm_drag(s, now);
    if !followed {
        (c, None)
    } else {
        let c2 = PointerModel { has_moved: c.has_moved || moved, ..c };
        (
            c2,
            Some(
                GestureEvent {
                    is_drag: c2.drag_active,
                    ..GestureEvent::plain(GestureType::Pointer, 1, GestureState::Update)
                },
            ),
        )
    }
}

/// The touch ends; `all_fingers_up` is false when it was cut short by a change of finger count.
pub open spec fn pointer_end(s: PointerModel, all_fingers_up: bool, now: u64) -> (PointerModel, GestureEvent) {
    let tap = all_fingers_up && !s.drag_active && !s.has_moved;
    (
        PointerModel {
            drag_active: false,
            has_moved: false,
            last_tap_end: if tap {
                Some(now)
            } else {
                None
            },
            last_tap_pos: if tap {
                s.touch_start_pos
            } else {
                None
            },
            touch_start_pos: s.touch_start_pos,
            drag_pending: None,
        },
        GestureEvent {
            is_drag: s.drag_active,
            has_moved: s.has_moved,
            suppress_click: !all_fingers_up,
            ..GestureEvent::plain(GestureType::Pointer, 1, GestureState::End)
        },
    )
}

/// The single-finger pointer handler.
pub struct PointerHandler {
    drag_active: bool,
    has_moved: bool,
    last_tap_end: Option<u64>,
    last_tap_pos: Option<(i32, i32)>,
    touch_start_pos: Option<(i32, i32)>,
    drag_pending: Option<u64>,
}

fn millis_between(now: u64, then: u64) -> (ms: u64)
    ensures
        ms as int == elapsed_ms(now, then),
{
    if now >= then {
        (now - then) / NANOS_PER_MILLI
    } else {
        0
    }
}

fn close_enough(a: (i32, i32), b: (i32, i32)) -> (r: bool)
    ensures
        r == within_tap_radius(a, b),
{
    let dx: i64 = a.0 as i64 - b.0 as i64;
    let dy: i64 = a.1 as i64 - b.1 as i64;
    if dx > DOUBLE_TAP_RADIUS || dx < -DOUBLE_TAP_RADIUS || dy > DOUBLE_TAP_RADIUS || dy
        < -DOUBLE_TAP_RADIUS {
        assert(dx * dx > 250000 || dy * dy > 250000) by (nonlinear_arith)
            requires
                dx > 500 || dx < -500 || dy > 500 || dy < -500,
        ;
        assert(dx * dx >= 0 && dy * dy >= 0) by (nonlinear_arith);
        return false;
    }
    assert(0 <= dx * dx <= 250000 && 0 <= dy * dy <= 250000) by (nonlinear_arith)
        requires
            -500 <= dx <= 500,
            -500 <= dy <= 500,
    ;
    dx * dx + dy * dy <= DOUBLE_TAP_RADIUS * DOUBLE_TAP_RADIUS
}

impl View for PointerHandler {
    type V = PointerModel;

    closed spec fn view(&self) -> PointerModel {
        PointerModel {
            drag_active: self.drag_active,
            has_moved: self.has_moved,
            last_tap_end: self.last_tap_end,
            last_tap_pos: self.last_tap_pos,
            touch_start_pos: self.touch_start_pos,
            drag_pending: self.drag_pending,
        }
    }
}

impl PointerHandler {
    /// A handler with no touch and no tap history.
    pub fn new() -> (h: PointerHandler)
        ensures
            h@ == (PointerModel {
                drag_active: false,
                has_moved: false,
                last_tap_end: None,
                last_tap_pos: None,
                touch_start_pos: None,
                drag_pending: None,
            }),
    {
        PointerHandler {
            drag_active: false,
            has_moved: false,
            last_tap_end: None,
            last_tap_pos: None,
            touch_start_pos: None,
            drag_pending: None,
        }
    }

    /// A touch begins at time `now`: records its start and detects a double tap.
    pub fn begin(&mut self, touches: &[TouchPoint], now: u64) -> (e: GestureEvent)
        ensures
            (final(self)@, e) == pointer_begin(old(self)@, first_pos(touches@), now),
    {
        let start: Option<(i32, i32)> = if touches.len() > 0 {
            Some((touches[0].x, touches[0].y))
        } else {
            None
        };
        let double_tap = match (self.last_tap_end, self.last_tap_pos, start) {
            (Some(end_time), Some(end_pos), Some(p)) => millis_between(now, end_time)
                <= DOUBLE_TAP_MS && close_enough(p, end_pos),
            _ => false,
        };
        self.drag_active = false;
        self.has_moved = false;
        self.touch_start_pos = start;
        self.last_tap_end = None;
        self.drag_pending = if double_tap {
            Some(now)
        } else {
            None
        };
        GestureEvent::new(GestureType::Pointer, 1, GestureState::Begin)
    }

    /// A frame while the finger is down. Without a touch in both this frame and
    /// the previous one there is no event; `moved` says whether the scaled motion
    /// of the frame reached one unit on either axis.
    pub fn update(&mut self, touches: &[TouchPoint], prev: &[TouchPoint], moved: bool, now: u64) -> (e: Option<GestureEvent>)
        ensures
            (final(self)@, e) == pointer_update(
                old(self)@,
                touches@.len() > 0 && prev@.len() > 0,
                moved,
                now,
            ),
    {
        match self.drag_pending {
            Some(since) => {
                if millis_between(now, since) >= DRAG_HOLD_MS {
                    self.drag_active = true;
                    self.drag_pending = None;
                }
            },
            None => {},
        }
        if touches.len() == 0 || prev.len() == 0 {
            return None;
        }
        if moved {
            self.has_moved = true;
        }
        let mut event = GestureEvent::new(GestureType::Pointer, 1, GestureState::Update);
        event.is_drag = self.drag_active;
        Some(event)
    }

    /// The touch ends at time `now`. A plain tap (all fingers up, no drag, no
    /// motion) is remembered for double-tap detection; anything else clears it.
    pub fn end(&mut self, all_fingers_up: bool, now: u64) -> (e: GestureEvent)
        ensures
            (final(self)@, e) == pointer_end(old(self)@, all_fingers_up, now),
    {
        self.drag_pending = None;
        let mut event = GestureEvent::new(GestureType::Pointer, 1, GestureState::End);
        event.is_drag = self.drag_active;
        event.has_moved = self.has_moved;
        event.suppress_click = !all_fingers_up;
        if all_fingers_up && !self.drag_active && !self.has_moved {
            self.last_tap_end = Some(now);
            self.last_tap_pos = self.touch_start_pos;
        } else {
            self.last_tap_end = None;
            self.last_tap_pos = None;
        }
        self.drag_active = false;
        self.has_moved = false;
        event
    }

    /// The number of fingers this handler takes: exactly one.
    pub fn finger_range(&self) -> (r: (u8, u8))
        ensures
            r == (1u8, 1u8),
    {
        (1, 1)
    }

    pub fn drag_active(&self) -> (b: bool)
        ensures
            b == self@.drag_active,
    {
        self.drag_active
    }

    pub fn drag_pending(&self) -> (t: Option<u64>)
        ensures
            t == self@.drag_pending,
    {
        self.drag_pending
    }

    pub fn last_tap_end(&self) -> (t: Option<u64>)
        ensures
            t == self@.last_tap_end,
    {
        self.last_tap_end
    }

    pub fn last_tap_pos(&self) -> (p: Option<(i32, i32)>)
        ensures
            p == self@.last_tap_pos,
    {
        self.last_tap_pos
    }

    pub fn touch_start_pos(&self) -> (p: Option<(i32, i32)>)
        ensures
            p == self@.touch_start_pos,
    {
        self.touch_start_pos
    }
}

/// Double tap and hold: after a plain tap, a second touch close enough in space
/// and time, held for the hold time, drags.
pub proof fn lemma_double_tap_and_hold_drags(
    s: PointerModel,
    p0: (i32, i32),
    t0: u64,
    t_up: u64,
    p1: (i32, i32),
    t1: u64,
    t2: u64,
    moved: bool,
)
    requires
        elapsed_ms(t1, t_up) <= DOUBLE_TAP_MS,
        within_tap_radius(p1, p0),
        elapsed_ms(t2, t1) >= DRAG_HOLD_MS,
    ensures
        ({
            let a = pointer_begin(s, Some(p0), t0).0;
            let b = pointer_end(a, true, t_up).0;
            let c = pointer_begin(b, Some(p1), t1).0;
            let d = pointer_update(c, true, moved, t2);
            &&& d.1 matches Some(e) && e.is_drag && e.state == GestureState::Update
            &&& d.0.drag_active
            &&& d.0.drag_pending is None
        }),
{
}

/// A second tap released before the hold time is a click, not a drag, and it
/// is remembered as a tap in turn.
pub proof fn lemma_quick_second_tap_clicks(
    s: PointerModel,
    p0: (i32, i32),
    t0: u64,
    t_up: u64,
    p1: (i32, i32),
    t1: u64,
    t_up2: u64,
)
    ensures
        ({
            let a = pointer_begin(s, Some(p0), t0).0;
            let b = pointer_end(a, true, t_up).0;
            let c = pointer_begin(b, Some(p1), t1).0;
            let d = pointer_end(c, true, t_up2);
            &&& !d.1.is_drag
            &&& !d.1.suppress_click
            &&& !d.1.has_moved
            &&& d.0.last_tap_end == Some(t_up2)
            &&& d.0.last_tap_pos == Some(p1)
        }),
{
}

/// A second touch too far from the tap, or too late after it, never drags.
pub proof fn lemma_far_or_late_touch_no_drag(
    s: PointerModel,
    p0: (i32, i32),
    t0: u64,
    t_up: u64,
    p1: (i32, i32),
    t1: u64,
)
    requires
        !within_tap_radius(p1, p0) || elapsed_ms(t1, t_up) > DOUBLE_TAP_MS,
    ensures
        ({
            let a = pointer_begin(s, Some(p0), t0).0;
            let b = pointer_end(a, true, t_up).0;
            let c = pointer_begin(b, Some(p1), t1).0;
            &&& c.drag_pending is None
            &&& !c.drag_active
        }),
{
}

/// A gesture cut short by a change of finger count never clicks and never
/// counts as the first half of a double tap.
pub proof fn lemma_interrupted_touch_never_clicks(s: PointerModel, t: u64, p: Option<(i32, i32)>, t1: u64)
    ensures
        pointer_end(s, false, t).1.suppress_click,
        pointer_end(s, false, t).0.last_tap_end is None,
        pointer_begin(pointer_end(s, false, t).0, p, t1).0.drag_pending is None,
{
}

/// A touch that moved is not remembered as a tap.
pub proof fn lemma_moving_touch_is_not_a_tap(s: PointerModel, now: u64, t: u64)
    ensures
        ({
            let u = pointer_update(s, true, true, now);
            let e = pointer_end(u.0, true, t);
            &&& e.1.has_moved
            &&& e.0.last_tap_end is None
        }),
{
}

/// Begin never reports a drag, and a finished gesture leaves no drag behind.
pub proof fn lemma_begin_and_end_reset_drag(s: PointerModel, p: Option<(i32, i32)>, now: u64, up: bool)
    ensures
        !pointer_begin(s, p, now).1.is_drag,
        !pointer_begin(s, p, now).0.drag_active,
        !pointer_end(s, up, now).0.drag_active,
        pointer_end(s, up, now).0.drag_pending is None,
{
}

/// The handler's own invariant: a drag that is still waiting for its hold
/// time is not active yet.
pub open spec fn pointer_model_ok(s: PointerModel) -> bool {
    s.drag_pending is Some ==> !s.drag_active
}

/// Every operation of the handler keeps its invariant.
pub proof fn lemma_pointer_model_ok_kept(
    s: PointerModel,
    p: Option<(i32, i32)>,
    followed: bool,
    moved: bool,
    up: bool,
    now: u64,
)
    requires
        pointer_model_ok(s),
    ensures
        pointer_model_ok(pointer_begin(s, p, now).0),
        pointer_model_ok(pointer_update(s, followed, moved, now).0),
        pointer_model_ok(pointer_end(s, up, now).0),
{
}

/// A pending drag is confirmed only once the second touch has been held for
/// the hold time: an update earlier than that leaves the drag inactive and
/// still pending, and reports no drag.
pub proof fn lemma_drag_waits_for_hold(s: PointerModel, since: u64, followed: bool, moved: bool, now: u64)
    requires
        pointer_model_ok(s),
        s.drag_pending == Some(since),
        elapsed_ms(now, since) < DRAG_HOLD_MS,
    ensures
        ({
            let r = pointer_update(s, followed, moved, now);
            &&& !r.0.drag_active
            &&& r.0.drag_pending == Some(since)
            &&& (r.1 matches Some(e) ==> !e.is_drag)
        }),
{
}

/// After an update the drag is active exactly when it already was, or when a
/// pending drag has now been held for the hold time; a confirmed drag is no
/// longer pending.
pub proof fn lemma_update_drag_state(s: PointerModel, followed: bool, moved: bool, now: u64)
    ensures
        ({
            let r = pointer_update(s, followed, moved, now);
            &&& r.0.drag_active == (s.drag_active || (s.drag_pending matches Some(since) && elapsed_ms(
                now,
                since,
            ) >= DRAG_HOLD_MS))
            &&& (r.0.drag_active && !s.drag_active ==> r.0.drag_pending is None)
        }),
{
}

/// An update reports a drag exactly when the drag is active after it; so with
/// no drag active or pending, a moving finger only moves the pointer. There is
/// an event exactly when this frame and the previous one both have a touch.
pub proof fn lemma_update_reports_drag_state(s: PointerModel, followed: bool, moved: bool, now: u64)
    ensures
        ({
            let r = pointer_update(s, followed, moved, now);
            &&& r.1 is Some <==> followed
            &&& (r.1 matches Some(e) ==> e.is_drag == r.0.drag_active && e.state == GestureState::Update
                && e.gesture_type == GestureType::Pointer && e.fingers == 1)
            &&& (!s.drag_active && s.drag_pending is None ==> !r.0.drag_active && (r.1 matches Some(e)
                ==> !e.is_drag))
            &&& r.0.has_moved == (s.has_moved || (followed && moved))
        }),
{
}

/// A quick double tap whose second touch is lifted before the hold time is
/// two clicks: updates of the second touch before the hold time report no
/// drag, and its end is a plain, unsuppressed tap that is not a drag.
pub proof fn lemma_quick_double_tap_with_update_clicks(
    s: PointerModel,
    p0: (i32, i32),
    t0: u64,
    t_up: u64,
    p1: (i32, i32),
    t1: u64,
    t2: u64,
    t_up2: u64,
)
    requires
        elapsed_ms(t2, t1) < DRAG_HOLD_MS,
    ensures
        ({
            let a = pointer_begin(s, Some(p0), t0).0;
            let b = pointer_end(a, true, t_up);
            let c = pointer_begin(b.0, Some(p1), t1).0;
            let u = pointer_update(c, true, false, t2);
            let d = pointer_end(u.0, true, t_up2);
            &&& !b.1.is_drag && !b.1.has_moved && !b.1.suppress_click
            &&& u.1 matches Some(e) && !e.is_drag
            &&& !d.1.is_drag
            &&& !d.1.has_moved
            &&& !d.1.suppress_click
        }),
{
}

/// The end of a touch is remembered as a tap (for a double tap) exactly when
/// all fingers are up and the touch neither dragged nor moved; the end event
/// reports the drag and the motion of the touch.
pub proof fn lemma_end_records_tap(s: PointerModel, up: bool, now: u64)
    ensures
        ({
            let r = pointer_end(s, up, now);
            &&& (r.0.last_tap_end is Some <==> (up && !s.drag_active && !s.has_moved))
            &&& (r.0.last_tap_end is Some ==> r.0.last_tap_end == Some(now) && r.0.last_tap_pos
                == s.touch_start_pos)
            &&& r.1.is_drag == s.drag_active
            &&& r.1.has_moved == s.has_moved
            &&& r.1.suppress_click == !up
            &&& r.1.state == GestureState::End
        }),
{
}

/// A touch begins a pending drag exactly when it is a double tap: close enough
/// to the last tap and soon enough after it.
pub proof fn lemma_begin_detects_double_tap(s: PointerModel, p: (i32, i32), now: u64)
    ensures
        ({
            let r = pointer_begin(s, Some(p), now).0;
            &&& (r.drag_pending is Some <==> (s.last_tap_end matches Some(t) && s.last_tap_pos matches Some(q)
                && elapsed_ms(now, t) <= DOUBLE_TAP_MS && within_tap_radius(p, q)))
            &&& (r.drag_pending is Some ==> r.drag_pending == Some(now))
            &&& !r.drag_active
            &&& r.last_tap_end is None
        }),
{
}

} // verus!
