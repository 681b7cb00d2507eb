//! Multi-touch slot tracking: the evdev multi-touch protocol (type B) turned
//! into frames of touch points. Reading events from the device happens in the
//! application; this module decides what each event does to the slots and
//! which points make up a frame.
use crate::types::TouchPoint;
use vstd::prelude::*;

verus! {

/// Number of contact slots that are tracked.
pub const MAX_SLOTS: usize = 16;

/// What is known about one contact slot.
#[derive(Clone, Copy, Debug, PartialEq, Eq, Structural)]
pub struct SlotInfo {
    pub tracking_id: i32,
    pub x: i32,
    pub y: i32,
    /// An X position has been received for this contact.
    pub x_received: bool,
    /// A Y position has been received for this contact.
    pub y_received: bool,
    /// Set once both coordinates have been received, so that a fresh contact
    /// does not show up at a coordinate it never reported.
    pub initialized: bool,
}

/// The multi-touch events that matter here, decoded from the device.
#[derive(Clone, Copy, Debug, PartialEq, Eq, Structural)]
pub enum TouchEvent {
    /// ABS_MT_SLOT: select a slot.
    Slot(i32),
    /// ABS_MT_TRACKING_ID: a contact starts in the selected slot, or ends (-1).
    TrackingId(i32),
    /// ABS_MT_POSITION_X of the selected slot.
    PositionX(i32),
    /// ABS_MT_POSITION_Y of the selected slot.
    PositionY(i32),
    /// SYN_REPORT: the end of a frame.
    SynReport,
    /// Anything else; it changes nothing.
    Other,
}

/// The model of the tracker: the slots and the raw value of the last slot selection.
pub struct TrackerState {
    pub slots: Seq<Option<SlotInfo>>,
    pub current_slot: i32,
}

/// A slot selection addresses one of the tracked slots.
pub open spec fn slot_selected(current_slot: i32) -> bool {
    0 <= current_slot < MAX_SLOTS as int
}

/// The slots with every contact of the given tracking id removed.
pub open spec fn without_tracking_id(slots: Seq<Option<SlotInfo>>, id: i32) -> Seq<Option<SlotInfo>> {
    Seq::new(
        slots.len(),
        |i: int|
            match slots[i] {
                Some(info) => if info.tracking_id == id {
                    None
                } else {
                    slots[i]
                },
                None => None,
            },
    )
}

/// Index of the first occupied slot at or after `i`, or the length when there is none.
pub open spec fn first_occupied_from(slots: Seq<Option<SlotInfo>>, i: int) -> int
    decreases slots.len() - i,
{
    if i < 0 || i >= slots.len() {
        slots.len() as int
    } else if slots[i] is Some {
        i
    } else {
        first_occupied_from(slots, i + 1)
    }
}

/// The slots with the first occupied one emptied (unchanged if none is occupied).
pub open spec fn without_first_occupied(slots: Seq<Option<SlotInfo>>) -> Seq<Option<SlotInfo>> {
    let k = first_occupied_from(slots, 0);
    if k < slots.len() {
        slots.update(k, None)
    } else {
        slots
    }
}

/// What one event does to the tracker.
pub open spec fn apply_event(s: TrackerState, e: TouchEvent) -> TrackerState {
    let cur = s.current_slot as int;
    match e {
        TouchEvent::Slot(v) => TrackerState { slots: s.slots, current_slot: v },
        TouchEvent::TrackingId(v) => {
            if !slot_selected(s.current_slot) {
                s
            } else if v == -1 {
                if s.slots[cur] is Some {
                    TrackerState { slots: s.slots.update(cur, None), current_slot: s.current_slot }
                } else {
                    TrackerState {
                        slots: without_first_occupied(s.slots),
                        current_slot: s.current_slot,
                    }
                }
            } else {
                TrackerState {
                    slots: without_tracking_id(s.slots, v).update(
                        cur,
                        Some(SlotInfo { tracking_id: v, x: 0, y: 0, x_received: false, y_received: false, initialized: false }),
                    ),
                    current_slot: s.current_slot,
                }
            }
        },
        TouchEvent::PositionX(v) => {
            if slot_selected(s.current_slot) && s.slots[cur] is Some {
                let info = s.slots[cur]->0;
                TrackerState {
                    slots: s.slots.update(
                        cur,
                        Some(
                            SlotInfo {
                                tracking_id: info.tracking_id,
                                x: v,
                                y: info.y,
                                x_received: true,
                                y_received: info.y_received,
                                initialized: info.initialized || info.y_received,
                            },
                        ),
                    ),
                    current_slot: s.current_slot,
                }
            } else {
                s
            }
        },
        TouchEvent::PositionY(v) => {
            if slot_selected(s.current_slot) && s.slots[cur] is Some {
                let info = s.slots[cur]->0;
                TrackerState {
                    slots: s.slots.update(
                        cur,
                        Some(
                            SlotInfo {
                                tracking_id: info.tracking_id,
                                x: info.x,
                                y: v,
                                x_received: info.x_received,
                                y_received: true,
                                initialized: info.initialized || info.x_received,
                            },
                        ),
                    ),
                    current_slot: s.current_slot,
                }
            } else {
                s
            }
        },
        TouchEvent::SynReport => s,
        TouchEvent::Other => s,
    }
}

/// The tracker after a sequence of events, applied in order.
pub open spec fn apply_events(s: TrackerState, evs: Seq<TouchEvent>) -> TrackerState
    decreases evs.len(),
{
    if evs.len() == 0 {
        s
    } else {
        apply_event(apply_events(s, evs.drop_last()), evs.last())
    }
}

/// The point a slot contributes to a frame: one point if it holds an initialized contact.
pub open spec fn slot_points(o: Option<SlotInfo>) -> Seq<TouchPoint> {
    match o {
        Some(info) => if info.initialized {
            seq![TouchPoint { x: info.x, y: info.y, tracking_id: info.tracking_id }]
        } else {
            Seq::empty()
        },
        None => Seq::empty(),
    }
}

/// The frame the slots describe: the initialized contacts, in slot order.
pub open spec fn frame_of(slots: Seq<Option<SlotInfo>>) -> Seq<TouchPoint>
    decreases slots.len(),
{
    if slots.len() == 0 {
        Seq::empty()
    } else {
        frame_of(slots.drop_last()) + slot_points(slots.last())
    }
}

/// Index of the first SYN_REPORT at or after `i`, or the length when there is none.
pub open spec fn first_report_from(evs: Seq<TouchEvent>, i: int) -> int
    decreases evs.len() - i,
{
    if i < 0 || i >= evs.len() {
        evs.len() as int
    } else if evs[i] is SynReport {
        i
    } else {
        first_report_from(evs, i + 1)
    }
}

/// No two occupied slots carry the same tracking id.
pub open spec fn distinct_ids(slots: Seq<Option<SlotInfo>>) -> bool {
    forall|i: int, j: int|
        0 <= i < slots.len() && 0 <= j < slots.len() && i != j && #[trigger] slots[i] is Some
            && #[trigger] slots[j] is Some ==> slots[i]->0.tracking_id != slots[j]->0.tracking_id
}

/// No occupied slot carries the tracking id -1, which marks the end of a contact.
pub open spec fn no_released_ids(slots: Seq<Option<SlotInfo>>) -> bool {
    forall|i: int| 0 <= i < slots.len() && #[trigger] slots[i] is Some ==> slots[i]->0.tracking_id != -1
}

/// No point of a frame carries the tracking id -1.
pub open spec fn no_released_points(pts: Seq<TouchPoint>) -> bool {
    forall|i: int| 0 <= i < pts.len() ==> #[trigger] pts[i].tracking_id != -1
}

/// No two points of a frame carry the same tracking id.
pub open spec fn distinct_point_ids(pts: Seq<TouchPoint>) -> bool {
    forall|i: int, j: int|
        0 <= i < pts.len() && 0 <= j < pts.len() && i != j ==> #[trigger] pts[i].tracking_id
            != #[trigger] pts[j].tracking_id
}

/// Turns the raw multi-touch event stream into frames of touch points.
pub struct SlotTracker {
    slots: Vec<Option<SlotInfo>>,
    current_slot: i32,
    /// Events that followed a SYN_REPORT in the last batch, kept for the next frame.
    buffered: Vec<TouchEvent>,
}

impl SlotTracker {
    pub closed spec fn state(&self) -> TrackerState {
        TrackerState { slots: self.slots@, current_slot: self.current_slot }
    }

    pub closed spec fn buffered(&self) -> Seq<TouchEvent> {
        self.buffered@
    }

    /// The tracker's invariant: all slots present, tracking ids unique among
    /// contacts, and no contact with the end-of-contact id -1.
    pub open spec fn wf(&self) -> bool {
        &&& self.state().slots.len() == MAX_SLOTS
        &&& distinct_ids(self.state().slots)
        &&& no_released_ids(self.state().slots)
    }

    /// A tracker with all slots empty and slot 0 selected.
    pub fn new() -> (t: SlotTracker)
        ensures
            t.wf(),
            t.state().slots == Seq::new(MAX_SLOTS as nat, |i: int| None::<SlotInfo>),
            t.state().current_slot == 0,
            t.buffered() == Seq::<TouchEvent>::empty(),
    {
        let mut slots: Vec<Option<SlotInfo>> = Vec::new();
        let mut i: usize = 0;
        while i < MAX_SLOTS
            invariant
                i <= MAX_SLOTS,
                slots@.len() == i,
                forall|k: int| 0 <= k < i ==> slots@[k] is None,
            decreases MAX_SLOTS - i,
        {
            slots.push(None);
            i = i + 1;
        }
        let t = SlotTracker { slots, current_slot: 0, buffered: Vec::new() };
        assert(t.state().slots =~= Seq::new(MAX_SLOTS as nat, |i: int| None::<SlotInfo>));
        t
    }

    /// Whether events from the last batch are waiting to be processed.
    pub fn has_buffered(&self) -> (b: bool)
        ensures
            b == (self.buffered().len() > 0),
    {
        self.buffered.len() > 0
    }

    /// Hands out the waiting events and forgets them.
    pub fn take_buffered(&mut self) -> (evs: Vec<TouchEvent>)
        requires
            old(self).wf(),
        ensures
            final(self).wf(),
            evs@ == old(self).buffered(),
            final(self).buffered() == Seq::<TouchEvent>::empty(),
            final(self).state() == old(self).state(),
    {
        let mut evs: Vec<TouchEvent> = Vec::new();
        std::mem::swap(&mut evs, &mut self.buffered);
        evs
    }

    fn remove_tracking_id(&mut self, id: i32)
        requires
            old(self).wf(),
        ensures
            final(self).slots@ == without_tracking_id(old(self).slots@, id),
            final(self).current_slot == old(self).current_slot,
            final(self).buffered@ == old(self).buffered@,
    {
        let mut j: usize = 0;
        while j < MAX_SLOTS
            invariant
                j <= MAX_SLOTS,
                self.slots@.len() == MAX_SLOTS,
                old(self).slots@.len() == MAX_SLOTS,
                self.current_slot == old(self).current_slot,
                self.buffered@ == old(self).buffered@,
                forall|k: int|
                    0 <= k < j ==> #[trigger] self.slots@[k] == without_tracking_id(
                        old(self).slots@,
                        id,
                    )[k],
                forall|k: int| j <= k < MAX_SLOTS ==> #[trigger] self.slots@[k] == old(self).slots@[k],
            decreases MAX_SLOTS - j,
        {
            let o = self.slots[j];
            match o {
                Some(info) => {
                    if info.tracking_id == id {
                        self.slots.set(j, None);
                    }
                },
                None => {},
            }
            j = j + 1;
        }
        assert(self.slots@ =~= without_tracking_id(old(self).slots@, id));
    }

    fn remove_first_occupied(&mut self)
        requires
            old(self).wf(),
        ensures
            final(self).slots@ == without_first_occupied(old(self).slots@),
            final(self).current_slot == old(self).current_slot,
            final(self).buffered@ == old(self).buffered@,
    {
        let ghost s = old(self).slots@;
        let mut j: usize = 0;
        let mut found = false;
        while j < MAX_SLOTS && !found
            invariant
                j <= MAX_SLOTS,
                s.len() == MAX_SLOTS,
                !found ==> self.slots@ == s,
                found ==> self.slots@ =~= without_first_occupied(s),
                self.current_slot == old(self).current_slot,
                self.buffered@ == old(self).buffered@,
                !found ==> first_occupied_from(s, 0) == first_occupied_from(s, j as int),
            decreases 2 * (MAX_SLOTS - j) + if found { 0int } else { 1int },
        {
            if self.slots[j].is_some() {
                assert(first_occupied_from(s, j as int) == j);
                self.slots.set(j, None);
                found = true;
            } else {
                j = j + 1;
            }
        }
        if !found {
            assert(first_occupied_from(s, MAX_SLOTS as int) == MAX_SLOTS);
        }
    }

    /// Applies one event to the slots.
    fn apply(&mut self, e: TouchEvent)
        requires
            old(self).wf(),
        ensures
            final(self).wf(),
            final(self).state() == apply_event(old(self).state(), e),
            final(self).buffered@ == old(self).buffered@,
    {
        let ghost s0 = old(self).state();
        let cur = self.current_slot;
        let selected = 0 <= cur && cur < MAX_SLOTS as i32;
        match e {
            TouchEvent::Slot(v) => {
                self.current_slot = v;
            },
            TouchEvent::TrackingId(v) => {
                if selected {
                    let c = cur as usize;
                    if v == -1 {
                        if self.slots[c].is_some() {
                            self.slots.set(c, None);
                            proof {
                                lemma_emptying_keeps_slots_valid(s0.slots, c as int);
                            }
                        } else {
                            self.remove_first_occupied();
                            proof {
                                let k = first_occupied_from(s0.slots, 0);
                                lemma_first_occupied_bounds(s0.slots, 0);
                                if k < s0.slots.len() {
                                    lemma_emptying_keeps_slots_valid(s0.slots, k);
                                }
                            }
                        }
                    } else {
                        self.remove_tracking_id(v);
                        let ghost cleared = self.slots@;
                        self.slots.set(c, Some(SlotInfo { tracking_id: v, x: 0, y: 0, x_received: false, y_received: false, initialized: false }));
                        assert forall|i: int, j: int|
                            0 <= i < self.slots@.len() && 0 <= j < self.slots@.len() && i != j
                                && #[trigger] self.slots@[i] is Some && #[trigger] self.slots@[j] is Some
                            implies self.slots@[i]->0.tracking_id != self.slots@[j]->0.tracking_id by {
                            if i != c as int && j != c as int {
                                assert(cleared[i] == s0.slots[i]);
                                assert(cleared[j] == s0.slots[j]);
                            } else if i == c as int {
                                assert(cleared[j] is Some);
                            } else {
                                assert(cleared[i] is Some);
                            }
                        }
                        assert forall|i: int| 0 <= i < self.slots@.len() && #[trigger] self.slots@[i] is Some
                            implies self.slots@[i]->0.tracking_id != -1 by {
                            if i != c as int {
                                assert(cleared[i] == s0.slots[i]);
                            }
                        }
                    }
                }
            },
            TouchEvent::PositionX(v) => {
                if selected {
                    let c = cur as usize;
                    match self.slots[c] {
                        Some(info) => {
                            self.slots.set(
                                c,
                                Some(
                                    SlotInfo {
                                        tracking_id: info.tracking_id,
                                        x: v,
                                        y: info.y,
                                        x_received: true,
                                        y_received: info.y_received,
                                        initialized: info.initialized || info.y_received,
                                    },
                                ),
                            );
                            assert forall|i: int, j: int|
                                0 <= i < self.slots@.len() && 0 <= j < self.slots@.len() && i != j
                                    && #[trigger] self.slots@[i] is Some
                                    && #[trigger] self.slots@[j] is Some
                                implies self.slots@[i]->0.tracking_id != self.slots@[j]->0.tracking_id by {
                                assert(s0.slots[i] is Some && s0.slots[j] is Some);
                            }
                            assert forall|i: int| 0 <= i < self.slots@.len() && #[trigger] self.slots@[i] is Some
                                implies self.slots@[i]->0.tracking_id != -1 by {
                                assert(s0.slots[i] is Some);
                            }
                        },
                        None => {},
                    }
                }
            },
            TouchEvent::PositionY(v) => {
                if selected {
                    let c = cur as usize;
                    match self.slots[c] {
                        Some(info) => {
                            self.slots.set(
                                c,
                                Some(
                                    SlotInfo {
                                        tracking_id: info.tracking_id,
                                        x: info.x,
                                        y: v,
                                        x_received: info.x_received,
                                        y_received: true,
                                        initialized: info.initialized || info.x_received,
                                    },
                                ),
                            );
                            assert forall|i: int, j: int|
                                0 <= i < self.slots@.len() && 0 <= j < self.slots@.len() && i != j
                                    && #[trigger] self.slots@[i] is Some
                                    && #[trigger] self.slots@[j] is Some
                                implies self.slots@[i]->0.tracking_id != self.slots@[j]->0.tracking_id by {
                                assert(s0.slots[i] is Some && s0.slots[j] is Some);
                            }
                            assert forall|i: int| 0 <= i < self.slots@.len() && #[trigger] self.slots@[i] is Some
                                implies self.slots@[i]->0.tracking_id != -1 by {
                                assert(s0.slots[i] is Some);
                            }
                        },
                        None => {},
                    }
                }
            },
            TouchEvent::SynReport => {},
            TouchEvent::Other => {},
        }
    }

    /// The frame the slots currently describe.
    fn current_frame(&self) -> (f: Vec<TouchPoint>)
        requires
            self.wf(),
        ensures
            f@ == frame_of(self.state().slots),
    {
        let mut f: Vec<TouchPoint> = Vec::new();
        let mut j: usize = 0;
        while j < MAX_SLOTS
            invariant
                j <= MAX_SLOTS,
                self.slots@.len() == MAX_SLOTS,
                f@ == frame_of(self.slots@.take(j as int)),
            decreases MAX_SLOTS - j,
        {
            assert(self.slots@.take(j + 1).drop_last() =~= self.slots@.take(j as int));
            match self.slots[j] {
                Some(info) => {
                    if info.initialized {
                        f.push(TouchPoint { x: info.x, y: info.y, tracking_id: info.tracking_id });
                    }
                },
                None => {},
            }
            assert(f@ =~= frame_of(self.slots@.take(j + 1)));
            j = j + 1;
        }
        assert(self.slots@.take(MAX_SLOTS as int) =~= self.slots@);
        f
    }

    /// Processes a batch of events up to its first SYN_REPORT.
    ///
    /// With a SYN_REPORT in the batch, the events before it are applied, the
    /// events after it are kept for the next call, and the frame is returned.
    /// Without one, every event is applied and no frame is complete yet.
    pub fn process_batch(&mut self, events: Vec<TouchEvent>) -> (frame: Option<Vec<TouchPoint>>)
        requires
            old(self).wf(),
        ensures
            final(self).wf(),
            ({
                let k = first_report_from(events@, 0);
                let s = apply_events(old(self).state(), events@.take(k));
                &&& final(self).state() == s
                &&& if k < events@.len() {
                    &&& frame matches Some(f) && f@ == frame_of(s.slots)
                    &&& final(self).buffered() == if k + 1 < events@.len() {
                        events@.skip(k + 1)
                    } else {
                        old(self).buffered()
                    }
                } else {
                    &&& frame is None
                    &&& final(self).buffered() == old(self).buffered()
                }
            }),
            frame matches Some(f) ==> distinct_point_ids(f@) && no_released_points(f@) && f@.len()
                <= MAX_SLOTS,
    {
        let n = events.len();
        let mut i: usize = 0;
        while i < n
            invariant
                n == events@.len(),
                i <= n,
                self.wf(),
                self.buffered@ == old(self).buffered@,
                self.state() == apply_events(old(self).state(), events@.take(i as int)),
                first_report_from(events@, 0) == first_report_from(events@, i as int),
            decreases n - i,
        {
            let e = events[i];
            if matches!(e, TouchEvent::SynReport) {
                if i + 1 < n {
                    let mut rest: Vec<TouchEvent> = Vec::new();
                    let mut j: usize = i + 1;
                    while j < n
                        invariant
                            n == events@.len(),
                            i + 1 <= j <= n,
                            rest@ == events@.subrange(i + 1, j as int),
                        decreases n - j,
                    {
                        rest.push(events[j]);
                        j = j + 1;
                    }
                    assert(rest@ =~= events@.skip(i + 1));
                    self.buffered = rest;
                }
                let f = self.current_frame();
                proof {
                    lemma_frame_distinct(self.slots@);
                }
                return Some(f);
            }
            self.apply(e);
            assert(events@.take(i + 1).drop_last() =~= events@.take(i as int));
            i = i + 1;
        }
        assert(events@.take(n as int) =~= events@);
        None
    }
}

/// The first occupied slot at or after `i` lies between `i` and the length.
proof fn lemma_first_occupied_bounds(slots: Seq<Option<SlotInfo>>, i: int)
    requires
        0 <= i <= slots.len(),
    ensures
        i <= first_occupied_from(slots, i) <= slots.len(),
        first_occupied_from(slots, i) < slots.len() ==> slots[first_occupied_from(slots, i)] is Some,
    decreases slots.len() - i,
{
    if i < slots.len() && slots[i] is None {
        lemma_first_occupied_bounds(slots, i + 1);
    }
}

/// Emptying a slot keeps tracking ids unique and free of -1.
proof fn lemma_emptying_keeps_slots_valid(slots: Seq<Option<SlotInfo>>, k: int)
    requires
        distinct_ids(slots),
        no_released_ids(slots),
        0 <= k < slots.len(),
    ensures
        distinct_ids(slots.update(k, None)),
        no_released_ids(slots.update(k, None)),
{
    let t = slots.update(k, None);
    assert forall|i: int| 0 <= i < t.len() && #[trigger] t[i] is Some implies t[i]->0.tracking_id != -1 by {
        assert(slots[i] == t[i]);
    }
    assert forall|i: int, j: int|
        0 <= i < t.len() && 0 <= j < t.len() && i != j && #[trigger] t[i] is Some
            && #[trigger] t[j] is Some implies t[i]->0.tracking_id != t[j]->0.tracking_id by {
        assert(slots[i] == t[i] && slots[j] == t[j]);
    }
}

/// Every point of a frame comes from an occupied slot with the same tracking id.
pub proof fn lemma_frame_from_slots(slots: Seq<Option<SlotInfo>>)
    ensures
        frame_of(slots).len() <= slots.len(),
        forall|a: int|
            0 <= a < frame_of(slots).len() ==> exists|j: int|
                0 <= j < slots.len() && #[trigger] slots[j] is Some && slots[j]->0.tracking_id
                    == (#[trigger] frame_of(slots)[a]).tracking_id,
    decreases slots.len(),
{
    if slots.len() > 0 {
        let s = slots.drop_last();
        lemma_frame_from_slots(s);
        let f = frame_of(slots);
        assert forall|a: int| 0 <= a < f.len() implies exists|j: int|
            0 <= j < slots.len() && #[trigger] slots[j] is Some && slots[j]->0.tracking_id
                == (#[trigger] f[a]).tracking_id by {
            if a < frame_of(s).len() {
                assert(f[a] == frame_of(s)[a]);
                let j = choose|j: int|
                    0 <= j < s.len() && #[trigger] s[j] is Some && s[j]->0.tracking_id
                        == (#[trigger] frame_of(s)[a]).tracking_id;
                assert(slots[j] == s[j]);
            } else {
                assert(slots[slots.len() - 1] is Some);
            }
        }
    }
}

/// Tracking ids that are unique among the slots are unique within the frame,
/// a frame never holds the end-of-contact id -1 when no slot does, and a frame
/// never holds more points than there are slots.
pub proof fn lemma_frame_distinct(slots: Seq<Option<SlotInfo>>)
    requires
        distinct_ids(slots),
        no_released_ids(slots),
    ensures
        distinct_point_ids(frame_of(slots)),
        no_released_points(frame_of(slots)),
        frame_of(slots).len() <= slots.len(),
    decreases slots.len(),
{
    lemma_frame_from_slots(slots);
    let f0 = frame_of(slots);
    assert forall|a: int| 0 <= a < f0.len() implies #[trigger] f0[a].tracking_id != -1 by {
        let j = choose|j: int|
            0 <= j < slots.len() && #[trigger] slots[j] is Some && slots[j]->0.tracking_id
                == (#[trigger] frame_of(slots)[a]).tracking_id;
    }
    if slots.len() > 0 {
        let s = slots.drop_last();
        assert(distinct_ids(s)) by {
            assert forall|i: int, j: int|
                0 <= i < s.len() && 0 <= j < s.len() && i != j && #[trigger] s[i] is Some
                    && #[trigger] s[j] is Some implies s[i]->0.tracking_id != s[j]->0.tracking_id by {
                assert(slots[i] == s[i] && slots[j] == s[j]);
            }
        }
        assert(no_released_ids(s)) by {
            assert forall|i: int| 0 <= i < s.len() && #[trigger] s[i] is Some implies s[i]->0.tracking_id
                != -1 by {
                assert(slots[i] == s[i]);
            }
        }
        lemma_frame_distinct(s);
        lemma_frame_from_slots(s);
        let f = frame_of(slots);
        let fs = frame_of(s);
        let last = slots.len() - 1;
        assert forall|a: int, b: int|
            0 <= a < f.len() && 0 <= b < f.len() && a != b implies #[trigger] f[a].tracking_id
            != #[trigger] f[b].tracking_id by {
            if a < fs.len() && b < fs.len() {
                assert(f[a] == fs[a] && f[b] == fs[b]);
            } else if a < fs.len() {
                assert(f[a] == fs[a]);
                let j = choose|j: int|
                    0 <= j < s.len() && #[trigger] s[j] is Some && s[j]->0.tracking_id
                        == (#[trigger] fs[a]).tracking_id;
                assert(slots[j] == s[j]);
                assert(slots[last] is Some);
            } else if b < fs.len() {
                assert(f[b] == fs[b]);
                let j = choose|j: int|
                    0 <= j < s.len() && #[trigger] s[j] is Some && s[j]->0.tracking_id
                        == (#[trigger] fs[b]).tracking_id;
                assert(slots[j] == s[j]);
                assert(slots[last] is Some);
            }
        }
    }
}

/// Bus types whose devices count as real (direct) touch screens: I2C, USB and virtual.
pub open spec fn direct_bus(bus: u16) -> bool {
    bus == 0x18 || bus == 0x03 || bus == 0x06
}

/// Whether a device on this bus is a direct touch screen.
pub fn is_direct_bus(bus: u16) -> (b: bool)
    ensures
        b == direct_bus(bus),
{
    bus == 0x18 || bus == 0x03 || bus == 0x06
}

/// The Unicode lower-case form of a string, as `str::to_lowercase` gives it.
pub uninterp spec fn lowercase(s: Seq<char>) -> Seq<char>;

/// `str::to_lowercase`, as a sequence of characters. Its result is the Unicode
/// lower-case mapping of the argument, a function of the argument alone; the
/// contract names it and states nothing more.
#[verifier::external_body]
fn lowercase_chars(s: &str) -> (r: Vec<char>)
    ensures
        r@ == lowercase(s@),
{
    s.to_lowercase().chars().collect()
}

/// `needle` occurs in `hay` as a contiguous run.
pub open spec fn contains_seq(hay: Seq<char>, needle: Seq<char>) -> bool {
    exists|i: int| 0 <= i <= hay.len() - needle.len() && #[trigger] hay.subrange(i, i + needle.len()) == needle
}

fn occurs_at(hay: &Vec<char>, needle: &Vec<char>, i: usize) -> (b: bool)
    requires
        i + needle@.len() <= hay@.len(),
    ensures
        b == (hay@.subrange(i as int, i + needle@.len()) == needle@),
{
    let hay_len = hay.len();
    let mut j: usize = 0;
    while j < needle.len()
        invariant
            hay_len == hay@.len(),
            i + needle@.len() <= hay@.len(),
            j <= needle@.len(),
            forall|k: int| 0 <= k < j ==> hay@[i + k] == needle@[k],
        decreases needle@.len() - j,
    {
        if hay[i + j] != needle[j] {
            assert(hay@.subrange(i as int, i + needle@.len())[j as int] != needle@[j as int]);
            return false;
        }
        j = j + 1;
    }
    assert(hay@.subrange(i as int, i + needle@.len()) =~= needle@);
    true
}

fn contains_chars(hay: &Vec<char>, needle: &Vec<char>) -> (b: bool)
    ensures
        b == contains_seq(hay@, needle@),
{
    if needle.len() > hay.len() {
        return false;
    }
    let last = hay.len() - needle.len();
    let mut i: usize = 0;
    loop
        invariant
            last == hay@.len() - needle@.len(),
            i <= last,
            forall|k: int| 0 <= k < i ==> #[trigger] hay@.subrange(k, k + needle@.len()) != needle@,
        decreases last - i,
    {
        if occurs_at(hay, needle, i) {
            return true;
        }
        if i == last {
            return false;
        }
        i = i + 1;
    }
}

/// A device name that says it is a touchpad or trackpad (in any letter case).
pub open spec fn touchpad_name(name: Seq<char>) -> bool {
    contains_seq(lowercase(name), seq!['t', 'o', 'u', 'c', 'h', 'p', 'a', 'd'])
        || contains_seq(lowercase(name), seq!['t', 'r', 'a', 'c', 'k', 'p', 'a', 'd'])
}

/// Whether lower-cased name characters contain "touchpad" or "trackpad".
pub fn names_touchpad(lower: &Vec<char>) -> (b: bool)
    ensures
        b == (contains_seq(lower@, seq!['t', 'o', 'u', 'c', 'h', 'p', 'a', 'd']) || contains_seq(
            lower@,
            seq!['t', 'r', 'a', 'c', 'k', 'p', 'a', 'd'],
        )),
{
    let touchpad = vec!['t', 'o', 'u', 'c', 'h', 'p', 'a', 'd'];
    let trackpad = vec!['t', 'r', 'a', 'c', 'k', 'p', 'a', 'd'];
    assert(touchpad@ =~= seq!['t', 'o', 'u', 'c', 'h', 'p', 'a', 'd']);
    assert(trackpad@ =~= seq!['t', 'r', 'a', 'c', 'k', 'p', 'a', 'd']);
    contains_chars(lower, &touchpad) || contains_chars(lower, &trackpad)
}

/// Whether the device name marks a touchpad (such devices are never taken as touch screens).
pub fn is_touchpad_name(name: &str) -> (b: bool)
    ensures
        b == touchpad_name(name@),
{
    let lower = lowercase_chars(name);
    names_touchpad(&lower)
}

/// Whether a device is listed as a multi-touch screen, and if so whether it is
/// a direct one: it must report multi-touch X positions and must not be named
/// as a touchpad.
pub fn classify_device(has_mt_position: bool, name: &str, bus: u16) -> (r: Option<bool>)
    ensures
        r == if has_mt_position && !touchpad_name(name@) {
            Some(direct_bus(bus))
        } else {
            None::<bool>
        },
{
    if !has_mt_position {
        return None;
    }
    if is_touchpad_name(name) {
        return None;
    }
    Some(is_direct_bus(bus))
}

/// A listed multi-touch device.
pub struct DeviceCandidate {
    pub path: String,
    pub name: String,
    pub is_direct: bool,
}

/// Picks the touch screen to open among the listed devices: the first direct
/// one if there is any, otherwise the first device; none when the list is empty.
pub fn choose_touchscreen(candidates: &Vec<DeviceCandidate>) -> (r: Option<usize>)
    ensures
        match r {
            Some(i) => {
                &&& i < candidates@.len()
                &&& (candidates@[i as int].is_direct ==> forall|j: int| 0 <= j < i ==> !candidates@[j].is_direct)
                &&& (!candidates@[i as int].is_direct ==> i == 0 && forall|j: int|
                    0 <= j < candidates@.len() ==> !candidates@[j].is_direct)
            },
            None => candidates@.len() == 0,
        },
{
    let mut i: usize = 0;
    while i < candidates.len()
        invariant
            i <= candidates@.len(),
            forall|j: int| 0 <= j < i ==> !candidates@[j].is_direct,
        decreases candidates@.len() - i,
    {
        if candidates[i].is_direct {
            return Some(i);
        }
        i = i + 1;
    }
    if candidates.len() > 0 {
        Some(0)
    } else {
        None
    }
}

/// Lifting a finger removes its contact: after a tracking id of -1 in the
/// selected, occupied slot, no slot holds that contact's tracking id any more.
pub proof fn lemma_release_removes_contact(s: TrackerState)
    requires
        s.slots.len() == MAX_SLOTS,
        distinct_ids(s.slots),
        slot_selected(s.current_slot),
        s.slots[s.current_slot as int] is Some,
    ensures
        ({
            let id = s.slots[s.current_slot as int]->0.tracking_id;
            let t = apply_event(s, TouchEvent::TrackingId(-1i32));
            forall|i: int|
                0 <= i < t.slots.len() && #[trigger] t.slots[i] is Some ==> t.slots[i]->0.tracking_id != id
        }),
{
    let c = s.current_slot as int;
    let t = apply_event(s, TouchEvent::TrackingId(-1i32));
    assert forall|i: int| 0 <= i < t.slots.len() && #[trigger] t.slots[i] is Some implies t.slots[i]->0.tracking_id
        != s.slots[c]->0.tracking_id by {
        assert(s.slots[i] == t.slots[i]);
    }
}

/// A new contact takes its tracking id for itself: after a tracking id `v`
/// (not -1) in the selected slot, that slot holds a fresh contact with id `v`
/// and no other slot holds `v`.
pub proof fn lemma_new_contact_is_unique(s: TrackerState, v: i32)
    requires
        s.slots.len() == MAX_SLOTS,
        slot_selected(s.current_slot),
        v != -1,
    ensures
        ({
            let c = s.current_slot as int;
            let t = apply_event(s, TouchEvent::TrackingId(v));
            &&& t.slots[c] == Some(SlotInfo { tracking_id: v, x: 0, y: 0, x_received: false, y_received: false, initialized: false })
            &&& forall|i: int|
                0 <= i < t.slots.len() && i != c && #[trigger] t.slots[i] is Some ==> t.slots[i]->0.tracking_id
                    != v
        }),
{
}

/// Positions update the selected contact only: a position event changes the
/// coordinate of the selected slot's contact and leaves every other slot alone.
pub proof fn lemma_position_updates_selected_slot(s: TrackerState, v: i32, i: int)
    requires
        s.slots.len() == MAX_SLOTS,
        slot_selected(s.current_slot),
        s.slots[s.current_slot as int] is Some,
        0 <= i < MAX_SLOTS,
        i != s.current_slot as int,
    ensures
        apply_event(s, TouchEvent::PositionX(v)).slots[s.current_slot as int]->0.x == v,
        apply_event(s, TouchEvent::PositionY(v)).slots[s.current_slot as int]->0.y == v,
        apply_event(s, TouchEvent::PositionX(v)).slots[i] == s.slots[i],
        apply_event(s, TouchEvent::PositionY(v)).slots[i] == s.slots[i],
{
}

/// Applying two runs of events one after the other is applying their concatenation.
pub proof fn lemma_apply_events_concat(s: TrackerState, a: Seq<TouchEvent>, b: Seq<TouchEvent>)
    ensures
        apply_events(s, a + b) == apply_events(apply_events(s, a), b),
    decreases b.len(),
{
    if b.len() == 0 {
        assert(a + b =~= a);
    } else {
        assert((a + b).drop_last() =~= a + b.drop_last());
        assert((a + b).last() == b.last());
        lemma_apply_events_concat(s, a, b.drop_last());
    }
}

proof fn lemma_first_report_shift(a: Seq<TouchEvent>, b: Seq<TouchEvent>, i: int)
    requires
        0 <= i <= a.len(),
        forall|j: int| 0 <= j < a.len() ==> !(#[trigger] a[j] is SynReport),
    ensures
        first_report_from(a + b, i) == a.len() + first_report_from(b, 0),
    decreases a.len() + b.len() - i,
{
    if i < a.len() {
        assert((a + b)[i] == a[i]);
        lemma_first_report_shift(a, b, i + 1);
    } else {
        lemma_first_report_tail(a, b, 0);
    }
}

proof fn lemma_first_report_tail(a: Seq<TouchEvent>, b: Seq<TouchEvent>, j: int)
    requires
        0 <= j <= b.len(),
    ensures
        first_report_from(a + b, a.len() + j) == a.len() + first_report_from(b, j),
    decreases b.len() - j,
{
    if j < b.len() {
        assert((a + b)[a.len() + j] == b[j]);
        lemma_first_report_tail(a, b, j + 1);
    }
}

/// How the device splits its reads does not matter: a run of events without a
/// SYN_REPORT followed by another run gives the same slots, the same frame and
/// the same leftover events as the two runs read at once.
pub proof fn lemma_split_reads_same_frame(s: TrackerState, a: Seq<TouchEvent>, b: Seq<TouchEvent>)
    requires
        forall|j: int| 0 <= j < a.len() ==> !(#[trigger] a[j] is SynReport),
    ensures
        ({
            let k = first_report_from(b, 0);
            let kab = first_report_from(a + b, 0);
            &&& first_report_from(a, 0) == a.len()
            &&& kab == a.len() + k
            &&& apply_events(s, (a + b).take(kab)) == apply_events(apply_events(s, a.take(a.len() as int)), b.take(k))
            &&& k < b.len() ==> (a + b).skip(kab + 1) == b.skip(k + 1)
        }),
{
    lemma_first_report_shift(a, b, 0);
    lemma_first_report_shift(a, Seq::<TouchEvent>::empty(), 0);
    assert(a + Seq::<TouchEvent>::empty() =~= a);
    let k = first_report_from(b, 0);
    lemma_first_report_bounds(b, 0);
    assert((a + b).take(a.len() + k) =~= a + b.take(k));
    assert(a.take(a.len() as int) =~= a);
    lemma_apply_events_concat(s, a, b.take(k));
    if k < b.len() {
        assert((a + b).skip(a.len() + k + 1) =~= b.skip(k + 1));
    }
}

proof fn lemma_first_report_bounds(evs: Seq<TouchEvent>, i: int)
    requires
        0 <= i <= evs.len(),
    ensures
        i <= first_report_from(evs, i) <= evs.len(),
    decreases evs.len() - i,
{
    if i < evs.len() && !(evs[i] is SynReport) {
        lemma_first_report_bounds(evs, i + 1);
    }
}

} // verus!
