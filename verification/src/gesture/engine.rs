//! Gesture routing: which handler a frame of touches goes to.
//!
//! The engine keeps one active handler at a time, chosen by finger count.
//! Each frame yields a plan of handler calls (End, Begin, Update); running the
//! handlers' motion arithmetic is left to the caller.
use crate::gesture::handlers::pointer::{pointer_begin, pointer_end, pointer_update, PointerModel};
use crate::gesture::handlers::scroll::{scroll_begin, scroll_end, scroll_update, ScrollModel, ScrollStep};
use crate::types::{GestureEvent, GestureState, GestureType, TouchPoint};
use vstd::prelude::*;

verus! {

/// What the router knows of a handler: the finger counts it takes and its priority.
#[derive(Clone, Copy, Debug, PartialEq, Eq, Structural)]
pub struct HandlerSpec {
    pub gesture_type: GestureType,
    pub min_fingers: u8,
    pub max_fingers: u8,
    pub priority: i32,
}

impl HandlerSpec {
    pub open spec fn accepts(self, n: u8) -> bool {
        self.min_fingers <= n <= self.max_fingers
    }

    /// The single-finger pointer handler: exactly one finger, priority 0.
    pub fn pointer() -> (h: HandlerSpec)
        ensures
            h == (HandlerSpec {
                gesture_type: GestureType::Pointer,
                min_fingers: 1,
                max_fingers: 1,
                priority: 0,
            }),
    {
        HandlerSpec { gesture_type: GestureType::Pointer, min_fingers: 1, max_fingers: 1, priority: 0 }
    }

    /// The two-finger scroll handler: exactly two fingers, priority 0.
    pub fn scroll() -> (h: HandlerSpec)
        ensures
            h == (HandlerSpec {
                gesture_type: GestureType::Scroll,
                min_fingers: 2,
                max_fingers: 2,
                priority: 0,
            }),
    {
        HandlerSpec { gesture_type: GestureType::Scroll, min_fingers: 2, max_fingers: 2, priority: 0 }
    }

    /// Whether the handler takes `n` fingers.
    pub fn finger_range_contains(&self, n: u8) -> (b: bool)
        ensures
            b == self.accepts(n),
    {
        self.min_fingers <= n && n <= self.max_fingers
    }

    /// The handler's name, for logs.
    pub fn name(&self) -> (s: &'static str)
        ensures
            self.gesture_type is Pointer ==> s@ == "Pointer"@,
            self.gesture_type is Scroll ==> s@ == "Scroll"@,
    {
        match self.gesture_type {
            GestureType::Pointer => "Pointer",
            GestureType::Scroll => "Scroll",
        }
    }
}

/// One handler call of a plan.
#[derive(Clone, Copy, Debug, PartialEq, Eq, Structural)]
pub enum RouteStep {
    /// End the gesture of this handler; the flag says whether all fingers are up.
    End(usize, bool),
    /// Start a gesture with this handler.
    Begin(usize),
    /// Feed the frame to this (already active) handler.
    Update(usize),
}

/// The router's decision state.
pub struct RouterState {
    pub active: Option<int>,
    pub was_multitouch: bool,
}

/// `i` is the handler `max_by_key` picks among those that take `n` fingers:
/// the highest priority, and the last one among equals.
pub open spec fn is_best_handler(hs: Seq<HandlerSpec>, n: u8, i: int) -> bool {
    &&& 0 <= i < hs.len()
    &&& hs[i].accepts(n)
    &&& forall|j: int| 0 <= j < hs.len() && #[trigger] hs[j].accepts(n) ==> hs[j].priority <= hs[i].priority
    &&& forall|j: int| i < j < hs.len() && #[trigger] hs[j].accepts(n) ==> hs[j].priority < hs[i].priority
}

pub open spec fn some_handler_accepts(hs: Seq<HandlerSpec>, n: u8) -> bool {
    exists|j: int| 0 <= j < hs.len() && #[trigger] hs[j].accepts(n)
}

/// The handler a gesture of `n` fingers starts with, if any takes it.
pub open spec fn best_handler(hs: Seq<HandlerSpec>, n: u8) -> Option<int> {
    if some_handler_accepts(hs, n) {
        Some(choose|i: int| is_best_handler(hs, n, i))
    } else {
        None
    }
}

/// Starting a gesture for `n` fingers: the new active handler and the Begin call.
pub open spec fn activation(hs: Seq<HandlerSpec>, n: u8) -> (Option<int>, Seq<RouteStep>) {
    match best_handler(hs, n) {
        Some(b) => (Some(b), seq![RouteStep::Begin(b as usize)]),
        None => (None, Seq::empty()),
    }
}

/// The routing decision for a frame of `n` fingers: the next state and the handler calls.
pub open spec fn route_spec(hs: Seq<HandlerSpec>, s: RouterState, n: u8) -> (RouterState, Seq<RouteStep>) {
    if n == 0 {
        // All fingers lifted: end the current gesture.
        (
            RouterState { active: None, was_multitouch: false },
            match s.active {
                Some(a) => seq![RouteStep::End(a as usize, true)],
                None => Seq::empty(),
            },
        )
    } else if s.was_multitouch {
        // Leftover fingers of a multi-finger gesture: ignored until all are lifted.
        (s, Seq::empty())
    } else {
        match s.active {
            Some(a) => {
                if !hs[a].accepts(n) {
                    let min = hs[a].min_fingers;
                    let end = seq![RouteStep::End(a as usize, false)];
                    if min >= 2 && n < min {
                        (RouterState { active: None, was_multitouch: true }, end)
                    } else {
                        let act = activation(hs, n);
                        (RouterState { active: act.0, was_multitouch: false }, end + act.1)
                    }
                } else {
                    (s, seq![RouteStep::Update(a as usize)])
                }
            },
            None => {
                let act = activation(hs, n);
                (RouterState { active: act.0, was_multitouch: false }, act.1)
            },
        }
    }
}

/// The router's handlers: the pointer handler at index 0, the scroll handler at index 1.
pub open spec fn standard_handlers() -> Seq<HandlerSpec> {
    seq![
        HandlerSpec { gesture_type: GestureType::Pointer, min_fingers: 1, max_fingers: 1, priority: 0 },
        HandlerSpec { gesture_type: GestureType::Scroll, min_fingers: 2, max_fingers: 2, priority: 0 },
    ]
}

/// The handler calls for one frame, with the previous frame that Begin and Update receive.
pub struct RoutePlan {
    pub steps: Vec<RouteStep>,
    pub prev: Vec<TouchPoint>,
}

/// Routes frames of touches to the gesture handlers.
pub struct GestureRouter {
    handlers: Vec<HandlerSpec>,
    active: Option<usize>,
    prev_touches: Vec<TouchPoint>,
    /// Set when a multi-finger gesture ended with fingers left on the panel;
    /// those fingers must not start a pointer gesture.
    was_multitouch: bool,
}

/// The finger count of a frame, as the engine counts it (modulo 256).
pub open spec fn finger_count(len: nat) -> u8 {
    (len % 256) as u8
}

fn copy_points(src: &[TouchPoint]) -> (v: Vec<TouchPoint>)
    ensures
        v@ == src@,
{
    let mut v: Vec<TouchPoint> = Vec::new();
    let mut i: usize = 0;
    while i < src.len()
        invariant
            i <= src@.len(),
            v@ == src@.subrange(0, i as int),
        decreases src@.len() - i,
    {
        v.push(src[i]);
        i = i + 1;
    }
    assert(v@ =~= src@);
    v
}

impl GestureRouter {
    pub closed spec fn handlers(&self) -> Seq<HandlerSpec> {
        self.handlers@
    }

    pub closed spec fn state(&self) -> RouterState {
        RouterState {
            active: match self.active {
                Some(a) => Some(a as int),
                None => None,
            },
            was_multitouch: self.was_multitouch,
        }
    }

    pub closed spec fn prev_touches(&self) -> Seq<TouchPoint> {
        self.prev_touches@
    }

    /// The active handler exists, and none is active while leftover fingers are ignored.
    pub open spec fn wf(&self) -> bool {
        &&& (self.state().active matches Some(a) ==> 0 <= a < self.handlers().len())
        &&& (self.state().was_multitouch ==> self.state().active is None)
    }

    /// The router with the pointer handler (index 0) and the scroll handler (index 1), idle.
    pub fn new() -> (r: GestureRouter)
        ensures
            r.wf(),
            r.handlers() == standard_handlers(),
            r.state() == (RouterState { active: None, was_multitouch: false }),
            r.prev_touches() == Seq::<TouchPoint>::empty(),
    {
        let mut handlers: Vec<HandlerSpec> = Vec::new();
        handlers.push(HandlerSpec::pointer());
        handlers.push(HandlerSpec::scroll());
        let r = GestureRouter { handlers, active: None, prev_touches: Vec::new(), was_multitouch: false };
        assert(r.handlers() =~= standard_handlers());
        r
    }

    /// The handler that is currently active, if any.
    pub fn active(&self) -> (a: Option<usize>)
        ensures
            match a {
                Some(i) => self.state().active == Some(i as int),
                None => self.state().active is None,
            },
    {
        self.active
    }

    /// The handler description at index `i`.
    pub fn handler(&self, i: usize) -> (h: HandlerSpec)
        requires
            i < self.handlers().len(),
        ensures
            h == self.handlers()[i as int],
    {
        self.handlers[i]
    }

    /// The handler that a gesture of `n` fingers starts with: among the handlers
    /// that take `n` fingers, the one of highest priority, the last among equals.
    pub fn select_handler(&self, n: u8) -> (r: Option<usize>)
        ensures
            r == match best_handler(self.handlers(), n) {
                Some(b) => Some(b as usize),
                None => None::<usize>,
            },
            r matches Some(b) ==> is_best_handler(self.handlers(), n, b as int),
            r is None <==> !some_handler_accepts(self.handlers(), n),
    {
        let ghost hs = self.handlers@;
        let mut best: Option<usize> = None;
        let mut i: usize = 0;
        while i < self.handlers.len()
            invariant
                hs == self.handlers@,
                i <= hs.len(),
                match best {
                    Some(b) => is_best_handler(hs.take(i as int), n, b as int),
                    None => !some_handler_accepts(hs.take(i as int), n),
                },
            decreases hs.len() - i,
        {
            let h = self.handlers[i];
            let ghost t = hs.take(i as int);
            let ghost t1 = hs.take(i + 1);
            assert(forall|j: int| 0 <= j < i ==> t1[j] == t[j]);
            assert(t1[i as int] == h);
            if h.finger_range_contains(n) {
                match best {
                    Some(b) => {
                        if h.priority >= self.handlers[b].priority {
                            best = Some(i);
                        }
                    },
                    None => {
                        best = Some(i);
                    },
                }
            }
            proof {
                match best {
                    Some(b) => {
                        assert forall|j: int| 0 <= j < t1.len() && #[trigger] t1[j].accepts(n)
                            implies t1[j].priority <= t1[b as int].priority by {
                            if j < i {
                                assert(t1[j] == t[j]);
                            }
                        }
                    },
                    None => {
                        assert forall|j: int| 0 <= j < t1.len() implies !(#[trigger] t1[j].accepts(n)) by {
                            if j < i {
                                assert(t1[j] == t[j]);
                            }
                        }
                    },
                }
            }
            i = i + 1;
        }
        assert(hs.take(hs.len() as int) =~= hs);
        proof {
            if let Some(b) = best {
                lemma_best_handler_unique(hs, n, b as int, choose|k: int| is_best_handler(hs, n, k));
            }
        }
        best
    }

    fn deactivate(&mut self, all_fingers_up: bool) -> (steps: Vec<RouteStep>)
        requires
            old(self).wf(),
        ensures
            final(self).active is None,
            final(self).handlers@ == old(self).handlers@,
            final(self).prev_touches@ == old(self).prev_touches@,
            final(self).was_multitouch == old(self).was_multitouch,
            steps@ == match old(self).active {
                Some(a) => seq![RouteStep::End(a, all_fingers_up)],
                None => Seq::<RouteStep>::empty(),
            },
    {
        let mut steps: Vec<RouteStep> = Vec::new();
        match self.active {
            Some(idx) => {
                steps.push(RouteStep::End(idx, all_fingers_up));
            },
            None => {},
        }
        self.active = None;
        steps
    }

    fn try_activate(&mut self, n: u8) -> (steps: Vec<RouteStep>)
        requires
            old(self).wf(),
            !old(self).was_multitouch,
            old(self).active is None,
        ensures
            final(self).wf(),
            final(self).handlers@ == old(self).handlers@,
            final(self).prev_touches@ == old(self).prev_touches@,
            final(self).was_multitouch == old(self).was_multitouch,
            final(self).state().active == activation(old(self).handlers(), n).0,
            steps@ == activation(old(self).handlers(), n).1,
    {
        let mut steps: Vec<RouteStep> = Vec::new();
        match self.select_handler(n) {
            Some(b) => {
                self.active = Some(b);
                steps.push(RouteStep::Begin(b));
                proof {
                    let c = choose|k: int| is_best_handler(self.handlers@, n, k);
                    assert(best_handler(self.handlers@, n) == Some(c));
                }
            },
            None => {},
        }
        steps
    }

    /// Routes one frame of touches.
    ///
    /// The plan lists the handler calls to make, in order, and the previous
    /// frame that Begin and Update receive; the router then remembers `touches`
    /// as the previous frame (none when the count is zero).
    pub fn route(&mut self, touches: &[TouchPoint]) -> (plan: RoutePlan)
        requires
            old(self).wf(),
        ensures
            final(self).wf(),
            final(self).handlers() == old(self).handlers(),
            ({
                let n = finger_count(touches@.len());
                let r = route_spec(old(self).handlers(), old(self).state(), n);
                &&& final(self).state() == r.0
                &&& plan.steps@ == r.1
                &&& plan.prev@ == old(self).prev_touches()
                &&& final(self).prev_touches() == if n == 0 {
                    Seq::<TouchPoint>::empty()
                } else {
                    touches@
                }
            }),
    {
        let n: u8 = (touches.len() % 256) as u8;
        let prev = copy_points(self.prev_touches.as_slice());
        if n == 0 {
            let steps = self.deactivate(true);
            self.prev_touches = Vec::new();
            self.was_multitouch = false;
            return RoutePlan { steps, prev };
        }
        if self.was_multitouch {
            self.prev_touches = copy_points(touches);
            return RoutePlan { steps: Vec::new(), prev };
        }
        match self.active {
            Some(idx) => {
                let h = self.handlers[idx];
                if !h.finger_range_contains(n) {
                    let handler_min = h.min_fingers;
                    let was_multifinger = handler_min >= 2;
                    let mut steps = self.deactivate(false);
                    if was_multifinger && n < handler_min {
                        self.was_multitouch = true;
                        self.prev_touches = copy_points(touches);
                        return RoutePlan { steps, prev };
                    }
                    let mut more = self.try_activate(n);
                    steps.append(&mut more);
                    self.prev_touches = copy_points(touches);
                    return RoutePlan { steps, prev };
                }
                let mut steps: Vec<RouteStep> = Vec::new();
                steps.push(RouteStep::Update(idx));
                self.prev_touches = copy_points(touches);
                RoutePlan { steps, prev }
            },
            None => {
                let steps = self.try_activate(n);
                self.prev_touches = copy_points(touches);
                RoutePlan { steps, prev }
            },
        }
    }
}

/// At most one handler is the best one for a finger count.
pub proof fn lemma_best_handler_unique(hs: Seq<HandlerSpec>, n: u8, i: int, j: int)
    requires
        is_best_handler(hs, n, i),
        is_best_handler(hs, n, j),
    ensures
        i == j,
{
    if i < j {
        assert(hs[j].accepts(n));
    } else if j < i {
        assert(hs[i].accepts(n));
    }
}

/// When some handler takes `n` fingers, one of them is the best.
pub proof fn lemma_best_handler_exists(hs: Seq<HandlerSpec>, n: u8)
    requires
        some_handler_accepts(hs, n),
    ensures
        exists|i: int| is_best_handler(hs, n, i),
    decreases hs.len(),
{
    let l = hs.len() - 1;
    let t = hs.drop_last();
    if some_handler_accepts(t, n) {
        lemma_best_handler_exists(t, n);
        let b = choose|i: int| is_best_handler(t, n, i);
        if hs[l].accepts(n) && hs[l].priority >= t[b].priority {
            assert forall|j: int| 0 <= j < hs.len() && #[trigger] hs[j].accepts(n) implies hs[j].priority
                <= hs[l].priority by {
                if j < l {
                    assert(hs[j] == t[j]);
                }
            }
            assert(is_best_handler(hs, n, l));
        } else {
            assert forall|j: int| 0 <= j < hs.len() && #[trigger] hs[j].accepts(n) implies hs[j].priority
                <= hs[b].priority by {
                if j < l {
                    assert(hs[j] == t[j]);
                }
            }
            assert forall|j: int| b < j < hs.len() && #[trigger] hs[j].accepts(n) implies hs[j].priority
                < hs[b].priority by {
                if j < l {
                    assert(hs[j] == t[j]);
                }
            }
            assert(hs[b] == t[b]);
            assert(is_best_handler(hs, n, b));
        }
    } else {
        let j = choose|j: int| 0 <= j < hs.len() && #[trigger] hs[j].accepts(n);
        if j < l {
            assert(hs[j] == t[j]);
            assert(t[j].accepts(n));
        }
        assert forall|k: int| 0 <= k < hs.len() && #[trigger] hs[k].accepts(n) implies hs[k].priority
            <= hs[l].priority by {
            if k < l {
                assert(hs[k] == t[k]);
                assert(t[k].accepts(n));
            }
        }
        assert(is_best_handler(hs, n, l));
    }
}

/// The router's invariant, on the model.
pub open spec fn router_state_ok(hs: Seq<HandlerSpec>, s: RouterState) -> bool {
    &&& (s.active matches Some(a) ==> 0 <= a < hs.len())
    &&& (s.was_multitouch ==> s.active is None)
}

/// Lifting every finger ends the gesture in progress (with "all fingers up"),
/// and leaves the router idle and no longer ignoring leftover fingers.
pub proof fn lemma_lift_ends_gesture(hs: Seq<HandlerSpec>, s: RouterState)
    ensures
        route_spec(hs, s, 0).0 == (RouterState { active: None, was_multitouch: false }),
        route_spec(hs, s, 0).1 == match s.active {
            Some(a) => seq![RouteStep::End(a as usize, true)],
            None => Seq::<RouteStep>::empty(),
        },
        s.active is None ==> route_spec(hs, s, 0).1.len() == 0,
{
}

/// After a frame with fingers on the panel, the active handler (if any) takes
/// that many fingers, and the router's invariant still holds.
pub proof fn lemma_active_handler_takes_count(hs: Seq<HandlerSpec>, s: RouterState, n: u8)
    requires
        router_state_ok(hs, s),
        n != 0,
    ensures
        router_state_ok(hs, route_spec(hs, s, n).0),
        route_spec(hs, s, n).0.active matches Some(b) ==> hs[b].accepts(n),
{
    if some_handler_accepts(hs, n) {
        lemma_best_handler_exists(hs, n);
    }
}

/// Once a multi-finger gesture has lost fingers below its minimum, the
/// remaining fingers are ignored until all of them are lifted.
pub proof fn lemma_leftover_fingers_ignored(hs: Seq<HandlerSpec>, s: RouterState, n: u8)
    requires
        s.was_multitouch,
        n != 0,
    ensures
        route_spec(hs, s, n) == (s, Seq::<RouteStep>::empty()),
{
}

/// Leftover fingers are ignored only after a multi-finger gesture has lost
/// fingers below its minimum: a frame that sets the flag had such a handler
/// active and fewer (but some) fingers than it needs. Adding fingers, or a
/// count no handler takes, never starts ignoring frames.
pub proof fn lemma_only_lost_fingers_are_ignored(hs: Seq<HandlerSpec>, s: RouterState, n: u8)
    ensures
        (!s.was_multitouch && route_spec(hs, s, n).0.was_multitouch) ==> (s.active matches Some(a) && hs[a].min_fingers
            >= 2 && 0 < n < hs[a].min_fingers),
{
}

/// With no gesture in progress and leftover fingers not being ignored, a frame
/// whose finger count some handler takes begins that gesture, and the router
/// never starts ignoring frames from there.
pub proof fn lemma_idle_router_begins(hs: Seq<HandlerSpec>, s: RouterState, n: u8)
    requires
        s.active is None,
        !s.was_multitouch,
        n != 0,
    ensures
        !route_spec(hs, s, n).0.was_multitouch,
        some_handler_accepts(hs, n) ==> ({
            let r = route_spec(hs, s, n);
            &&& r.0.active matches Some(b) && is_best_handler(hs, n, b)
            &&& r.1 == seq![RouteStep::Begin(r.0.active->0 as usize)]
        }),
        !some_handler_accepts(hs, n) ==> route_spec(hs, s, n) == (s, Seq::<RouteStep>::empty()),
{
    if some_handler_accepts(hs, n) {
        lemma_best_handler_exists(hs, n);
    }
}

/// Every plan is well ordered: at most two calls; an End comes first and ends
/// the handler that was active; Begin and Update go to the handler active after
/// the frame, and a Begin comes only once the previous gesture has been ended,
/// so gestures never overlap.
pub proof fn lemma_plan_shape(hs: Seq<HandlerSpec>, s: RouterState, n: u8)
    requires
        router_state_ok(hs, s),
        hs.len() <= usize::MAX,
    ensures
        ({
            let r = route_spec(hs, s, n);
            &&& r.1.len() <= 2
            &&& forall|k: int| 0 <= k < r.1.len() ==> match #[trigger] r.1[k] {
                RouteStep::End(a, _) => k == 0 && s.active == Some(a as int),
                RouteStep::Begin(b) => r.0.active == Some(b as int) && (match s.active {
                    Some(a) => k == 1 && r.1[0] == RouteStep::End(a as usize, false),
                    None => k == 0,
                }),
                RouteStep::Update(b) => r.0.active == Some(b as int) && s.active == Some(b as int),
            }
        }),
{
    if some_handler_accepts(hs, n) {
        lemma_best_handler_exists(hs, n);
    }
}

/// Routing a stream of frames with the given finger counts: the final state
/// and all handler calls, frame after frame.
pub open spec fn route_frames(hs: Seq<HandlerSpec>, s: RouterState, ns: Seq<u8>) -> (RouterState, Seq<RouteStep>)
    decreases ns.len(),
{
    if ns.len() == 0 {
        (s, Seq::empty())
    } else {
        let r = route_frames(hs, s, ns.drop_last());
        let t = route_spec(hs, r.0, ns.last());
        (t.0, r.1 + t.1)
    }
}

/// One handler call in the gesture life cycle: Begin only with no gesture
/// open, Update and End only for the open gesture. The result is the gesture
/// open afterwards, or None when the call breaks the cycle.
pub open spec fn lifecycle_step(open: Option<int>, st: RouteStep) -> Option<Option<int>> {
    match st {
        RouteStep::Begin(b) => if open is None {
            Some(Some(b as int))
        } else {
            None
        },
        RouteStep::Update(b) => if open == Some(b as int) {
            Some(open)
        } else {
            None
        },
        RouteStep::End(a, _) => if open == Some(a as int) {
            Some(None)
        } else {
            None
        },
    }
}

/// The gesture open after a run of handler calls that starts with `open`
/// open, or None when some call breaks the life cycle Begin, Update*, End.
pub open spec fn lifecycle_after(steps: Seq<RouteStep>, open: Option<int>) -> Option<Option<int>>
    decreases steps.len(),
{
    if steps.len() == 0 {
        Some(open)
    } else {
        match lifecycle_after(steps.drop_last(), open) {
            Some(o) => lifecycle_step(o, steps.last()),
            None => None,
        }
    }
}

proof fn lemma_lifecycle_concat(a: Seq<RouteStep>, b: Seq<RouteStep>, open: Option<int>)
    ensures
        lifecycle_after(a + b, open) == match lifecycle_after(a, open) {
            Some(o) => lifecycle_after(b, o),
            None => None,
        },
    decreases b.len(),
{
    if b.len() == 0 {
        assert(a + b =~= a);
    } else {
        assert((a + b).drop_last() =~= a + b.drop_last());
        assert((a + b).last() == b.last());
        lemma_lifecycle_concat(a, b.drop_last(), open);
    }
}

proof fn lemma_frame_lifecycle(hs: Seq<HandlerSpec>, s: RouterState, n: u8)
    requires
        router_state_ok(hs, s),
        hs.len() <= usize::MAX,
    ensures
        lifecycle_after(route_spec(hs, s, n).1, s.active) == Some(route_spec(hs, s, n).0.active),
        router_state_ok(hs, route_spec(hs, s, n).0),
{
    if some_handler_accepts(hs, n) {
        lemma_best_handler_exists(hs, n);
    }
    if n != 0 {
        lemma_active_handler_takes_count(hs, s, n);
    }
    let r = route_spec(hs, s, n);
    lemma_plan_shape(hs, s, n);
    if r.1.len() == 2 {
        lemma_lifecycle_two(r.1[0], r.1[1], s.active);
        assert(r.1 =~= seq![r.1[0], r.1[1]]);
    } else if r.1.len() == 1 {
        lemma_lifecycle_one(r.1[0], s.active);
        assert(r.1 =~= seq![r.1[0]]);
    } else {
        assert(r.1.len() == 0);
        assert(r.0.active == s.active);
    }
}

proof fn lemma_lifecycle_one(st: RouteStep, open: Option<int>)
    ensures
        lifecycle_after(seq![st], open) == lifecycle_step(open, st),
{
    assert(seq![st].drop_last() =~= Seq::<RouteStep>::empty());
    assert(lifecycle_after(Seq::<RouteStep>::empty(), open) == Some(open));
}

proof fn lemma_lifecycle_two(a: RouteStep, b: RouteStep, open: Option<int>)
    ensures
        lifecycle_after(seq![a, b], open) == match lifecycle_step(open, a) {
            Some(o) => lifecycle_step(o, b),
            None => None,
        },
{
    lemma_lifecycle_one(a, open);
    assert(seq![a, b].drop_last() =~= seq![a]);
}

/// The gesture life cycle holds over any stream of frames: the handler calls
/// form Begin, Update*, End, ... with at most one gesture open at a time and
/// no Update or End without an open gesture; the gesture still open at the end
/// is the active one.
pub proof fn lemma_gesture_lifecycle(hs: Seq<HandlerSpec>, s: RouterState, ns: Seq<u8>)
    requires
        router_state_ok(hs, s),
        hs.len() <= usize::MAX,
    ensures
        lifecycle_after(route_frames(hs, s, ns).1, s.active) == Some(route_frames(hs, s, ns).0.active),
        router_state_ok(hs, route_frames(hs, s, ns).0),
    decreases ns.len(),
{
    if ns.len() > 0 {
        let r = route_frames(hs, s, ns.drop_last());
        lemma_gesture_lifecycle(hs, s, ns.drop_last());
        lemma_frame_lifecycle(hs, r.0, ns.last());
        lemma_lifecycle_concat(r.1, route_spec(hs, r.0, ns.last()).1, s.active);
    }
}

/// The events a handler call must give to follow the life cycle: Begin gives
/// one Begin event, Update at most one Update event, End one End event, each
/// of the handler's gesture type and finger count.
pub open spec fn step_events_ok(hs: Seq<HandlerSpec>, st: RouteStep, evs: Seq<GestureEvent>) -> bool {
    let (i, state, many) = match st {
        RouteStep::Begin(b) => (b as int, GestureState::Begin, false),
        RouteStep::Update(b) => (b as int, GestureState::Update, true),
        RouteStep::End(a, _) => (a as int, GestureState::End, false),
    };
    &&& if many {
        evs.len() <= 1
    } else {
        evs.len() == 1
    }
    &&& forall|k: int|
        0 <= k < evs.len() ==> (#[trigger] evs[k]).state == state && evs[k].gesture_type
            == hs[i].gesture_type && evs[k].fingers == hs[i].min_fingers
}

/// The events of a run of handler calls, one after the other.
pub open spec fn flatten_events(evss: Seq<Seq<GestureEvent>>) -> Seq<GestureEvent>
    decreases evss.len(),
{
    if evss.len() == 0 {
        Seq::empty()
    } else {
        flatten_events(evss.drop_last()) + evss.last()
    }
}

/// The kind (gesture type and finger count) of the gesture open at handler `open`.
pub open spec fn open_kind(hs: Seq<HandlerSpec>, open: Option<int>) -> Option<(GestureType, u8)> {
    match open {
        Some(i) => Some((hs[i].gesture_type, hs[i].min_fingers)),
        None => None,
    }
}

/// The life cycle on events: Begin opens a gesture when none is open; Update
/// and End must match the open gesture's type and finger count; End closes it.
pub open spec fn event_lifecycle_after(evs: Seq<GestureEvent>, open: Option<(GestureType, u8)>) -> Option<
    Option<(GestureType, u8)>,
>
    decreases evs.len(),
{
    if evs.len() == 0 {
        Some(open)
    } else {
        match event_lifecycle_after(evs.drop_last(), open) {
            Some(o) => {
                let e = evs.last();
                let kind = (e.gesture_type, e.fingers);
                match e.state {
                    GestureState::Begin => if o is None {
                        Some(Some(kind))
                    } else {
                        None
                    },
                    GestureState::Update => if o == Some(kind) {
                        Some(o)
                    } else {
                        None
                    },
                    GestureState::End => if o == Some(kind) {
                        Some(None)
                    } else {
                        None
                    },
                }
            },
            None => None,
        }
    }
}

proof fn lemma_event_lifecycle_concat(a: Seq<GestureEvent>, b: Seq<GestureEvent>, open: Option<(GestureType, u8)>)
    ensures
        event_lifecycle_after(a + b, open) == match event_lifecycle_after(a, open) {
            Some(o) => event_lifecycle_after(b, o),
            None => None,
        },
    decreases b.len(),
{
    if b.len() == 0 {
        assert(a + b =~= a);
    } else {
        assert((a + b).drop_last() =~= a + b.drop_last());
        assert((a + b).last() == b.last());
        lemma_event_lifecycle_concat(a, b.drop_last(), open);
    }
}

proof fn lemma_step_events_follow(hs: Seq<HandlerSpec>, st: RouteStep, evs: Seq<GestureEvent>, o: Option<int>)
    requires
        step_events_ok(hs, st, evs),
        lifecycle_step(o, st) is Some,
    ensures
        event_lifecycle_after(evs, open_kind(hs, o)) == Some(open_kind(hs, lifecycle_step(o, st)->0)),
{
    if evs.len() == 1 {
        assert(evs.drop_last() =~= Seq::<GestureEvent>::empty());
        assert(event_lifecycle_after(evs.drop_last(), open_kind(hs, o)) == Some(open_kind(hs, o)));
        assert(evs[0] == evs.last());
    } else {
        assert(evs.len() == 0);
        assert(event_lifecycle_after(evs, open_kind(hs, o)) == Some(open_kind(hs, o)));
    }
}

/// When handler calls follow the life cycle and each call gives the events
/// the life cycle asks of it, the events in order follow the life cycle too:
/// (Begin Update* End)* (Begin Update*)?, every Update and End of the type and
/// finger count of the open Begin.
pub proof fn lemma_events_follow_lifecycle(
    hs: Seq<HandlerSpec>,
    steps: Seq<RouteStep>,
    evss: Seq<Seq<GestureEvent>>,
    open: Option<int>,
)
    requires
        lifecycle_after(steps, open) is Some,
        evss.len() == steps.len(),
        forall|k: int| 0 <= k < steps.len() ==> step_events_ok(hs, #[trigger] steps[k], evss[k]),
    ensures
        event_lifecycle_after(flatten_events(evss), open_kind(hs, open)) == Some(
            open_kind(hs, lifecycle_after(steps, open)->0),
        ),
    decreases steps.len(),
{
    if steps.len() > 0 {
        let l = steps.len() - 1;
        assert forall|k: int| 0 <= k < steps.drop_last().len() implies step_events_ok(
            hs,
            #[trigger] steps.drop_last()[k],
            evss.drop_last()[k],
        ) by {
            assert(steps.drop_last()[k] == steps[k]);
            assert(evss.drop_last()[k] == evss[k]);
        }
        lemma_events_follow_lifecycle(hs, steps.drop_last(), evss.drop_last(), open);
        let o = lifecycle_after(steps.drop_last(), open)->0;
        assert(step_events_ok(hs, steps[l], evss[l]));
        lemma_step_events_follow(hs, steps.last(), evss.last(), o);
        lemma_event_lifecycle_concat(flatten_events(evss.drop_last()), evss.last(), open_kind(hs, open));
    }
}

/// The gesture events of a whole stream of frames follow the life cycle: when
/// the router starts idle (or in any valid state) and each handler call of the
/// frames gives the events that fit it, all events in order form
/// (Begin Update* End)* (Begin Update*)?, each Update and End of the type and
/// finger count of the open Begin, and the gesture left open is the active one.
pub proof fn lemma_stream_events_lifecycle(
    hs: Seq<HandlerSpec>,
    s: RouterState,
    ns: Seq<u8>,
    evss: Seq<Seq<GestureEvent>>,
)
    requires
        router_state_ok(hs, s),
        hs.len() <= usize::MAX,
        evss.len() == route_frames(hs, s, ns).1.len(),
        forall|k: int|
            0 <= k < evss.len() ==> step_events_ok(hs, #[trigger] route_frames(hs, s, ns).1[k], evss[k]),
    ensures
        event_lifecycle_after(flatten_events(evss), open_kind(hs, s.active)) == Some(
            open_kind(hs, route_frames(hs, s, ns).0.active),
        ),
{
    lemma_gesture_lifecycle(hs, s, ns);
    lemma_events_follow_lifecycle(hs, route_frames(hs, s, ns).1, evss, s.active);
}

/// The events of a scroll step: the event when it scrolls, none otherwise.
pub open spec fn scroll_step_events(st: ScrollStep) -> Seq<GestureEvent> {
    match st {
        ScrollStep::Scroll(e) => seq![e],
        _ => Seq::empty(),
    }
}

/// The handlers give the events the life cycle asks of them: each call of the
/// pointer handler (index 0) and of the scroll handler (index 1) yields events
/// that fit the call.
pub proof fn lemma_handlers_give_lifecycle_events(
    ps: PointerModel,
    ss: ScrollModel,
    p: Option<(i32, i32)>,
    followed: bool,
    moved: bool,
    beyond: bool,
    up: bool,
    now: u64,
)
    ensures
        step_events_ok(standard_handlers(), RouteStep::Begin(0), seq![pointer_begin(ps, p, now).1]),
        step_events_ok(
            standard_handlers(),
            RouteStep::Update(0),
            match pointer_update(ps, followed, moved, now).1 {
                Some(e) => seq![e],
                None => Seq::<GestureEvent>::empty(),
            },
        ),
        step_events_ok(standard_handlers(), RouteStep::End(0, up), seq![pointer_end(ps, up, now).1]),
        step_events_ok(standard_handlers(), RouteStep::Begin(1), seq![scroll_begin(ss).1]),
        step_events_ok(standard_handlers(), RouteStep::Update(1), scroll_step_events(scroll_update(ss, beyond).1)),
        step_events_ok(standard_handlers(), RouteStep::End(1, up), seq![scroll_end(ss).1]),
{
}

} // verus!
