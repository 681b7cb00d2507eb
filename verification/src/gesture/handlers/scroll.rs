//! Two-finger scroll: a short warm-up, then scrolling once the fingers have
//! moved past the threshold; a two-finger touch that never scrolled is a tap.
//!
//! The centroid arithmetic and the threshold test on it are the caller's; this
//! handler decides what a frame means.
use crate::types::{GestureEvent, GestureState, GestureType};
use vstd::prelude::*;

verus! {

/// Frames after Begin during which the reference centroid is re-taken and no
/// motion is reported, so that settling fingers do not scroll.
pub const WARMUP_FRAMES: u8 = 3;

/// The state of the scroll handler.
pub struct ScrollModel {
    pub has_moved: bool,
    pub warmup_remaining: u8,
}

/// What a frame means for the scroll gesture.
#[derive(Clone, Copy, Debug, PartialEq, Eq, Structural)]
pub enum ScrollStep {
    /// Still warming up: take this frame's centroid as the new reference; no event.
    Recenter,
    /// Not past the threshold: no event.
    Silent,
    /// Scrolling: an Update event, carrying this frame's motion.
    Scroll(GestureEvent),
}

pub open spec fn scroll_begin(s: ScrollModel) -> (ScrollModel, GestureEvent) {
    (
        ScrollModel { has_moved: false, warmup_remaining: WARMUP_FRAMES },
        GestureEvent::plain(GestureType::Scroll, 2, GestureState::Begin),
    )
}

/// A frame during the gesture; `beyond_threshold` says whether the centroid has
/// moved at least the scroll threshold from the reference on some axis.
pub open spec fn scroll_update(s: ScrollModel, beyond_threshold: bool) -> (ScrollModel, ScrollStep) {
    if s.warmup_remaining > 0 {
        (ScrollModel { warmup_remaining: (s.warmup_remaining - 1) as u8, ..s }, ScrollStep::Recenter)
    } else if !beyond_threshold {
        (s, ScrollStep::Silent)
    } else {
        (
            ScrollModel { has_moved: true, ..s },
            ScrollStep::Scroll(GestureEvent::plain(GestureType::Scroll, 2, GestureState::Update)),
        )
    }
}

/// The gesture ends: a tap (right click) if it never scrolled.
pub open spec fn scroll_end(s: ScrollModel) -> (ScrollModel, GestureEvent) {
    (
        s,
        GestureEvent {
            is_tap: !s.has_moved,
            ..GestureEvent::plain(GestureType::Scroll, 2, GestureState::End)
        },
    )
}

/// The two-finger scroll handler.
pub struct ScrollHandler {
    has_moved: bool,
    warmup_remaining: u8,
}

impl View for ScrollHandler {
    type V = ScrollModel;

    closed spec fn view(&self) -> ScrollModel {
        ScrollModel { has_moved: self.has_moved, warmup_remaining: self.warmup_remaining }
    }
}

impl ScrollHandler {
    pub fn new() -> (h: ScrollHandler)
        ensures
            h@ == (ScrollModel { has_moved: false, warmup_remaining: 0 }),
    {
        ScrollHandler { has_moved: false, warmup_remaining: 0 }
    }

    /// Two fingers land: start the warm-up.
    pub fn begin(&mut self) -> (e: GestureEvent)
        ensures
            (final(self)@, e) == scroll_begin(old(self)@),
    {
        self.has_moved = false;
        self.warmup_remaining = WARMUP_FRAMES;
        GestureEvent::new(GestureType::Scroll, 2, GestureState::Begin)
    }

    /// A frame with two fingers down.
    pub fn update(&mut self, beyond_threshold: bool) -> (step: ScrollStep)
        ensures
            (final(self)@, step) == scroll_update(old(self)@, beyond_threshold),
    {
        if self.warmup_remaining > 0 {
            self.warmup_remaining = self.warmup_remaining - 1;
            return ScrollStep::Recenter;
        }
        if !beyond_threshold {
            return ScrollStep::Silent;
        }
        self.has_moved = true;
        ScrollStep::Scroll(GestureEvent::new(GestureType::Scroll, 2, GestureState::Update))
    }

    /// The gesture ends, whether or not all fingers are up.
    pub fn end(&mut self, _all_fingers_up: bool) -> (e: GestureEvent)
        ensures
            (final(self)@, e) == scroll_end(old(self)@),
    {
        let mut event = GestureEvent::new(GestureType::Scroll, 2, GestureState::End);
        event.is_tap = !self.has_moved;
        event
    }

    /// The number of fingers this handler takes: exactly two.
    pub fn finger_range(&self) -> (r: (u8, u8))
        ensures
            r == (2u8, 2u8),
    {
        (2, 2)
    }
}

/// The first frames after Begin only re-take the reference: however far the
/// fingers move, nothing scrolls during the warm-up.
pub proof fn lemma_warmup_never_scrolls(s: ScrollModel, b1: bool, b2: bool, b3: bool)
    ensures
        ({
            let s0 = scroll_begin(s).0;
            let r1 = scroll_update(s0, b1);
            let r2 = scroll_update(r1.0, b2);
            let r3 = scroll_update(r2.0, b3);
            &&& r1.1 == ScrollStep::Recenter
            &&& r2.1 == ScrollStep::Recenter
            &&& r3.1 == ScrollStep::Recenter
            &&& r3.0.warmup_remaining == 0
            &&& !r3.0.has_moved
        }),
{
}

/// A two-finger touch that ends without having scrolled is a tap; one that
/// scrolled is not.
pub proof fn lemma_tap_iff_never_scrolled(s: ScrollModel, b: bool)
    ensures
        scroll_end(scroll_begin(s).0).1.is_tap,
        ({
            let r = scroll_update(s, b);
            r.1 is Scroll ==> !scroll_end(r.0).1.is_tap
        }),
        ({
            let r = scroll_update(s, b);
            !(r.1 is Scroll) ==> r.0.has_moved == s.has_moved
        }),
{
}

/// Once the warm-up is over, a frame scrolls exactly when the fingers are past
/// the threshold, and the event is a two-finger scroll Update; during the
/// warm-up every frame only re-takes the reference and counts down.
pub proof fn lemma_scroll_after_warmup(s: ScrollModel, b: bool)
    ensures
        ({
            let r = scroll_update(s, b);
            &&& (s.warmup_remaining == 0 ==> (r.1 is Scroll <==> b))
            &&& (r.1 matches ScrollStep::Scroll(e) ==> e.state == GestureState::Update && e.gesture_type
                == GestureType::Scroll && e.fingers == 2 && !e.is_tap)
            &&& (s.warmup_remaining > 0 ==> r.1 == ScrollStep::Recenter && r.0.warmup_remaining
                == s.warmup_remaining - 1 && r.0.has_moved == s.has_moved)
        }),
{
}

} // verus!
