//! Shared value types: touch points, gesture kinds, gesture phases and the
//! discrete part of a gesture event.
use vstd::prelude::*;

verus! {

/// The absolute value of an integer.
pub open spec fn abs(v: int) -> int {
    if v < 0 {
        -v
    } else {
        v
    }
}

/// One finger on the panel, in raw device coordinates.
#[derive(Clone, Copy, Debug, PartialEq, Eq, Structural)]
pub struct TouchPoint {
    pub x: i32,
    pub y: i32,
    pub tracking_id: i32,
}

/// The two gestures the engine recognises.
#[derive(Clone, Copy, Debug, PartialEq, Eq, Structural)]
pub enum GestureType {
    Pointer,
    Scroll,
}

/// Life cycle of a gesture: Begin, then any number of Updates, then End.
#[derive(Clone, Copy, Debug, PartialEq, Eq, Structural)]
pub enum GestureState {
    Begin,
    Update,
    End,
}

/// The discrete part of a gesture event: what happened, with its flags.
/// The motion that goes with an Update is carried beside it by the caller.
#[derive(Clone, Copy, Debug, PartialEq, Eq, Structural)]
pub struct GestureEvent {
    pub gesture_type: GestureType,
    pub fingers: u8,
    pub state: GestureState,
    /// A two-finger touch that never moved (a right click).
    pub is_tap: bool,
    /// The single finger is dragging (left button held).
    pub is_drag: bool,
    /// The gesture was cut short by a change of finger count: no click.
    pub suppress_click: bool,
    /// The finger moved during the gesture.
    pub has_moved: bool,
}

impl GestureEvent {
    /// The plain event of the given kind: no tap, no drag, nothing suppressed, no motion.
    pub open spec fn plain(gesture_type: GestureType, fingers: u8, state: GestureState) -> GestureEvent {
        GestureEvent {
            gesture_type,
            fingers,
            state,
            is_tap: false,
            is_drag: false,
            suppress_click: false,
            has_moved: false,
        }
    }

    pub fn new(gesture_type: GestureType, fingers: u8, state: GestureState) -> (e: GestureEvent)
        ensures
            e == GestureEvent::plain(gesture_type, fingers, state),
    {
        GestureEvent {
            gesture_type,
            fingers,
            state,
            is_tap: false,
            is_drag: false,
            suppress_click: false,
            has_moved: false,
        }
    }
}

/// Where a point lands after the axis transform: first the axes are swapped,
/// then each coordinate is mirrored about its (effective) maximum.
pub open spec fn transform_point(
    p: TouchPoint,
    swap_axes: bool,
    invert_x: bool,
    invert_y: bool,
    max_x: int,
    max_y: int,
) -> (int, int) {
    let x: int = if swap_axes { p.y as int } else { p.x as int };
    let y: int = if swap_axes { p.x as int } else { p.y as int };
    (if invert_x { max_x - x } else { x }, if invert_y { max_y - y } else { y })
}

/// The transformed coordinates of `p` fit in the coordinate type.
pub open spec fn transform_fits(
    p: TouchPoint,
    swap_axes: bool,
    invert_x: bool,
    invert_y: bool,
    max_x: int,
    max_y: int,
) -> bool {
    let t = transform_point(p, swap_axes, invert_x, invert_y, max_x, max_y);
    i32::MIN <= t.0 <= i32::MAX && i32::MIN <= t.1 <= i32::MAX
}

/// Applies the axis transform to the absolute position of every touch point.
///
/// `max_x` / `max_y` are the effective maxima after the swap: when
/// `swap_axes` is set the caller passes the swapped pair.
pub fn transform_touch_coords(
    touches: &mut [TouchPoint],
    swap_axes: bool,
    invert_x: bool,
    invert_y: bool,
    max_x: i32,
    max_y: i32,
)
    requires
        forall|i: int|
            0 <= i < old(touches)@.len() ==> transform_fits(
                #[trigger] old(touches)@[i],
                swap_axes,
                invert_x,
                invert_y,
                max_x as int,
                max_y as int,
            ),
    ensures
        final(touches)@.len() == old(touches)@.len(),
        forall|i: int|
            0 <= i < final(touches)@.len() ==> {
                let t = transform_point(
                    old(touches)@[i],
                    swap_axes,
                    invert_x,
                    invert_y,
                    max_x as int,
                    max_y as int,
                );
                &&& (#[trigger] final(touches)@[i]).x as int == t.0
                &&& final(touches)@[i].y as int == t.1
                &&& final(touches)@[i].tracking_id == old(touches)@[i].tracking_id
            },
{
    let n = touches.len();
    let mut i: usize = 0;
    while i < n
        invariant
            n == touches@.len(),
            n == old(touches)@.len(),
            i <= n,
            forall|k: int|
                0 <= k < n ==> transform_fits(
                    #[trigger] old(touches)@[k],
                    swap_axes,
                    invert_x,
                    invert_y,
                    max_x as int,
                    max_y as int,
                ),
            forall|k: int| i <= k < n ==> #[trigger] touches@[k] == old(touches)@[k],
            forall|k: int|
                0 <= k < i ==> {
                    let t = transform_point(
                        old(touches)@[k],
                        swap_axes,
                        invert_x,
                        invert_y,
                        max_x as int,
                        max_y as int,
                    );
                    &&& (#[trigger] touches@[k]).x as int == t.0
                    &&& touches@[k].y as int == t.1
                    &&& touches@[k].tracking_id == old(touches)@[k].tracking_id
                },
        decreases n - i,
    {
        let p = touches[i];
        assert(transform_fits(old(touches)@[i as int], swap_axes, invert_x, invert_y, max_x as int, max_y as int));
        let mut x: i32 = if swap_axes { p.y } else { p.x };
        let mut y: i32 = if swap_axes { p.x } else { p.y };
        if invert_x {
            x = max_x - x;
        }
        if invert_y {
            y = max_y - y;
        }
        touches[i] = TouchPoint { x, y, tracking_id: p.tracking_id };
        i = i + 1;
    }
}

/// Mirroring without a swap undoes itself: transforming the transformed point
/// with the same flags and maxima gives back the original position.
pub proof fn lemma_mirror_is_involution(
    p: TouchPoint,
    invert_x: bool,
    invert_y: bool,
    max_x: int,
    max_y: int,
)
    requires
        transform_fits(p, false, invert_x, invert_y, max_x, max_y),
    ensures
        ({
            let t = transform_point(p, false, invert_x, invert_y, max_x, max_y);
            let q = TouchPoint { x: t.0 as i32, y: t.1 as i32, tracking_id: p.tracking_id };
            transform_point(q, false, invert_x, invert_y, max_x, max_y) == (p.x as int, p.y as int)
        }),
{
}

/// A 180 degree turn (both axes mirrored) is the same as mirroring X and then mirroring Y.
pub proof fn lemma_half_turn_is_two_mirrors(p: TouchPoint, max_x: int, max_y: int)
    requires
        transform_fits(p, false, true, false, max_x, max_y),
    ensures
        ({
            let t = transform_point(p, false, true, false, max_x, max_y);
            let q = TouchPoint { x: t.0 as i32, y: t.1 as i32, tracking_id: p.tracking_id };
            transform_point(q, false, false, true, max_x, max_y) == transform_point(
                p,
                false,
                true,
                true,
                max_x,
                max_y,
            )
        }),
{
}

} // verus!
