//! Orientation calibration: the user swipes up, then right; from the raw
//! displacement of each swipe the axis transform (swap, invert X, invert Y)
//! is worked out. Reading frames, the prompts and saving the configuration
//! are the application's part.
use crate::types::{abs, TouchPoint};
use vstd::prelude::*;

verus! {

/// A swipe must cover at least this distance (device units) to count.
pub const MIN_SWIPE_DISTANCE: i64 = 150;

/// The transform for an up swipe `up` and a right swipe `right` (raw deltas):
/// axes are swapped when the up swipe runs mostly along X and the right swipe
/// mostly along Y; each output axis is inverted when the swipe that should run
/// along it in the positive (right) or negative (up) direction does not.
pub open spec fn transform_for(up: (i64, i64), right: (i64, i64)) -> (bool, bool, bool) {
    let (ux, uy) = (up.0 as int, up.1 as int);
    let (rx, ry) = (right.0 as int, right.1 as int);
    let swap = abs(ux) > abs(uy) && abs(ry) > abs(rx);
    if swap {
        (swap, ry < 0, ux > 0)
    } else {
        (swap, rx < 0, uy > 0)
    }
}

fn abs_wide(v: i64) -> (a: i128)
    ensures
        a == abs(v as int),
{
    let w = v as i128;
    if w < 0 {
        -w
    } else {
        w
    }
}

/// Works out (swap_axes, invert_x, invert_y) from the raw deltas of an up
/// swipe and a right swipe.
pub fn compute_transform(up_delta: (i64, i64), right_delta: (i64, i64)) -> (t: (bool, bool, bool))
    ensures
        t == transform_for(up_delta, right_delta),
{
    let (ux, uy) = up_delta;
    let (rx, ry) = right_delta;
    let swap_axes = abs_wide(ux) > abs_wide(uy) && abs_wide(ry) > abs_wide(rx);
    if swap_axes {
        (swap_axes, ry < 0, ux > 0)
    } else {
        (swap_axes, rx < 0, uy > 0)
    }
}

/// A delta after the axis transform: swap first, then negate the inverted axes.
pub open spec fn transformed_delta(d: (i64, i64), t: (bool, bool, bool)) -> (int, int) {
    let x = if t.0 { d.1 as int } else { d.0 as int };
    let y = if t.0 { d.0 as int } else { d.1 as int };
    (if t.1 { -x } else { x }, if t.2 { -y } else { y })
}

/// After calibration, the right swipe runs right (non-negative X) and the up
/// swipe runs up (non-positive Y), strictly so whenever the raw component that
/// becomes that axis is not zero. When the axes are swapped, both swipes also
/// run mostly along their intended axis.
pub proof fn lemma_calibration_orients_swipes(up: (i64, i64), right: (i64, i64))
    ensures
        ({
            let t = transform_for(up, right);
            let u = transformed_delta(up, t);
            let r = transformed_delta(right, t);
            &&& r.0 >= 0
            &&& u.1 <= 0
            &&& (if t.0 { right.1 != 0 } else { right.0 != 0 }) ==> r.0 > 0
            &&& (if t.0 { up.0 != 0 } else { up.1 != 0 }) ==> u.1 < 0
            &&& t.0 ==> abs(u.1) > abs(u.0) && abs(r.0) > abs(r.1)
        }),
{
}

/// An upright screen needs no transform; one turned by 180 degrees needs both
/// axes inverted; a quarter turn needs the swap.
pub proof fn lemma_calibration_examples()
    ensures
        transform_for((5i64, -500i64), (500i64, 10i64)) == (false, false, false),
        transform_for((-10i64, 500i64), (-500i64, 5i64)) == (false, true, true),
        transform_for((500i64, 10i64), (-5i64, 500i64)) == (true, false, true),
        transform_for((-500i64, 8i64), (3i64, -500i64)) == (true, true, false),
{
}

/// The name of a transform, for the user.
pub open spec fn transform_description(swap_axes: bool, invert_x: bool, invert_y: bool) -> Seq<char> {
    if !swap_axes && !invert_x && !invert_y {
        "无旋转（原始方向）"@
    } else if !swap_axes && invert_x && !invert_y {
        "水平镜像（X 轴反转）"@
    } else if !swap_axes && !invert_x && invert_y {
        "垂直镜像（Y 轴反转）"@
    } else if !swap_axes && invert_x && invert_y {
        "180° 旋转"@
    } else if swap_axes && !invert_x && !invert_y {
        "90° 逆时针旋转"@
    } else if swap_axes && !invert_x && invert_y {
        "90° 顺时针旋转"@
    } else if swap_axes && invert_x && !invert_y {
        "90° 逆时针 + 水平镜像"@
    } else {
        "90° 顺时针 + 垂直镜像"@
    }
}

/// Describes a transform in words (Chinese, as shown to the user).
pub fn describe_transform(swap_axes: bool, invert_x: bool, invert_y: bool) -> (s: &'static str)
    ensures
        s@ == transform_description(swap_axes, invert_x, invert_y),
{
    match (swap_axes, invert_x, invert_y) {
        (false, false, false) => "无旋转（原始方向）",
        (false, true, false) => "水平镜像（X 轴反转）",
        (false, false, true) => "垂直镜像（Y 轴反转）",
        (false, true, true) => "180° 旋转",
        (true, false, false) => "90° 逆时针旋转",
        (true, false, true) => "90° 顺时针旋转",
        (true, true, false) => "90° 逆时针 + 水平镜像",
        (true, true, true) => "90° 顺时针 + 垂直镜像",
    }
}

/// A finished single-finger swipe.
#[derive(Clone, Copy, Debug)]
pub struct Swipe {
    pub start: (i32, i32),
    pub end: (i32, i32),
    pub tracking_id: i32,
}

/// Where swipe detection stands.
#[derive(Clone, Copy, Debug)]
pub enum SwipeState {
    /// No finger yet.
    WaitingForTouch,
    /// Following the finger that touched first.
    Following { start: (i32, i32), last: (i32, i32), tracking_id: i32 },
}

/// Index of the first point with the given tracking id, or the length when there is none.
pub open spec fn first_with_id(frame: Seq<TouchPoint>, id: i32, i: int) -> int
    decreases frame.len() - i,
{
    if i < 0 || i >= frame.len() {
        frame.len() as int
    } else if frame[i].tracking_id == id {
        i
    } else {
        first_with_id(frame, id, i + 1)
    }
}

/// One frame of swipe detection: the first finger down starts the swipe; it
/// is followed by its tracking id; the first frame without it ends the swipe.
pub open spec fn swipe_step(s: SwipeState, frame: Seq<TouchPoint>) -> (SwipeState, Option<Swipe>) {
    match s {
        SwipeState::WaitingForTouch => if frame.len() > 0 {
            (
                SwipeState::Following {
                    start: (frame[0].x, frame[0].y),
                    last: (frame[0].x, frame[0].y),
                    tracking_id: frame[0].tracking_id,
                },
                None,
            )
        } else {
            (s, None)
        },
        SwipeState::Following { start, last, tracking_id } => {
            let k = first_with_id(frame, tracking_id, 0);
            if k < frame.len() {
                (SwipeState::Following { start, last: (frame[k].x, frame[k].y), tracking_id }, None)
            } else {
                (SwipeState::WaitingForTouch, Some(Swipe { start, end: last, tracking_id }))
            }
        },
    }
}

/// The displacement of a swipe.
pub open spec fn swipe_delta(sw: Swipe) -> (int, int) {
    (sw.end.0 as int - sw.start.0 as int, sw.end.1 as int - sw.start.1 as int)
}

/// A swipe covers the minimum distance.
pub open spec fn long_enough(d: (int, int)) -> bool {
    d.0 * d.0 + d.1 * d.1 >= MIN_SWIPE_DISTANCE * MIN_SWIPE_DISTANCE
}

/// What a frame means for one calibration swipe.
#[derive(Clone, Copy, Debug, PartialEq, Eq, Structural)]
pub enum SwipeOutcome {
    /// The swipe is not finished.
    Pending,
    /// The swipe ended but was too short; the user is asked again.
    TooShort(i64, i64),
    /// The swipe ended with this displacement.
    Accepted(i64, i64),
}

/// One calibration swipe: detection plus the minimum-distance check.
pub struct SwipeCalibrator {
    state: SwipeState,
}

fn first_index_with_id(frame: &[TouchPoint], id: i32) -> (k: usize)
    ensures
        k as int == first_with_id(frame@, id, 0),
{
    let mut i: usize = 0;
    while i < frame.len()
        invariant
            i <= frame@.len(),
            first_with_id(frame@, id, 0) == first_with_id(frame@, id, i as int),
        decreases frame@.len() - i,
    {
        if frame[i].tracking_id == id {
            return i;
        }
        i = i + 1;
    }
    i
}

impl SwipeCalibrator {
    pub closed spec fn state(&self) -> SwipeState {
        self.state
    }

    pub fn new() -> (c: SwipeCalibrator)
        ensures
            c.state() == SwipeState::WaitingForTouch,
    {
        SwipeCalibrator { state: SwipeState::WaitingForTouch }
    }

    /// Feeds one frame of touches.
    pub fn feed(&mut self, frame: &[TouchPoint]) -> (out: SwipeOutcome)
        ensures
            ({
                let r = swipe_step(old(self).state(), frame@);
                &&& final(self).state() == r.0
                &&& match r.1 {
                    None => out == SwipeOutcome::Pending,
                    Some(sw) => {
                        let d = swipe_delta(sw);
                        if long_enough(d) {
                            out == SwipeOutcome::Accepted(d.0 as i64, d.1 as i64)
                        } else {
                            out == SwipeOutcome::TooShort(d.0 as i64, d.1 as i64)
                        }
                    },
                }
            }),
            out matches SwipeOutcome::Accepted(dx, dy) ==> long_enough((dx as int, dy as int)),
            out matches SwipeOutcome::TooShort(dx, dy) ==> !long_enough((dx as int, dy as int)),
    {
        match self.state {
            SwipeState::WaitingForTouch => {
                if frame.len() > 0 {
                    let p = frame[0];
                    self.state = SwipeState::Following { start: (p.x, p.y), last: (p.x, p.y), tracking_id: p.tracking_id };
                }
                SwipeOutcome::Pending
            },
            SwipeState::Following { start, last, tracking_id } => {
                let k = first_index_with_id(frame, tracking_id);
                if k < frame.len() {
                    let p = frame[k];
                    self.state = SwipeState::Following { start, last: (p.x, p.y), tracking_id };
                    SwipeOutcome::Pending
                } else {
                    self.state = SwipeState::WaitingForTouch;
                    let dx: i64 = last.0 as i64 - start.0 as i64;
                    let dy: i64 = last.1 as i64 - start.1 as i64;
                    let dxw = dx as i128;
                    let dyw = dy as i128;
                    assert(dxw * dxw <= 0x1_0000_0000_0000_0000 && dyw * dyw <= 0x1_0000_0000_0000_0000
                        && dxw * dxw >= 0 && dyw * dyw >= 0) by (nonlinear_arith)
                        requires
                            -0x1_0000_0000 <= dxw <= 0x1_0000_0000,
                            -0x1_0000_0000 <= dyw <= 0x1_0000_0000,
                    ;
                    let dist_sq = dxw * dxw + dyw * dyw;
                    let min = MIN_SWIPE_DISTANCE as i128;
                    if dist_sq < min * min {
                        SwipeOutcome::TooShort(dx, dy)
                    } else {
                        SwipeOutcome::Accepted(dx, dy)
                    }
                }
            },
        }
    }
}

} // verus!
