//! Drawing of the debug overlay: one filled, bordered circle per touch point
//! into an ARGB8888 pixel buffer. The Wayland surface and the scaling from
//! device to screen coordinates are the application's part.
use vstd::arithmetic::div_mod::{lemma_fundamental_div_mod, lemma_fundamental_div_mod_converse};
use vstd::prelude::*;

verus! {

/// Radius of a touch circle, in pixels.
pub const CIRCLE_RADIUS: i32 = 20;

/// Width of the circle's border, in pixels.
pub const CIRCLE_BORDER: i32 = 3;

/// Opacity of a circle's fill.
pub const CIRCLE_ALPHA: u8 = 200;

/// The border colour: opaque black.
pub const BORDER_COLOR: u32 = 0xFF00_0000;

/// The ARGB8888 value of a colour.
pub open spec fn argb(r: u8, g: u8, b: u8, a: u8) -> u32 {
    (a as int * 0x100_0000 + r as int * 0x1_0000 + g as int * 0x100 + b as int) as u32
}

/// Packs (r, g, b, a) into an ARGB8888 pixel.
pub fn pack_argb(color: (u8, u8, u8, u8)) -> (v: u32)
    ensures
        v == argb(color.0, color.1, color.2, color.3),
{
    let (cr, cg, cb, ca) = color;
    let r = cr as u32;
    let g = cg as u32;
    let b = cb as u32;
    let a = ca as u32;
    let v = a << 24 | r << 16 | g << 8 | b;
    assert(v == a * 0x100_0000 + r * 0x1_0000 + g * 0x100 + b) by (bit_vector)
        requires
            a < 256,
            r < 256,
            g < 256,
            b < 256,
            v == a << 24 | r << 16 | g << 8 | b,
    ;
    v
}

/// The colour of touch number `i`: eight colours, in turn.
pub open spec fn palette(i: int) -> (u8, u8, u8) {
    let k = i % 8;
    if k == 0 {
        (255, 60, 60)
    } else if k == 1 {
        (60, 180, 60)
    } else if k == 2 {
        (60, 120, 255)
    } else if k == 3 {
        (255, 200, 40)
    } else if k == 4 {
        (200, 60, 255)
    } else if k == 5 {
        (60, 220, 220)
    } else if k == 6 {
        (255, 140, 40)
    } else {
        (255, 80, 180)
    }
}

pub fn palette_color(i: usize) -> (c: (u8, u8, u8))
    ensures
        c == palette(i as int),
{
    match i % 8 {
        0 => (255, 60, 60),
        1 => (60, 180, 60),
        2 => (60, 120, 255),
        3 => (255, 200, 40),
        4 => (200, 60, 255),
        5 => (60, 220, 220),
        6 => (255, 140, 40),
        _ => (255, 80, 180),
    }
}

/// Index of pixel (px, py) in a buffer of rows `w` pixels wide.
pub open spec fn pixel_index(px: int, py: int, w: int) -> int {
    py * w + px
}

/// The offset (dx, dy) lies in the square the circle and its border are drawn in.
pub open spec fn in_square(dx: int, dy: int, outer: int) -> bool {
    -outer <= dx <= outer && -outer <= dy <= outer
}

/// A pixel after drawing the circle centred at (cx, cy): the fill inside the
/// radius, the border colour in the ring of the border's width, else unchanged.
pub open spec fn pixel_after(old: u32, px: int, py: int, cx: int, cy: int, r: int, fill: u32) -> u32 {
    let dx = px - cx;
    let dy = py - cy;
    let outer = r + CIRCLE_BORDER;
    if in_square(dx, dy, outer) && dx * dx + dy * dy <= r * r {
        fill
    } else if in_square(dx, dy, outer) && dx * dx + dy * dy <= outer * outer {
        BORDER_COLOR
    } else {
        old
    }
}

/// The buffer after drawing one circle into the `w` x `h` frame it holds
/// (pixels beyond the frame are left alone).
pub open spec fn circle_drawn(buf: Seq<u32>, w: int, h: int, cx: int, cy: int, r: int, fill: u32) -> Seq<u32> {
    Seq::new(
        buf.len(),
        |i: int|
            if w > 0 && i < w * h {
                pixel_after(buf[i], i % w, i / w, cx, cy, r, fill)
            } else {
                buf[i]
            },
    )
}

/// The circle's square stays within the coordinate type and its squared
/// distances fit.
pub open spec fn circle_fits(cx: int, cy: int, r: int) -> bool {
    let outer = r + CIRCLE_BORDER;
    &&& r <= i32::MAX - CIRCLE_BORDER
    &&& outer >= 0 ==> {
        &&& i32::MIN <= cx - outer
        &&& cx + outer <= i32::MAX
        &&& i32::MIN <= cy - outer
        &&& cy + outer <= i32::MAX
        &&& 2 * outer * outer <= i32::MAX
    }
}

/// Every pixel of the circle's square that lies in the frame has an index that
/// can be computed, and every pixel of the circle itself is in the buffer.
pub open spec fn circle_indices_ok(len: int, w: int, h: int, cx: int, cy: int, r: int) -> bool {
    let outer = r + CIRCLE_BORDER;
    forall|px: int, py: int|
        0 <= px < w && 0 <= py < h && in_square(px - cx, py - cy, outer) ==> {
            &&& #[trigger] pixel_index(px, py, w) <= usize::MAX
            &&& ((px - cx) * (px - cx) + (py - cy) * (py - cy) <= r * r || (px - cx) * (px - cx) + (py
                - cy) * (py - cy) <= outer * outer ==> pixel_index(px, py, w) < len)
        }
}

/// Pixels processed so far: rows above `row`, and in `row` the columns before `col`.
pub open spec fn processed(dx: int, dy: int, row: int, col: int) -> bool {
    dy < row || (dy == row && dx < col)
}

spec fn partially_drawn(
    buf: Seq<u32>,
    w: int,
    h: int,
    cx: int,
    cy: int,
    r: int,
    fill: u32,
    row: int,
    col: int,
) -> Seq<u32> {
    Seq::new(
        buf.len(),
        |i: int|
            if w > 0 && i < w * h && processed(i % w - cx, i / w - cy, row, col) {
                pixel_after(buf[i], i % w, i / w, cx, cy, r, fill)
            } else {
                buf[i]
            },
    )
}

/// The pixel coordinates of an index inside the frame.
proof fn lemma_index_coords(i: int, w: int, h: int)
    requires
        0 <= i < w * h,
        w > 0,
    ensures
        0 <= i % w < w,
        0 <= i / w < h,
        i == pixel_index(i % w, i / w, w),
{
    lemma_fundamental_div_mod(i, w);
    assert(0 <= i % w < w) by {
        vstd::arithmetic::div_mod::lemma_mod_bound(i, w);
    }
    assert(i / w >= 0) by {
        vstd::arithmetic::div_mod::lemma_div_pos_is_pos(i, w);
    }
    assert(i / w < h) by (nonlinear_arith)
        requires
            i == w * (i / w) + i % w,
            0 <= i % w,
            i < w * h,
            w > 0,
    ;
    assert(i == (i / w) * w + i % w) by (nonlinear_arith)
        requires
            i == w * (i / w) + i % w,
    ;
}

/// The index of a pixel inside the frame, and back.
proof fn lemma_coords_index(px: int, py: int, w: int, h: int)
    requires
        0 <= px < w,
        0 <= py < h,
    ensures
        0 <= pixel_index(px, py, w) < w * h,
        pixel_index(px, py, w) % w == px,
        pixel_index(px, py, w) / w == py,
{
    lemma_fundamental_div_mod_converse(pixel_index(px, py, w), w, py, px);
    assert(0 <= py * w + px < w * h) by (nonlinear_arith)
        requires
            0 <= px < w,
            0 <= py < h,
    ;
}

proof fn lemma_square_bound(d: int, outer: int)
    requires
        -outer <= d <= outer,
    ensures
        0 <= d * d <= outer * outer,
{
    assert(0 <= d * d <= outer * outer) by (nonlinear_arith)
        requires
            -outer <= d <= outer,
    ;
}

/// Draws a filled circle of radius `r` centred at (cx, cy), with a black
/// border `CIRCLE_BORDER` pixels wide, into the `w` x `h` frame held in `buf`
/// (row-major, `w` pixels per row). Pixels outside the frame are skipped.
pub fn draw_circle(buf: &mut [u32], w: usize, h: usize, cx: i32, cy: i32, r: i32, color: (u8, u8, u8, u8))
    requires
        w <= i32::MAX,
        h <= i32::MAX,
        circle_fits(cx as int, cy as int, r as int),
        circle_indices_ok(old(buf)@.len() as int, w as int, h as int, cx as int, cy as int, r as int),
    ensures
        final(buf)@ == circle_drawn(
            old(buf)@,
            w as int,
            h as int,
            cx as int,
            cy as int,
            r as int,
            argb(color.0, color.1, color.2, color.3),
        ),
{
    let fill = pack_argb(color);
    let border = BORDER_COLOR;
    let outer = r + CIRCLE_BORDER;
    let ghost b0 = buf@;
    let ghost (wi, hi, cxi, cyi, ri) = (w as int, h as int, cx as int, cy as int, r as int);
    if outer < 0 {
        assert(buf@ =~= circle_drawn(b0, wi, hi, cxi, cyi, ri, fill)) by {
            assert forall|i: int| 0 <= i < b0.len() implies #[trigger] circle_drawn(
                b0,
                wi,
                hi,
                cxi,
                cyi,
                ri,
                fill,
            )[i] == b0[i] by {}
        }
        return;
    }
    assert(outer <= 32767) by (nonlinear_arith)
        requires
            outer >= 0,
            2 * outer * outer <= i32::MAX,
    ;
    let mut dy: i32 = -outer;
    assert(buf@ =~= partially_drawn(b0, wi, hi, cxi, cyi, ri, fill, -outer as int, -outer as int));
    while dy <= outer
        invariant
            0 <= outer <= 32767,
            outer == r + CIRCLE_BORDER,
            -outer <= dy <= outer + 1,
            w <= i32::MAX,
            h <= i32::MAX,
            wi == w,
            hi == h,
            cxi == cx,
            cyi == cy,
            ri == r,
            fill == argb(color.0, color.1, color.2, color.3),
            border == BORDER_COLOR,
            circle_fits(cxi, cyi, ri),
            circle_indices_ok(b0.len() as int, wi, hi, cxi, cyi, ri),
            buf@.len() == b0.len(),
            buf@ == partially_drawn(b0, wi, hi, cxi, cyi, ri, fill, dy as int, -outer as int),
        decreases outer + 1 - dy,
    {
        let mut dx: i32 = -outer;
        while dx <= outer
            invariant
                0 <= outer <= 32767,
                outer == r + CIRCLE_BORDER,
                -outer <= dy <= outer,
                -outer <= dx <= outer + 1,
                w <= i32::MAX,
                h <= i32::MAX,
                wi == w,
                hi == h,
                cxi == cx,
                cyi == cy,
                ri == r,
                fill == argb(color.0, color.1, color.2, color.3),
                border == BORDER_COLOR,
                circle_fits(cxi, cyi, ri),
                circle_indices_ok(b0.len() as int, wi, hi, cxi, cyi, ri),
                buf@.len() == b0.len(),
                buf@ == partially_drawn(b0, wi, hi, cxi, cyi, ri, fill, dy as int, dx as int),
            decreases outer + 1 - dx,
        {
            let px = cx + dx;
            let py = cy + dy;
            let ghost before = buf@;
            if !(px < 0 || py < 0 || px >= w as i32 || py >= h as i32) {
                proof {
                    lemma_square_bound(dx as int, outer as int);
                    lemma_square_bound(dy as int, outer as int);
                    lemma_coords_index(px as int, py as int, wi, hi);
                    assert(pixel_index(px as int, py as int, wi) <= usize::MAX);
                }
                assert(outer * outer <= 0x3fff_ffff) by (nonlinear_arith)
                    requires
                        2 * outer * outer <= i32::MAX,
                ;
                assert(0 <= r * r <= 0x4000_0000) by (nonlinear_arith)
                    requires
                        -3 <= r <= 32767,
                ;
                let d2 = dx * dx + dy * dy;
                let idx = py as usize * w + px as usize;
                let ghost k = pixel_index(px as int, py as int, wi);
                assert(idx == k) by (nonlinear_arith)
                    requires
                        idx == (py as usize) as int * w + px as int,
                        k == py * wi + px,
                        wi == w,
                        py >= 0,
                ;
                let ghost target = partially_drawn(b0, wi, hi, cxi, cyi, ri, fill, dy as int, dx + 1);
                if d2 <= r * r {
                    buf[idx] = fill;
                } else if d2 <= outer * outer {
                    buf[idx] = border;
                }
                assert forall|i: int| 0 <= i < b0.len() implies #[trigger] buf@[i] == target[i] by {
                    if i == k {
                        assert(k % wi == px && k / wi == py);
                    } else if wi > 0 && i < wi * hi {
                        lemma_index_coords(i, wi, hi);
                        if i % wi - cxi == dx && i / wi - cyi == dy {
                            assert(i == k);
                        }
                    }
                }
                assert(buf@ =~= target);
            } else {
                let ghost target = partially_drawn(b0, wi, hi, cxi, cyi, ri, fill, dy as int, dx + 1);
                assert forall|i: int| 0 <= i < b0.len() implies #[trigger] buf@[i] == target[i] by {
                    if wi > 0 && i < wi * hi {
                        lemma_index_coords(i, wi, hi);
                    }
                }
                assert(buf@ =~= target);
            }
            dx = dx + 1;
        }
        let ghost target = partially_drawn(b0, wi, hi, cxi, cyi, ri, fill, dy + 1, -outer as int);
        assert forall|i: int| 0 <= i < b0.len() implies #[trigger] buf@[i] == target[i] by {
            if wi > 0 && i < wi * hi {
                lemma_index_coords(i, wi, hi);
            }
        }
        assert(buf@ =~= target);
        dy = dy + 1;
    }
    let ghost target = circle_drawn(b0, wi, hi, cxi, cyi, ri, fill);
    assert forall|i: int| 0 <= i < b0.len() implies #[trigger] buf@[i] == target[i] by {
        if wi > 0 && i < wi * hi {
            lemma_index_coords(i, wi, hi);
        }
    }
    assert(buf@ =~= target);
}

/// The colour a touch circle is filled with: the palette colour of its
/// position in the frame, at the overlay's opacity.
pub open spec fn touch_fill(k: int) -> u32 {
    let c = palette(k);
    argb(c.0, c.1, c.2, CIRCLE_ALPHA)
}

/// A cleared buffer with the circles of `centers` drawn in order.
pub open spec fn rendered(len: nat, w: int, h: int, centers: Seq<(i32, i32)>) -> Seq<u32>
    decreases centers.len(),
{
    if centers.len() == 0 {
        Seq::new(len, |i: int| 0u32)
    } else {
        let k = centers.len() - 1;
        circle_drawn(
            rendered(len, w, h, centers.drop_last()),
            w,
            h,
            centers[k].0 as int,
            centers[k].1 as int,
            CIRCLE_RADIUS as int,
            touch_fill(k),
        )
    }
}

/// In a buffer that holds the whole frame, every pixel of a circle is in the buffer.
proof fn lemma_full_frame_indices_ok(len: int, w: int, h: int, cx: int, cy: int, r: int)
    requires
        w >= 0,
        h >= 0,
        w * h <= len <= usize::MAX,
    ensures
        circle_indices_ok(len, w, h, cx, cy, r),
{
    assert forall|px: int, py: int|
        0 <= px < w && 0 <= py < h && in_square(px - cx, py - cy, r + CIRCLE_BORDER) implies {
        &&& #[trigger] pixel_index(px, py, w) <= usize::MAX
        &&& ((px - cx) * (px - cx) + (py - cy) * (py - cy) <= r * r || (px - cx) * (px - cx) + (py
            - cy) * (py - cy) <= (r + CIRCLE_BORDER) * (r + CIRCLE_BORDER) ==> pixel_index(px, py, w)
            < len)
    } by {
        lemma_coords_index(px, py, w, h);
    }
}

/// Clears `buf` and draws one touch circle per centre into the `w` x `h` frame
/// it holds, in order, each in the palette colour of its position.
pub fn render_touches(buf: &mut [u32], w: usize, h: usize, centers: &[(i32, i32)])
    requires
        w * h <= old(buf)@.len(),
        w <= i32::MAX,
        h <= i32::MAX,
        forall|k: int|
            0 <= k < centers@.len() ==> circle_fits(
                (#[trigger] centers@[k]).0 as int,
                centers@[k].1 as int,
                CIRCLE_RADIUS as int,
            ),
    ensures
        final(buf)@ == rendered(old(buf)@.len(), w as int, h as int, centers@),
{
    let n = buf.len();
    let mut i: usize = 0;
    while i < n
        invariant
            n == buf@.len(),
            i <= n,
            forall|j: int| 0 <= j < i ==> #[trigger] buf@[j] == 0u32,
        decreases n - i,
    {
        buf[i] = 0;
        i = i + 1;
    }
    assert(buf@ =~= rendered(n as nat, w as int, h as int, centers@.take(0)));
    let mut k: usize = 0;
    while k < centers.len()
        invariant
            n == buf@.len(),
            w * h <= n,
            w <= i32::MAX,
            h <= i32::MAX,
            k <= centers@.len(),
            forall|j: int|
                0 <= j < centers@.len() ==> circle_fits(
                    (#[trigger] centers@[j]).0 as int,
                    centers@[j].1 as int,
                    CIRCLE_RADIUS as int,
                ),
            buf@ == rendered(n as nat, w as int, h as int, centers@.take(k as int)),
        decreases centers@.len() - k,
    {
        let (cx, cy) = centers[k];
        let (r, g, b) = palette_color(k);
        proof {
            lemma_full_frame_indices_ok(n as int, w as int, h as int, cx as int, cy as int, CIRCLE_RADIUS as int);
            assert(centers@.take(k + 1).drop_last() =~= centers@.take(k as int));
            assert(centers@.take(k + 1)[k as int] == centers@[k as int]);
        }
        draw_circle(buf, w, h, cx, cy, CIRCLE_RADIUS, (r, g, b, CIRCLE_ALPHA));
        k = k + 1;
    }
    assert(centers@.take(centers@.len() as int) =~= centers@);
}

/// The touch whose circle (fill or border) covers pixel (px, py) and is drawn
/// last, or -1 when none does.
pub open spec fn last_cover(centers: Seq<(i32, i32)>, px: int, py: int) -> int
    decreases centers.len(),
{
    if centers.len() == 0 {
        -1
    } else {
        let k = centers.len() - 1;
        let dx = px - centers[k].0;
        let dy = py - centers[k].1;
        let outer = CIRCLE_RADIUS + CIRCLE_BORDER;
        if in_square(dx, dy, outer as int) && dx * dx + dy * dy <= outer * outer {
            k
        } else {
            last_cover(centers.drop_last(), px, py)
        }
    }
}

proof fn lemma_rendered_shape(len: nat, w: int, h: int, centers: Seq<(i32, i32)>, px: int, py: int)
    ensures
        rendered(len, w, h, centers).len() == len,
        -1 <= last_cover(centers, px, py) < centers.len(),
    decreases centers.len(),
{
    if centers.len() > 0 {
        lemma_rendered_shape(len, w, h, centers.drop_last(), px, py);
    }
}

/// Each pixel of the overlay shows the touch drawn last among those whose
/// circle covers it: its fill colour inside the radius, black on the border;
/// a pixel no circle covers stays clear.
pub proof fn lemma_pixel_shows_last_touch(len: nat, w: int, h: int, centers: Seq<(i32, i32)>, px: int, py: int)
    requires
        w * h <= len,
        0 <= px < w,
        0 <= py < h,
    ensures
        ({
            let k = last_cover(centers, px, py);
            let v = rendered(len, w, h, centers)[pixel_index(px, py, w)];
            if k < 0 {
                v == 0u32
            } else {
                let dx = px - centers[k].0;
                let dy = py - centers[k].1;
                v == if dx * dx + dy * dy <= CIRCLE_RADIUS * CIRCLE_RADIUS {
                    touch_fill(k)
                } else {
                    BORDER_COLOR
                }
            }
        }),
    decreases centers.len(),
{
    lemma_coords_index(px, py, w, h);
    lemma_rendered_shape(len, w, h, centers, px, py);
    let i = pixel_index(px, py, w);
    if centers.len() > 0 {
        let k = centers.len() - 1;
        lemma_rendered_shape(len, w, h, centers.drop_last(), px, py);
        lemma_pixel_shows_last_touch(len, w, h, centers.drop_last(), px, py);
        let prev = rendered(len, w, h, centers.drop_last());
        assert(rendered(len, w, h, centers)[i] == pixel_after(
            prev[i],
            px,
            py,
            centers[k].0 as int,
            centers[k].1 as int,
            CIRCLE_RADIUS as int,
            touch_fill(k),
        ));
        let lc = last_cover(centers.drop_last(), px, py);
        if lc >= 0 {
            assert(centers.drop_last()[lc] == centers[lc]);
        }
    }
}

} // verus!
