use bettertouchscreen::debug::overlay::{
    draw_circle, pack_argb, palette_color, render_touches, BORDER_COLOR, CIRCLE_ALPHA,
};

#[test]
fn argb_packing() {
    assert_eq!(pack_argb((0x11, 0x22, 0x33, 0x44)), 0x4411_2233);
    assert_eq!(pack_argb((255, 60, 60, 200)), 0xC8FF_3C3C);
}

#[test]
fn palette_cycles() {
    assert_eq!(palette_color(0), (255, 60, 60));
    assert_eq!(palette_color(7), (255, 80, 180));
    assert_eq!(palette_color(8), (255, 60, 60));
    assert_eq!(palette_color(13), (60, 220, 220));
}

#[test]
fn circle_fill_border_and_outside() {
    let (w, h) = (60usize, 60usize);
    let mut buf = vec![7u32; w * h];
    draw_circle(&mut buf, w, h, 30, 30, 20, (1, 2, 3, 4));
    let fill = 0x0401_0203u32;
    assert_eq!(buf[30 * w + 30], fill); // centre
    assert_eq!(buf[30 * w + 50], fill); // on the radius
    assert_eq!(buf[30 * w + 52], BORDER_COLOR); // in the border ring
    assert_eq!(buf[30 * w + 53], BORDER_COLOR); // edge of the ring
    assert_eq!(buf[30 * w + 54], 7); // beyond
    assert_eq!(buf[0], 7); // corner
}

#[test]
fn circle_clipped_at_frame_edge() {
    let (w, h) = (10usize, 10usize);
    let mut buf = vec![0u32; w * h];
    draw_circle(&mut buf, w, h, 0, 0, 2, (9, 9, 9, 9));
    assert_eq!(buf[0], pack_argb((9, 9, 9, 9)));
    assert_eq!(buf[2], pack_argb((9, 9, 9, 9)));
    assert_eq!(buf[4], BORDER_COLOR);
    assert_eq!(buf[5], BORDER_COLOR);
    assert_eq!(buf[6], 0);
    // No wrap-around into the previous row from negative x.
    assert_eq!(buf[9], 0);
}

#[test]
fn render_later_touch_on_top() {
    let (w, h) = (100usize, 50usize);
    let mut buf = vec![123u32; w * h];
    render_touches(&mut buf, w, h, &[(25, 25), (40, 25)]);
    let first = {
        let (r, g, b) = palette_color(0);
        pack_argb((r, g, b, CIRCLE_ALPHA))
    };
    let second = {
        let (r, g, b) = palette_color(1);
        pack_argb((r, g, b, CIRCLE_ALPHA))
    };
    assert_eq!(buf[25 * w + 10], first);
    assert_eq!(buf[25 * w + 30], second);
    assert_eq!(buf[25 * w + 99], 0);
    assert_eq!(buf[0], 0);
}
