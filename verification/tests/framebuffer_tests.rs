use softraster::fixed::{HALF, ONE};
use softraster::framebuffer::{to_byte, to_color, Color, Depth, Framebuffer};
use softraster::vector::Vector3;

fn fx(v: f64) -> i32 {
    (v * 65536.0).round() as i32
}

fn rgb(r: f64, g: f64, b: f64) -> Vector3 {
    Vector3::new(fx(r), fx(g), fx(b))
}

fn pixel(fb: &Framebuffer, x: u32, y: u32) -> Color {
    fb.pixels()[(y * fb.width() + x) as usize]
}

fn depth(fb: &Framebuffer, x: u32, y: u32) -> Depth {
    fb.depths()[(y * fb.width() + x) as usize]
}

const BLACK: Color = Color { r: 0, g: 0, b: 0, a: 255 };

#[test]
fn new_framebuffer_is_black_and_infinitely_far() {
    let fb = Framebuffer::new(4, 3);
    assert_eq!(fb.width(), 4);
    assert_eq!(fb.height(), 3);
    assert_eq!(fb.background_color(), Vector3::new(0, 0, 0));
    assert_eq!(fb.pixels().len(), 12);
    assert_eq!(fb.depths().len(), 12);
    assert!(fb.pixels().iter().all(|c| *c == BLACK));
    assert!(fb.depths().iter().all(|d| *d == Depth::Infinity));
}

#[test]
fn new_framebuffer_may_be_empty() {
    let fb = Framebuffer::new(0, 7);
    assert_eq!(fb.pixels().len(), 0);
    assert_eq!(fb.depths().len(), 0);
}

#[test]
fn channel_bytes_are_clamped_and_scaled() {
    assert_eq!(to_byte(0), 0);
    assert_eq!(to_byte(-1), 0);
    assert_eq!(to_byte(i32::MIN), 0);
    assert_eq!(to_byte(ONE), 255);
    assert_eq!(to_byte(ONE + 1), 255);
    assert_eq!(to_byte(i32::MAX), 255);
    assert_eq!(to_byte(ONE - 1), 254);
    assert_eq!(to_byte(HALF), 127);
    assert_eq!(to_byte(1), 0);
    assert_eq!(to_byte(257), 0);
    assert_eq!(to_byte(258), 1);
    assert_eq!(to_byte(fx(0.2)), 50);
    assert_eq!(to_byte(fx(0.4)), 101);
    assert_eq!(to_byte(fx(0.6)), 153);
}

#[test]
fn channel_bytes_match_the_floating_formula() {
    let mut raw = 0;
    while raw <= ONE {
        let expected = ((raw as f64 / 65536.0).clamp(0.0, 1.0) * 255.0) as u8;
        assert_eq!(to_byte(raw), expected, "raw {}", raw);
        raw += 97;
    }
}

#[test]
fn to_color_converts_each_channel() {
    assert_eq!(to_color(rgb(1.0, 0.5, -3.0)), Color { r: 255, g: 127, b: 0, a: 255 });
    assert_eq!(to_color(rgb(2.0, 0.0, 0.25)), Color { r: 255, g: 0, b: 63, a: 255 });
}

#[test]
fn point_writes_colour_and_depth() {
    let mut fb = Framebuffer::new(4, 3);
    fb.point(2, 1, rgb(1.0, 0.5, 0.0), Depth::Finite(fx(3.0)));
    assert_eq!(pixel(&fb, 2, 1), Color { r: 255, g: 127, b: 0, a: 255 });
    assert_eq!(depth(&fb, 2, 1), Depth::Finite(fx(3.0)));
    for y in 0..3 {
        for x in 0..4 {
            if (x, y) != (2, 1) {
                assert_eq!(pixel(&fb, x, y), BLACK);
                assert_eq!(depth(&fb, x, y), Depth::Infinity);
            }
        }
    }
}

#[test]
fn point_uses_row_major_index() {
    let mut fb = Framebuffer::new(4, 3);
    fb.point(3, 2, rgb(1.0, 1.0, 1.0), Depth::Finite(0));
    assert_eq!(fb.pixels()[11], Color { r: 255, g: 255, b: 255, a: 255 });
    fb.point(0, 1, rgb(1.0, 0.0, 0.0), Depth::Finite(0));
    assert_eq!(fb.pixels()[4], Color { r: 255, g: 0, b: 0, a: 255 });
}

#[test]
fn closer_fragment_wins_in_either_order() {
    let near = (rgb(1.0, 0.0, 0.0), Depth::Finite(fx(1.0)));
    let far = (rgb(0.0, 0.0, 1.0), Depth::Finite(fx(2.0)));

    let mut a = Framebuffer::new(2, 2);
    a.point(1, 1, near.0, near.1);
    a.point(1, 1, far.0, far.1);

    let mut b = Framebuffer::new(2, 2);
    b.point(1, 1, far.0, far.1);
    b.point(1, 1, near.0, near.1);

    assert_eq!(a.pixels(), b.pixels());
    assert_eq!(a.depths(), b.depths());
    assert_eq!(pixel(&a, 1, 1), Color { r: 255, g: 0, b: 0, a: 255 });
    assert_eq!(depth(&a, 1, 1), Depth::Finite(fx(1.0)));
}

#[test]
fn farther_fragment_is_discarded() {
    let mut fb = Framebuffer::new(2, 2);
    fb.point(0, 0, rgb(0.0, 1.0, 0.0), Depth::Finite(-5));
    fb.point(0, 0, rgb(1.0, 1.0, 1.0), Depth::Finite(-4));
    assert_eq!(pixel(&fb, 0, 0), Color { r: 0, g: 255, b: 0, a: 255 });
    assert_eq!(depth(&fb, 0, 0), Depth::Finite(-5));
}

#[test]
fn equal_depth_keeps_the_first_fragment() {
    let mut fb = Framebuffer::new(2, 2);
    fb.point(0, 1, rgb(0.0, 1.0, 0.0), Depth::Finite(7));
    fb.point(0, 1, rgb(1.0, 0.0, 0.0), Depth::Finite(7));
    assert_eq!(pixel(&fb, 0, 1), Color { r: 0, g: 255, b: 0, a: 255 });
    assert_eq!(depth(&fb, 0, 1), Depth::Finite(7));
}

#[test]
fn writes_to_different_pixels_commute() {
    let mut a = Framebuffer::new(3, 3);
    a.point(0, 2, rgb(1.0, 0.0, 0.0), Depth::Finite(1));
    a.point(2, 0, rgb(0.0, 1.0, 0.0), Depth::Finite(1));
    let mut b = Framebuffer::new(3, 3);
    b.point(2, 0, rgb(0.0, 1.0, 0.0), Depth::Finite(1));
    b.point(0, 2, rgb(1.0, 0.0, 0.0), Depth::Finite(1));
    assert_eq!(a.pixels(), b.pixels());
    assert_eq!(a.depths(), b.depths());
}

#[test]
fn out_of_bounds_points_change_nothing() {
    let mut fb = Framebuffer::new(4, 3);
    fb.point(1, 1, rgb(0.3, 0.3, 0.3), Depth::Finite(9));
    let pixels = fb.pixels().clone();
    let depths = fb.depths().clone();
    let white = rgb(1.0, 1.0, 1.0);
    for (x, y) in [
        (-1, 0),
        (0, -1),
        (4, 0),
        (0, 3),
        (-1, -1),
        (4, 3),
        (i32::MIN, 1),
        (i32::MAX, 1),
        (1, i32::MIN),
        (1, i32::MAX),
    ] {
        fb.point(x, y, white, Depth::Finite(i32::MIN));
        assert_eq!(fb.pixels(), &pixels);
        assert_eq!(fb.depths(), &depths);
    }
}

#[test]
fn depths_that_are_not_numbers_change_nothing() {
    let mut fb = Framebuffer::new(4, 3);
    fb.point(1, 1, rgb(0.3, 0.3, 0.3), Depth::Finite(9));
    let pixels = fb.pixels().clone();
    let depths = fb.depths().clone();
    for d in [Depth::Infinity, Depth::NegInfinity, Depth::NotANumber] {
        fb.point(1, 1, rgb(1.0, 1.0, 1.0), d);
        fb.point(2, 2, rgb(1.0, 1.0, 1.0), d);
        assert_eq!(fb.pixels(), &pixels);
        assert_eq!(fb.depths(), &depths);
    }
}

#[test]
fn depth_order_follows_the_extended_numbers() {
    let one = Depth::Finite(1);
    let two = Depth::Finite(2);
    assert!(one.is_closer_than(&two));
    assert!(!two.is_closer_than(&one));
    assert!(!one.is_closer_than(&one));
    assert!(one.is_closer_than(&Depth::Infinity));
    assert!(!Depth::Infinity.is_closer_than(&one));
    assert!(!Depth::Infinity.is_closer_than(&Depth::Infinity));
    assert!(Depth::NegInfinity.is_closer_than(&one));
    assert!(Depth::NegInfinity.is_closer_than(&Depth::Infinity));
    assert!(!Depth::NegInfinity.is_closer_than(&Depth::NegInfinity));
    assert!(!one.is_closer_than(&Depth::NegInfinity));
    assert!(!Depth::NotANumber.is_closer_than(&one));
    assert!(!one.is_closer_than(&Depth::NotANumber));
    assert!(!Depth::NotANumber.is_closer_than(&Depth::NotANumber));
    assert!(one.is_finite());
    assert!(!Depth::Infinity.is_finite());
    assert!(!Depth::NegInfinity.is_finite());
    assert!(!Depth::NotANumber.is_finite());
}

#[test]
fn set_background_color_leaves_the_buffers() {
    let mut fb = Framebuffer::new(3, 2);
    fb.point(1, 0, rgb(1.0, 1.0, 1.0), Depth::Finite(3));
    let pixels = fb.pixels().clone();
    let depths = fb.depths().clone();
    fb.set_background_color(rgb(0.01, 0.01, 0.03));
    assert_eq!(fb.background_color(), rgb(0.01, 0.01, 0.03));
    assert_eq!(fb.pixels(), &pixels);
    assert_eq!(fb.depths(), &depths);
}

#[test]
fn clear_fills_with_background_and_infinity() {
    let mut fb = Framebuffer::new(3, 2);
    fb.set_background_color(rgb(0.2, 0.4, 0.6));
    fb.point(1, 0, rgb(1.0, 1.0, 1.0), Depth::Finite(3));
    fb.point(2, 1, rgb(1.0, 0.0, 1.0), Depth::Finite(-3));
    fb.clear();
    assert_eq!(fb.pixels().len(), 6);
    assert!(fb.pixels().iter().all(|c| *c == Color { r: 50, g: 101, b: 153, a: 255 }));
    assert!(fb.depths().iter().all(|d| *d == Depth::Infinity));
    assert_eq!(fb.width(), 3);
    assert_eq!(fb.height(), 2);
    assert_eq!(fb.background_color(), rgb(0.2, 0.4, 0.6));
}

#[test]
fn clear_twice_is_clear_once() {
    let mut once = Framebuffer::new(5, 4);
    once.set_background_color(rgb(0.9, 0.1, 0.5));
    once.point(3, 3, rgb(0.0, 0.0, 0.0), Depth::Finite(1));
    once.clear();
    let pixels = once.pixels().clone();
    let depths = once.depths().clone();
    once.clear();
    assert_eq!(once.pixels(), &pixels);
    assert_eq!(once.depths(), &depths);
}

#[test]
fn cleared_buffer_accepts_any_finite_depth() {
    let mut fb = Framebuffer::new(2, 1);
    fb.point(0, 0, rgb(1.0, 1.0, 1.0), Depth::Finite(1));
    fb.clear();
    fb.point(0, 0, rgb(1.0, 0.0, 0.0), Depth::Finite(i32::MAX));
    assert_eq!(pixel(&fb, 0, 0), Color { r: 255, g: 0, b: 0, a: 255 });
    assert_eq!(depth(&fb, 0, 0), Depth::Finite(i32::MAX));
}
