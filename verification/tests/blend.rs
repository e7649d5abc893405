use led_meter::blend::{lerp, lerp_color};
use led_meter::color::{red_color, white_color, Color};
use led_meter::fraction::Fraction;

fn frac(num: i128, den: u64) -> Fraction {
    Fraction::new(num, den).expect("a positive denominator")
}

#[test]
fn lerp_is_exact() {
    let r = lerp(frac(3, 10), 127, 0);
    assert_eq!((r.numerator(), r.denominator()), (889, 10));
    let r = lerp(frac(1, 4), 10, 50);
    assert_eq!((r.numerator(), r.denominator()), (80, 4));
    let r = lerp(frac(1, 3), 0, 255);
    assert_eq!((r.numerator(), r.denominator()), (255, 3));
}

#[test]
fn lerp_clamps_the_value() {
    let r = lerp(frac(-5, 1), 20, 200);
    assert_eq!((r.numerator(), r.denominator()), (20, 1));
    let r = lerp(frac(5, 1), 20, 200);
    assert_eq!((r.numerator(), r.denominator()), (200, 1));
    let r = lerp(frac(7, 2), 200, 20);
    assert_eq!((r.numerator(), r.denominator()), (40, 2));
}

#[test]
fn lerp_with_the_widest_denominator() {
    let r = lerp(frac(u64::MAX as i128, u64::MAX), 0, 255);
    assert_eq!(r.numerator(), 255 * u64::MAX as i128);
    assert_eq!(r.round(), 255);
    let r = lerp(frac(0, u64::MAX), 255, 0);
    assert_eq!(r.round(), 255);
    let r = lerp(frac(u64::MAX as i128, u64::MAX), 255, 0);
    assert_eq!(r.round(), 0);
}

#[test]
fn lerp_color_at_zero_is_the_start_colour() {
    let s = Color::new(1, 200, 77);
    let e = Color::new(250, 3, 78);
    assert_eq!(lerp_color(frac(0, 1), &s, &e), s);
    assert_eq!(lerp_color(frac(0, 977), &s, &e), s);
}

#[test]
fn lerp_color_at_one_is_the_end_colour() {
    let s = Color::new(1, 200, 77);
    let e = Color::new(250, 3, 78);
    assert_eq!(lerp_color(frac(1, 1), &s, &e), e);
    assert_eq!(lerp_color(frac(977, 977), &s, &e), e);
}

#[test]
fn lerp_color_outside_the_unit_interval_is_clamped() {
    let s = Color::new(10, 20, 30);
    let e = Color::new(200, 100, 0);
    assert_eq!(lerp_color(frac(-5, 1), &s, &e), lerp_color(frac(0, 1), &s, &e));
    assert_eq!(lerp_color(frac(5, 1), &s, &e), lerp_color(frac(1, 1), &s, &e));
    assert_eq!(lerp_color(frac(-5, 1), &s, &e), s);
    assert_eq!(lerp_color(frac(5, 1), &s, &e), e);
    assert_eq!(lerp_color(frac(-1, 1_000_000), &s, &e), s);
    assert_eq!(lerp_color(frac(1_000_001, 1_000_000), &s, &e), e);
}

#[test]
fn lerp_color_blends_each_channel() {
    let c = lerp_color(frac(1, 2), &white_color(), &red_color());
    assert_eq!(c, Color::new(127, 64, 64));
    let c = lerp_color(frac(3, 10), &white_color(), &red_color());
    assert_eq!(c, Color::new(127, 89, 89));
    let c = lerp_color(frac(7, 10), &white_color(), &red_color());
    assert_eq!(c, Color::new(127, 38, 38));
    let c = lerp_color(frac(1, 4), &Color::new(0, 100, 255), &Color::new(255, 0, 0));
    assert_eq!(c, Color::new(64, 75, 191));
}

#[test]
fn lerp_color_rounds_halves_up() {
    let c = lerp_color(frac(1, 2), &Color::new(0, 1, 2), &Color::new(1, 0, 5));
    assert_eq!(c, Color::new(1, 1, 4));
}

#[test]
fn lerp_color_goes_by_the_number_not_its_parts() {
    let s = Color::new(9, 99, 199);
    let e = Color::new(240, 140, 40);
    assert_eq!(lerp_color(frac(1, 3), &s, &e), lerp_color(frac(333, 999), &s, &e));
    assert_eq!(lerp_color(frac(1, 2), &s, &e), lerp_color(frac(500_000, 1_000_000), &s, &e));
}

#[test]
fn colours_of_the_two_ends() {
    assert_eq!(white_color(), Color::new(127, 127, 127));
    assert_eq!(red_color(), Color::new(127, 0, 0));
    let c = Color::new(1, 2, 3);
    assert_eq!((c.r, c.g, c.b), (1, 2, 3));
}
