use led_meter::blend::lerp_color;
use led_meter::color::{red_color, white_color, Color};
use led_meter::fraction::Fraction;
use led_meter::pattern::{generate_block_led_colors, generate_gradient_led_colors};

fn frac(num: i128, den: u64) -> Fraction {
    Fraction::new(num, den).expect("a positive denominator")
}

#[test]
fn gradient_of_one_half_over_five_leds() {
    let s = Color::new(0, 0, 255);
    let e = Color::new(255, 0, 0);
    let colors = generate_gradient_led_colors(frac(1, 2), &s, &e, 5);
    assert_eq!(colors.len(), 5);
    assert_eq!(colors[0], e);
    assert_eq!(colors[1], e);
    assert_eq!(colors[2], lerp_color(frac(1, 2), &s, &e));
    assert_eq!(colors[2], Color::new(128, 0, 128));
    assert_eq!(colors[3], s);
    assert_eq!(colors[4], s);
}

#[test]
fn gradient_at_zero_is_all_start_colour() {
    let colors = generate_gradient_led_colors(frac(0, 1), &white_color(), &red_color(), 7);
    assert_eq!(colors, vec![white_color(); 7]);
    let colors = generate_gradient_led_colors(frac(-3, 2), &white_color(), &red_color(), 7);
    assert_eq!(colors, vec![white_color(); 7]);
}

#[test]
fn gradient_at_one_is_all_end_colour() {
    let colors = generate_gradient_led_colors(frac(1, 1), &white_color(), &red_color(), 7);
    assert_eq!(colors, vec![red_color(); 7]);
    let colors = generate_gradient_led_colors(frac(9, 2), &white_color(), &red_color(), 7);
    assert_eq!(colors, vec![red_color(); 7]);
}

#[test]
fn gradient_blends_the_led_at_the_fill_position() {
    let colors = generate_gradient_led_colors(frac(3, 10), &white_color(), &red_color(), 4);
    // The fill position is 1.2: LED 0 is full, LED 1 is lit by 0.2.
    assert_eq!(
        colors,
        vec![red_color(), Color::new(127, 102, 102), white_color(), white_color()]
    );
}

#[test]
fn gradient_over_no_leds_is_empty() {
    let colors = generate_gradient_led_colors(frac(1, 2), &white_color(), &red_color(), 0);
    assert!(colors.is_empty());
}

#[test]
fn gradient_with_wide_parts() {
    let value = frac((u64::MAX / 2) as i128, u64::MAX);
    let colors = generate_gradient_led_colors(value, &white_color(), &red_color(), 4);
    assert_eq!(colors[0], red_color());
    assert_eq!(colors[1], red_color());
    assert_eq!(colors[2], white_color());
    assert_eq!(colors[3], white_color());
}

#[test]
fn block_repeats_one_blend() {
    let s = Color::new(10, 20, 30);
    let e = Color::new(110, 220, 130);
    for n in [0usize, 1, 2, 8, 33] {
        for (num, den) in [(0i128, 1u64), (1, 3), (1, 2), (9, 10), (1, 1), (-4, 1), (4, 1)] {
            let colors = generate_block_led_colors(frac(num, den), &s, &e, n);
            assert_eq!(colors.len(), n);
            let blend = lerp_color(frac(num, den), &s, &e);
            for c in &colors {
                assert_eq!(*c, blend);
            }
        }
    }
}

#[test]
fn block_of_three_tenths() {
    let colors = generate_block_led_colors(frac(3, 10), &white_color(), &red_color(), 3);
    assert_eq!(colors, vec![Color::new(127, 89, 89); 3]);
}
