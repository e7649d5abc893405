use vstd::prelude::*;
use crate::color::Color;
use crate::fraction::{
    lemma_clamp_unit_same, lemma_round_is_nearest, lemma_round_same, lemma_round_whole,
    lemma_rounds_to_one, Fraction, Ratio,
};

verus! {

/// The point `value` of the way from `start` to `end`, with `value` first
/// brought into `[0, 1]`: `start + value * (end - start)`, exactly.
pub open spec fn lerp_spec(value: Ratio, start: int, end: int) -> Ratio {
    let t = value.clamp_unit();
    Ratio { num: start * t.den + t.num * (end - start), den: t.den }
}

/// One channel of a blend: the interpolated intensity, rounded to the nearest
/// whole intensity.
pub open spec fn lerp_channel(value: Ratio, start: u8, end: u8) -> u8 {
    lerp_spec(value, start as int, end as int).round() as u8
}

/// The blend of two colours, channel by channel.
pub open spec fn lerp_color_spec(value: Ratio, start: Color, end: Color) -> Color {
    Color {
        r: lerp_channel(value, start.r, end.r),
        g: lerp_channel(value, start.g, end.g),
        b: lerp_channel(value, start.b, end.b),
    }
}

/// `color` is the blend of the two colours at `value`: each of its channels
/// is the rounding of the interpolated channel.
pub open spec fn blends_to(value: Ratio, start: Color, end: Color, color: Color) -> bool {
    &&& lerp_spec(value, start.r as int, end.r as int).rounds_to(color.r as int)
    &&& lerp_spec(value, start.g as int, end.g as int).rounds_to(color.g as int)
    &&& lerp_spec(value, start.b as int, end.b as int).rounds_to(color.b as int)
}

/// The blend of two colours is the one colour that they blend to.
pub proof fn lemma_blend_is_determined(value: Ratio, start: Color, end: Color, color: Color)
    requires
        value.wf(),
    ensures
        blends_to(value, start, end, color) <==> color == lerp_color_spec(value, start, end),
{
    lemma_lerp_channel_between(value, start.r, end.r);
    lemma_lerp_channel_between(value, start.g, end.g);
    lemma_lerp_channel_between(value, start.b, end.b);
    let r = lerp_spec(value, start.r as int, end.r as int);
    let g = lerp_spec(value, start.g as int, end.g as int);
    let b = lerp_spec(value, start.b as int, end.b as int);
    lemma_round_is_nearest(r);
    lemma_round_is_nearest(g);
    lemma_round_is_nearest(b);
    if blends_to(value, start, end, color) {
        lemma_rounds_to_one(r, color.r as int, r.round());
        lemma_rounds_to_one(g, color.g as int, g.round());
        lemma_rounds_to_one(b, color.b as int, b.round());
    }
}

/// An interpolated value lies between its two ends.
pub proof fn lemma_lerp_between(value: Ratio, start: int, end: int)
    requires
        value.wf(),
    ensures
        lerp_spec(value, start, end).wf(),
        start <= end ==> lerp_spec(value, start, end).at_least(start) && lerp_spec(
            value,
            start,
            end,
        ).at_most(end),
        end <= start ==> lerp_spec(value, start, end).at_least(end) && lerp_spec(
            value,
            start,
            end,
        ).at_most(start),
{
    let t = value.clamp_unit();
    let span = end - start;
    assert(start <= end ==> 0 <= t.num * span <= t.den * span) by (nonlinear_arith)
        requires
            0 <= t.num <= t.den,
            span == end - start,
    ;
    assert(end <= start ==> t.den * span <= t.num * span <= 0) by (nonlinear_arith)
        requires
            0 <= t.num <= t.den,
            span == end - start,
    ;
    assert(start * t.den + t.den * span == end * t.den) by (nonlinear_arith)
        requires
            span == end - start,
    ;
}

/// Rounding keeps a ratio between two whole numbers that bound it.
pub proof fn lemma_round_between(x: Ratio, lo: int, hi: int)
    requires
        x.wf(),
        x.at_least(lo),
        x.at_most(hi),
    ensures
        lo <= x.round() <= hi,
{
    lemma_round_is_nearest(x);
    let r = x.round();
    assert(lo <= r) by (nonlinear_arith)
        requires
            x.den > 0,
            x.num >= lo * x.den,
            2 * x.num - x.den <= 2 * r * x.den,
            x.num >= 0 ==> 2 * x.num - x.den < 2 * r * x.den,
            x.num <= 0 ==> r <= 0,
    ;
    assert(r <= hi) by (nonlinear_arith)
        requires
            x.den > 0,
            x.num <= hi * x.den,
            2 * r * x.den <= 2 * x.num + x.den,
            x.num < 0 ==> 2 * r * x.den < 2 * x.num + x.den,
            x.num >= 0 ==> r >= 0,
    ;
}

/// A blended channel lies between the two channels it blends, so it is an
/// intensity without any clamping of the result.
pub proof fn lemma_lerp_channel_between(value: Ratio, start: u8, end: u8)
    requires
        value.wf(),
    ensures
        lerp_channel(value, start, end) == lerp_spec(value, start as int, end as int).round(),
        start <= end ==> start <= lerp_channel(value, start, end) <= end,
        end <= start ==> end <= lerp_channel(value, start, end) <= start,
{
    lemma_lerp_between(value, start as int, end as int);
    let x = lerp_spec(value, start as int, end as int);
    if start <= end {
        lemma_round_between(x, start as int, end as int);
    } else {
        lemma_round_between(x, end as int, start as int);
    }
}

/// At zero the blend is the start colour, at one the end colour, channel for
/// channel.
pub proof fn lemma_lerp_color_endpoints(value: Ratio, start: Color, end: Color)
    requires
        value.wf(),
    ensures
        value.num == 0 ==> lerp_color_spec(value, start, end) == start,
        value.num == value.den ==> lerp_color_spec(value, start, end) == end,
{
    if value.num == 0 {
        lemma_lerp_channel_at_zero(value, start.r, end.r);
        lemma_lerp_channel_at_zero(value, start.g, end.g);
        lemma_lerp_channel_at_zero(value, start.b, end.b);
    }
    if value.num == value.den {
        lemma_lerp_channel_at_one(value, start.r, end.r);
        lemma_lerp_channel_at_one(value, start.g, end.g);
        lemma_lerp_channel_at_one(value, start.b, end.b);
    }
}

proof fn lemma_lerp_channel_at_zero(value: Ratio, start: u8, end: u8)
    requires
        value.wf(),
        value.num <= 0,
    ensures
        lerp_channel(value, start, end) == start,
{
    let t = value.clamp_unit();
    assert(t.num * (end - start) == 0) by (nonlinear_arith)
        requires
            t.num == 0,
    ;
    lemma_round_whole(start as int, value.den);
}

proof fn lemma_lerp_channel_at_one(value: Ratio, start: u8, end: u8)
    requires
        value.wf(),
        value.num >= value.den,
    ensures
        lerp_channel(value, start, end) == end,
{
    let t = value.clamp_unit();
    assert(start * t.den + t.den * (end - start) == end * t.den) by (nonlinear_arith);
    lemma_round_whole(end as int, value.den);
}

/// Below zero the blend is what it is at zero, above one what it is at one.
pub proof fn lemma_lerp_color_clamps(
    value: Ratio,
    zero: Ratio,
    one: Ratio,
    start: Color,
    end: Color,
)
    requires
        value.wf(),
        zero.wf(),
        one.wf(),
        zero.num == 0,
        one.num == one.den,
    ensures
        value.at_most(0) ==> lerp_color_spec(value, start, end) == lerp_color_spec(
            zero,
            start,
            end,
        ),
        value.at_least(1) ==> lerp_color_spec(value, start, end) == lerp_color_spec(
            one,
            start,
            end,
        ),
        lerp_color_spec(value, start, end) == lerp_color_spec(value.clamp_unit(), start, end),
{
    lemma_lerp_color_endpoints(zero, start, end);
    lemma_lerp_color_endpoints(one, start, end);
    if value.at_most(0) {
        lemma_lerp_channel_at_zero(value, start.r, end.r);
        lemma_lerp_channel_at_zero(value, start.g, end.g);
        lemma_lerp_channel_at_zero(value, start.b, end.b);
    }
    if value.at_least(1) {
        lemma_lerp_channel_at_one(value, start.r, end.r);
        lemma_lerp_channel_at_one(value, start.g, end.g);
        lemma_lerp_channel_at_one(value, start.b, end.b);
    }
}

proof fn lemma_lerp_channel_same(x: Ratio, y: Ratio, start: u8, end: u8)
    requires
        x.wf(),
        y.wf(),
        x.same(y),
    ensures
        lerp_channel(x, start, end) == lerp_channel(y, start, end),
{
    let s = start as int;
    let span = end - start;
    let a = x.clamp_unit();
    let b = y.clamp_unit();
    lemma_clamp_unit_same(x, y);
    assert((s * a.den + a.num * span) * b.den == (s * b.den + b.num * span) * a.den)
        by (nonlinear_arith)
        requires
            a.num * b.den == b.num * a.den,
    ;
    lemma_round_same(lerp_spec(x, s, end as int), lerp_spec(y, s, end as int));
}

/// The blend depends on the number alone: two fractions that write the same
/// number give the same colour.
pub proof fn lemma_lerp_color_same(x: Ratio, y: Ratio, start: Color, end: Color)
    requires
        x.wf(),
        y.wf(),
        x.same(y),
    ensures
        lerp_color_spec(x, start, end) == lerp_color_spec(y, start, end),
{
    lemma_lerp_channel_same(x, y, start.r, end.r);
    lemma_lerp_channel_same(x, y, start.g, end.g);
    lemma_lerp_channel_same(x, y, start.b, end.b);
}

/// Interpolates between two intensities: `start + value * (end - start)` with
/// `value` clamped to `[0, 1]`, as an exact fraction.
pub fn lerp(value: Fraction, start: u8, end: u8) -> (r: Fraction)
    ensures
        value@.wf(),
        r@ == lerp_spec(value@, start as int, end as int),
{
    let t = value.clamp_unit();
    let den = t.denominator();
    let part = t.numerator();
    let wide: i128 = den as i128;
    let span: i128 = end as i128 - start as i128;
    assert(-255 * wide <= part * span <= 255 * wide) by (nonlinear_arith)
        requires
            0 <= part <= wide,
            -255 <= span <= 255,
    ;
    assert(0 <= (start as i128) * wide <= 255 * wide) by (nonlinear_arith)
        requires
            0 <= start <= 255,
            wide > 0,
    ;
    Fraction::from_parts(start as i128 * wide + part * span, den)
}

fn blend_channel(value: Fraction, start: u8, end: u8) -> (c: u8)
    ensures
        value@.wf(),
        c == lerp_channel(value@, start, end),
        lerp_spec(value@, start as int, end as int).rounds_to(c as int),
{
    let exact = lerp(value, start, end);
    let nearest = exact.round();
    proof {
        lemma_lerp_channel_between(value@, start, end);
    }
    nearest as u8
}

/// Blends two colours channel by channel, each channel rounded to the nearest
/// intensity.
pub fn lerp_color(value: Fraction, start_color: &Color, end_color: &Color) -> (c: Color)
    ensures
        value@.wf(),
        c == lerp_color_spec(value@, *start_color, *end_color),
        blends_to(value@, *start_color, *end_color, c),
{
    Color::new(
        blend_channel(value, start_color.r, end_color.r),
        blend_channel(value, start_color.g, end_color.g),
        blend_channel(value, start_color.b, end_color.b),
    )
}

} // verus!
