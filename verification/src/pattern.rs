use vstd::prelude::*;
use crate::blend::{
    blends_to, lemma_lerp_color_clamps, lemma_lerp_color_endpoints, lemma_lerp_color_same,
    lerp_color, lerp_color_spec,
};
use crate::color::Color;
use crate::fraction::{lemma_clamp_unit_same, Fraction, Ratio};

verus! {

/// How far LED `index` is lit when `value` fills a bar of `size` LEDs: the
/// fill position `value * size`, less the LED's index, brought into `[0, 1]`.
pub open spec fn gradient_factor(value: Ratio, size: int, index: int) -> Ratio {
    value.times(size).minus(index).clamp_unit()
}

/// The fill bar: LED `i` blends the two colours by its `gradient_factor`.
pub open spec fn gradient_colors(value: Ratio, start: Color, end: Color, size: nat) -> Seq<Color> {
    Seq::new(size, |i: int| lerp_color_spec(gradient_factor(value, size as int, i), start, end))
}

/// The uniform fill: every LED shows the one blend of the two colours.
pub open spec fn block_colors(value: Ratio, start: Color, end: Color, size: nat) -> Seq<Color> {
    Seq::new(size, |i: int| lerp_color_spec(value, start, end))
}

/// An LED wholly below the fill position shows the end colour, one wholly
/// above it the start colour; the LED that the fill position lies on is lit
/// by the part of it that is filled.
pub proof fn lemma_gradient_sides(value: Ratio, start: Color, end: Color, size: nat, i: int)
    requires
        value.wf(),
        0 <= i < size,
    ensures
        value.times(size as int).at_least(i + 1) ==> gradient_colors(value, start, end, size)[i]
            == end,
        value.times(size as int).at_most(i) ==> gradient_colors(value, start, end, size)[i]
            == start,
        value.times(size as int).at_least(i) && value.times(size as int).at_most(i + 1)
            ==> gradient_factor(value, size as int, i) == value.times(size as int).minus(i),
{
    let factor = gradient_factor(value, size as int, i);
    assert((i + 1) * value.den == i * value.den + value.den) by (nonlinear_arith);
    lemma_lerp_color_endpoints(factor, start, end);
}

/// The bar depends on the number alone: two fractions that write the same
/// number light the same bar.
pub proof fn lemma_gradient_same(x: Ratio, y: Ratio, start: Color, end: Color, size: nat)
    requires
        x.wf(),
        y.wf(),
        x.same(y),
    ensures
        gradient_colors(x, start, end, size) == gradient_colors(y, start, end, size),
{
    assert forall|i: int| 0 <= i < size implies gradient_colors(x, start, end, size)[i]
        == gradient_colors(y, start, end, size)[i] by {
        let p = x.times(size as int).minus(i);
        let q = y.times(size as int).minus(i);
        let n = size as int;
        assert((x.num * n) * y.den == (x.num * y.den) * n) by (nonlinear_arith);
        assert((y.num * n) * x.den == (y.num * x.den) * n) by (nonlinear_arith);
        assert((i * x.den) * y.den == (i * y.den) * x.den) by (nonlinear_arith);
        assert((x.num * n - i * x.den) * y.den == (x.num * n) * y.den - (i * x.den) * y.den)
            by (nonlinear_arith);
        assert((y.num * n - i * y.den) * x.den == (y.num * n) * x.den - (i * y.den) * x.den)
            by (nonlinear_arith);
        assert(p.same(q));
        lemma_clamp_unit_same(p, q);
        lemma_lerp_color_same(p.clamp_unit(), q.clamp_unit(), start, end);
    }
    assert(gradient_colors(x, start, end, size) =~= gradient_colors(y, start, end, size));
}

/// A reading of zero or less leaves the whole bar in the start colour; a
/// reading of one or more fills it with the end colour.
pub proof fn lemma_gradient_extremes(value: Ratio, start: Color, end: Color, size: nat)
    requires
        value.wf(),
    ensures
        value.at_most(0) ==> gradient_colors(value, start, end, size) == Seq::new(
            size,
            |i: int| start,
        ),
        value.at_least(1) ==> gradient_colors(value, start, end, size) == Seq::new(
            size,
            |i: int| end,
        ),
{
    let bar = gradient_colors(value, start, end, size);
    if value.at_most(0) {
        assert forall|i: int| 0 <= i < size implies bar[i] == start by {
            assert(value.num * size <= i * value.den) by (nonlinear_arith)
                requires
                    value.num <= 0,
                    value.den > 0,
                    0 <= i,
                    size >= 0,
            ;
            lemma_gradient_sides(value, start, end, size, i);
        }
        assert(bar =~= Seq::new(size, |i: int| start));
    }
    if value.at_least(1) {
        assert forall|i: int| 0 <= i < size implies bar[i] == end by {
            assert(value.num * size >= (i + 1) * value.den) by (nonlinear_arith)
                requires
                    value.num >= value.den,
                    value.den > 0,
                    0 <= i < size,
            ;
            lemma_gradient_sides(value, start, end, size, i);
        }
        assert(bar =~= Seq::new(size, |i: int| end));
    }
}

/// The block of a reading outside `[0, 1]` is the block of the nearest bound.
pub proof fn lemma_block_clamps(value: Ratio, start: Color, end: Color, size: nat)
    requires
        value.wf(),
    ensures
        block_colors(value, start, end, size) == block_colors(
            value.clamp_unit(),
            start,
            end,
            size,
        ),
{
    lemma_lerp_color_clamps(value, Ratio { num: 0, den: 1 }, Ratio { num: 1, den: 1 }, start, end);
    assert(block_colors(value, start, end, size) =~= block_colors(
        value.clamp_unit(),
        start,
        end,
        size,
    ));
}

/// Along a bar, a reading outside `[0, 1]` lights every LED as the nearest
/// bound does.
pub proof fn lemma_gradient_clamps(value: Ratio, size: int, i: int)
    requires
        value.wf(),
        0 <= i < size,
    ensures
        gradient_factor(value, size, i) == gradient_factor(value.clamp_unit(), size, i),
{
    assert(value.num < 0 ==> value.num * size - i * value.den < 0) by (nonlinear_arith)
        requires
            value.den > 0,
            0 <= i < size,
    ;
    assert(value.num > value.den ==> value.num * size - i * value.den >= value.den)
        by (nonlinear_arith)
        requires
            value.den > 0,
            0 <= i < size,
    ;
    assert(value.den * size - i * value.den >= value.den) by (nonlinear_arith)
        requires
            value.den > 0,
            0 <= i < size,
    ;
    assert(0 * size - i * value.den <= 0) by (nonlinear_arith)
        requires
            value.den > 0,
            0 <= i,
    ;
}

/// The factor of LED `index` for a reading that lies in `[0, 1]`.
fn fill_factor(unit: Fraction, size: usize, index: usize) -> (factor: Fraction)
    requires
        index < size,
        unit@.wf(),
        0 <= unit@.num <= unit@.den,
    ensures
        factor@ == gradient_factor(unit@, size as int, index as int),
{
    let den: u64 = unit.denominator();
    let part: i128 = unit.numerator();
    assert(part * size <= 0xffff_ffff_ffff_ffff * 0xffff_ffff_ffff_ffff) by (nonlinear_arith)
        requires
            0 <= part <= 0xffff_ffff_ffff_ffff,
            0 <= size <= 0xffff_ffff_ffff_ffff,
    ;
    assert(index * den <= 0xffff_ffff_ffff_ffff * 0xffff_ffff_ffff_ffff) by (nonlinear_arith)
        requires
            0 <= index <= 0xffff_ffff_ffff_ffff,
            0 <= den <= 0xffff_ffff_ffff_ffff,
    ;
    let filled: u128 = part as u128 * size as u128;
    let below: u128 = index as u128 * den as u128;
    let lit: u64 = if filled <= below {
        0
    } else if filled - below >= den as u128 {
        den
    } else {
        (filled - below) as u64
    };
    Fraction::from_parts(lit as i128, den)
}

/// Lights a bar of `size` LEDs up to the fill position `value * size`: LEDs
/// below it take the end colour, LEDs above it the start colour, and the LED
/// that it crosses a blend of the two.
pub fn generate_gradient_led_colors(
    value: Fraction,
    start_color: &Color,
    end_color: &Color,
    size: usize,
) -> (colors: Vec<Color>)
    ensures
        colors@ == gradient_colors(value@, *start_color, *end_color, size as nat),
        colors@.len() == size,
        forall|i: int|
            0 <= i < size ==> blends_to(
                gradient_factor(value@, size as int, i),
                *start_color,
                *end_color,
                #[trigger] colors@[i],
            ),
        forall|i: int|
            0 <= i < size && value@.times(size as int).at_least(i + 1) ==> #[trigger] colors@[i]
                == *end_color,
        forall|i: int|
            0 <= i < size && value@.times(size as int).at_most(i) ==> #[trigger] colors@[i]
                == *start_color,
{
    let unit = value.clamp_unit();
    let mut colors: Vec<Color> = Vec::new();
    let mut index: usize = 0;
    while index < size
        invariant
            index <= size,
            value@.wf(),
            unit@ == value@.clamp_unit(),
            colors@.len() == index,
            forall|i: int|
                0 <= i < index ==> colors@[i] == lerp_color_spec(
                    gradient_factor(value@, size as int, i),
                    *start_color,
                    *end_color,
                ),
            forall|i: int|
                0 <= i < index ==> blends_to(
                    gradient_factor(value@, size as int, i),
                    *start_color,
                    *end_color,
                    #[trigger] colors@[i],
                ),
        decreases size - index,
    {
        let factor = fill_factor(unit, size, index);
        proof {
            lemma_gradient_clamps(value@, size as int, index as int);
        }
        colors.push(lerp_color(factor, start_color, end_color));
        index += 1;
    }
    proof {
        assert(colors@ =~= gradient_colors(value@, *start_color, *end_color, size as nat));
        assert forall|i: int| 0 <= i < size implies (value@.times(size as int).at_least(i + 1)
            ==> #[trigger] colors@[i] == *end_color) && (value@.times(size as int).at_most(i)
            ==> colors@[i] == *start_color) by {
            lemma_gradient_sides(value@, *start_color, *end_color, size as nat, i);
        }
    }
    colors
}

/// Fills `size` LEDs with the one blend of the two colours at `value`.
pub fn generate_block_led_colors(
    value: Fraction,
    start_color: &Color,
    end_color: &Color,
    size: usize,
) -> (colors: Vec<Color>)
    ensures
        colors@ == block_colors(value@, *start_color, *end_color, size as nat),
        colors@.len() == size,
        forall|i: int|
            0 <= i < size ==> colors@[i] == lerp_color_spec(value@, *start_color, *end_color),
        forall|i: int|
            0 <= i < size ==> blends_to(value@, *start_color, *end_color, #[trigger] colors@[i]),
{
    let fill = lerp_color(value, start_color, end_color);
    let colors = vec![fill; size];
    assert(colors@ =~= block_colors(value@, *start_color, *end_color, size as nat));
    colors
}

} // verus!
