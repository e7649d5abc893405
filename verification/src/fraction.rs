use vstd::prelude::*;
use vstd::arithmetic::div_mod::lemma_fundamental_div_mod_converse;

verus! {

/// The rational number `num / den`: the mathematical value of a reading.
///
/// Two ratios with different parts may be the same number; `same` decides it.
pub struct Ratio {
    pub num: int,
    pub den: int,
}

impl Ratio {
    /// A ratio is a number only with a positive denominator.
    pub open spec fn wf(self) -> bool {
        self.den > 0
    }

    /// `self` and `other` are the same number.
    pub open spec fn same(self, other: Ratio) -> bool {
        self.num * other.den == other.num * self.den
    }

    /// `self <= n` for a whole number `n`.
    pub open spec fn at_most(self, n: int) -> bool {
        self.num <= n * self.den
    }

    /// `self >= n` for a whole number `n`.
    pub open spec fn at_least(self, n: int) -> bool {
        self.num >= n * self.den
    }

    /// The nearest number in `[0, 1]`.
    pub open spec fn clamp_unit(self) -> Ratio {
        Ratio {
            num: if self.num < 0 {
                0
            } else if self.num > self.den {
                self.den
            } else {
                self.num
            },
            den: self.den,
        }
    }

    /// `self * n`.
    pub open spec fn times(self, n: int) -> Ratio {
        Ratio { num: self.num * n, den: self.den }
    }

    /// `self - n`.
    pub open spec fn minus(self, n: int) -> Ratio {
        Ratio { num: self.num - n * self.den, den: self.den }
    }

    /// `r` is the whole number nearest to `self`, and where two are equally
    /// near, the one farther from zero: `self - 1/2 < r <= self + 1/2` from
    /// zero upwards, `self - 1/2 <= r < self + 1/2` below zero.
    pub open spec fn rounds_to(self, r: int) -> bool {
        if self.num >= 0 {
            2 * self.num - self.den < 2 * r * self.den <= 2 * self.num + self.den
        } else {
            2 * self.num - self.den <= 2 * r * self.den < 2 * self.num + self.den
        }
    }

    /// The nearest whole number; a number halfway between two goes away from zero.
    pub open spec fn round(self) -> int {
        if self.num >= 0 {
            (2 * self.num + self.den) / (2 * self.den)
        } else {
            -((2 * (-self.num) + self.den) / (2 * self.den))
        }
    }
}

/// Rounding a magnitude: the quotient, plus one when the remainder is at least half.
proof fn lemma_round_by_remainder(mag: int, den: int)
    requires
        mag >= 0,
        den > 0,
    ensures
        (2 * mag + den) / (2 * den) == mag / den + if 2 * (mag % den) >= den {
            1int
        } else {
            0int
        },
{
    let q = mag / den;
    let rem = mag % den;
    assert(mag == q * den + rem && 0 <= rem < den) by {
        vstd::arithmetic::div_mod::lemma_fundamental_div_mod(mag, den);
        vstd::arithmetic::div_mod::lemma_mod_bound(mag, den);
        assert(den * q == q * den) by (nonlinear_arith);
    }
    if 2 * rem >= den {
        assert(2 * mag + den == (q + 1) * (2 * den) + (2 * rem - den)) by (nonlinear_arith)
            requires
                mag == q * den + rem,
        ;
        lemma_fundamental_div_mod_converse(2 * mag + den, 2 * den, q + 1, 2 * rem - den);
    } else {
        assert(2 * mag + den == q * (2 * den) + (2 * rem + den)) by (nonlinear_arith)
            requires
                mag == q * den + rem,
        ;
        lemma_fundamental_div_mod_converse(2 * mag + den, 2 * den, q, 2 * rem + den);
    }
}

/// Rounding gives the whole number within one half of the ratio, and of the
/// two candidates at exactly one half, the one farther from zero.
pub proof fn lemma_round_is_nearest(x: Ratio)
    requires
        x.wf(),
    ensures
        x.rounds_to(x.round()),
        x.num >= 0 ==> x.round() >= 0,
        x.num <= 0 ==> x.round() <= 0,
{
    let mag = if x.num >= 0 {
        x.num
    } else {
        -x.num
    };
    let n = 2 * mag + x.den;
    let d = 2 * x.den;
    let r = n / d;
    assert(n == d * r + n % d && 0 <= n % d < d) by {
        vstd::arithmetic::div_mod::lemma_fundamental_div_mod(n, d);
        vstd::arithmetic::div_mod::lemma_mod_bound(n, d);
    }
    assert(d * r == 2 * r * x.den) by (nonlinear_arith)
        requires
            d == 2 * x.den,
    ;
    assert(r >= 0) by (nonlinear_arith)
        requires
            n >= 0,
            d > 0,
            n == d * r + n % d,
            n % d < d,
    ;
    if x.num < 0 {
        assert(2 * (-r) * x.den == -(2 * r * x.den)) by (nonlinear_arith);
    }
    if x.num == 0 {
        assert(r == 0) by (nonlinear_arith)
            requires
                r >= 0,
                d > 0,
                n < d,
                n == d * r + n % d,
                0 <= n % d,
        ;
    }
}

/// Only one whole number is the rounding of a ratio.
pub proof fn lemma_rounds_to_one(x: Ratio, a: int, b: int)
    requires
        x.wf(),
        x.rounds_to(a),
        x.rounds_to(b),
    ensures
        a == b,
{
    assert(a == b) by (nonlinear_arith)
        requires
            x.den > 0,
            2 * x.num - x.den <= 2 * a * x.den <= 2 * x.num + x.den,
            2 * x.num - x.den <= 2 * b * x.den <= 2 * x.num + x.den,
            x.num >= 0 ==> 2 * x.num - x.den < 2 * a * x.den && 2 * x.num - x.den < 2 * b
                * x.den,
            x.num < 0 ==> 2 * a * x.den < 2 * x.num + x.den && 2 * b * x.den < 2 * x.num
                + x.den,
    ;
}

/// A ratio that is a whole number rounds to itself.
pub proof fn lemma_round_whole(n: int, den: int)
    requires
        den > 0,
    ensures
        (Ratio { num: n * den, den }).round() == n,
{
    let x = Ratio { num: n * den, den };
    lemma_round_is_nearest(x);
    assert(2 * n * den == 2 * (n * den)) by (nonlinear_arith);
    assert(x.rounds_to(n));
    lemma_rounds_to_one(x, x.round(), n);
}

/// Rounding depends on the number alone, not on the parts that write it.
pub proof fn lemma_round_same(x: Ratio, y: Ratio)
    requires
        x.wf(),
        y.wf(),
        x.same(y),
    ensures
        x.round() == y.round(),
{
    lemma_round_is_nearest(x);
    lemma_round_is_nearest(y);
    let a = x.round();
    let b = y.round();
    assert(x.num >= 0 <==> y.num >= 0) by (nonlinear_arith)
        requires
            x.den > 0,
            y.den > 0,
            x.num * y.den == y.num * x.den,
    ;
    if x.num >= 0 {
        assert(a == b) by (nonlinear_arith)
            requires
                x.den > 0,
                y.den > 0,
                x.num * y.den == y.num * x.den,
                2 * x.num - x.den < 2 * a * x.den <= 2 * x.num + x.den,
                2 * y.num - y.den < 2 * b * y.den <= 2 * y.num + y.den,
        ;
    } else {
        assert(a == b) by (nonlinear_arith)
            requires
                x.den > 0,
                y.den > 0,
                x.num * y.den == y.num * x.den,
                2 * x.num - x.den <= 2 * a * x.den < 2 * x.num + x.den,
                2 * y.num - y.den <= 2 * b * y.den < 2 * y.num + y.den,
        ;
    }
}

/// Bringing a number into `[0, 1]` depends on the number alone.
pub proof fn lemma_clamp_unit_same(x: Ratio, y: Ratio)
    requires
        x.wf(),
        y.wf(),
        x.same(y),
    ensures
        x.clamp_unit().same(y.clamp_unit()),
{
    let a = x.clamp_unit();
    let b = y.clamp_unit();
    assert(a.num * b.den == b.num * a.den) by (nonlinear_arith)
        requires
            x.den > 0,
            y.den > 0,
            x.num * y.den == y.num * x.den,
            a.den == x.den,
            b.den == y.den,
            a.num == if x.num < 0 {
                0
            } else if x.num > x.den {
                x.den
            } else {
                x.num
            },
            b.num == if y.num < 0 {
                0
            } else if y.num > y.den {
                y.den
            } else {
                y.num
            },
    ;
}

/// An exact fraction with a positive denominator.
#[derive(Clone, Copy, Debug)]
pub struct Fraction {
    pub(crate) num: i128,
    pub(crate) den: u64,
}

impl View for Fraction {
    type V = Ratio;

    closed spec fn view(&self) -> Ratio {
        Ratio { num: self.num as int, den: self.den as int }
    }
}

impl Fraction {
    #[verifier::type_invariant]
    pub(crate) closed spec fn positive_denominator(self) -> bool {
        self.den > 0
    }

    /// The fraction `num / den`, or nothing when `den` is zero.
    pub fn new(num: i128, den: u64) -> (r: Option<Fraction>)
        ensures
            r is None <==> den == 0,
            r matches Some(f) ==> f@ == (Ratio { num: num as int, den: den as int }),
    {
        if den == 0 {
            None
        } else {
            Some(Fraction { num, den })
        }
    }

    /// The fraction `num / den` for a denominator known to be positive.
    pub(crate) fn from_parts(num: i128, den: u64) -> (r: Fraction)
        requires
            den > 0,
        ensures
            r@ == (Ratio { num: num as int, den: den as int }),
    {
        Fraction { num, den }
    }

    /// The whole number `n`.
    pub fn whole(n: i128) -> (r: Fraction)
        ensures
            r@ == (Ratio { num: n as int, den: 1 }),
    {
        Fraction { num: n, den: 1 }
    }

    /// The part above the line.
    pub fn numerator(&self) -> (n: i128)
        ensures
            n == self@.num,
    {
        self.num
    }

    /// The part below the line; it is positive.
    pub fn denominator(&self) -> (d: u64)
        ensures
            self@.wf(),
            d == self@.den,
    {
        proof {
            use_type_invariant(self);
        }
        self.den
    }

    /// The nearest fraction in `[0, 1]`, on the same denominator.
    pub fn clamp_unit(&self) -> (r: Fraction)
        ensures
            self@.wf(),
            r@ == self@.clamp_unit(),
    {
        proof {
            use_type_invariant(self);
        }
        let num: i128 = if self.num < 0 {
            0
        } else if self.num > self.den as i128 {
            self.den as i128
        } else {
            self.num
        };
        Fraction { num, den: self.den }
    }

    /// The nearest whole number, halves going away from zero.
    pub fn round(&self) -> (r: i128)
        ensures
            self@.wf(),
            r == self@.round(),
            self@.rounds_to(r as int),
    {
        proof {
            use_type_invariant(self);
            lemma_round_is_nearest(self@);
        }
        let den: u128 = self.den as u128;
        let mag: u128 = if self.num >= 0 {
            self.num as u128
        } else {
            (-(self.num + 1)) as u128 + 1
        };
        let quotient: u128 = mag / den;
        let remainder: u128 = mag % den;
        proof {
            lemma_round_by_remainder(mag as int, den as int);
            vstd::arithmetic::div_mod::lemma_fundamental_div_mod(mag as int, den as int);
            assert(quotient * den <= mag) by (nonlinear_arith)
                requires
                    mag == den * quotient + remainder,
            ;
            assert(den >= 2 ==> 2 * quotient <= mag) by (nonlinear_arith)
                requires
                    quotient * den <= mag,
            ;
            assert(den == 1 ==> remainder == 0);
        }
        let nearest: u128 = if 2 * remainder >= den {
            quotient + 1
        } else {
            quotient
        };
        if self.num >= 0 {
            nearest as i128
        } else if nearest > i128::MAX as u128 {
            i128::MIN
        } else {
            -(nearest as i128)
        }
    }
}

} // verus!
