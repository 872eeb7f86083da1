use vstd::prelude::*;

verus! {

/// Largest magnitude of either part of a quantity handed to a conversion.
pub const INPUT_BOUND: u128 = 0x8000_0000_0000_0000;

/// Largest magnitude of either part of a quantity expressed in a base unit.
pub const BASE_BOUND: u128 = 0x1_0000_0000_0000_0000_0000_0000;

/// A rational number `num / den` in mathematical integers.
pub struct Frac {
    pub num: int,
    pub den: int,
}

impl Frac {
    /// The denominator is positive and both parts lie within `bound` in magnitude.
    pub open spec fn fits(self, bound: int) -> bool {
        &&& -bound <= self.num <= bound
        &&& 1 <= self.den <= bound
    }

    /// Two fractions with positive denominators stand for the same rational number.
    pub open spec fn same_value(self, other: Frac) -> bool {
        self.num * other.den == other.num * self.den
    }

    /// The rational number lies strictly below `other`'s (denominators positive).
    pub open spec fn less_than(self, other: Frac) -> bool {
        self.num * other.den < other.num * self.den
    }
}

/// An exact rational quantity `num / den`; the denominator is kept positive.
#[derive(Clone, Copy, Debug, PartialEq, Eq, Structural)]
pub struct Ratio {
    pub num: i128,
    pub den: i128,
}

impl View for Ratio {
    type V = Frac;

    open spec fn view(&self) -> Frac {
        Frac { num: self.num as int, den: self.den as int }
    }
}

impl Ratio {
    /// Builds `num / den` from machine integers.
    pub fn new(num: i64, den: i64) -> (r: Ratio)
        requires
            den >= 1,
        ensures
            r@ == (Frac { num: num as int, den: den as int }),
            r@.fits(INPUT_BOUND as int),
    {
        Ratio { num: num as i128, den: den as i128 }
    }

    /// Whether the rational number lies strictly below `other`'s.
    pub fn is_less_than(&self, other: &Ratio) -> (r: bool)
        requires
            self@.fits(INPUT_BOUND as int),
            other@.fits(INPUT_BOUND as int),
        ensures
            r == self@.less_than(other@),
    {
        proof {
            lemma_input_product(self.num as int, other.den as int);
            lemma_input_product(other.num as int, self.den as int);
        }
        self.num * other.den < other.num * self.den
    }
}

proof fn lemma_input_product(a: int, b: int)
    requires
        -0x8000_0000_0000_0000 <= a <= 0x8000_0000_0000_0000,
        0 <= b <= 0x8000_0000_0000_0000,
    ensures
        -0x4000_0000_0000_0000_0000_0000_0000_0000 <= a * b <= 0x4000_0000_0000_0000_0000_0000_0000_0000,
{
    assert(-0x4000_0000_0000_0000_0000_0000_0000_0000 <= a * b <= 0x4000_0000_0000_0000_0000_0000_0000_0000) by (nonlinear_arith)
        requires
            -0x8000_0000_0000_0000 <= a <= 0x8000_0000_0000_0000,
            0 <= b <= 0x8000_0000_0000_0000,
    ;
}

} // verus!
