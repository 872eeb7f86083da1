use vstd::prelude::*;

use crate::ratio::{Frac, Ratio, BASE_BOUND, INPUT_BOUND};

verus! {

/// The closed set of kinds of quantity; units convert only within one kind.
#[derive(Clone, Copy, Debug, PartialEq, Eq, Structural)]
pub enum UnitCategory {
    Length,
    Temperature,
    Mass,
}

/// Every unit the registry knows, in table order.
#[derive(Clone, Copy, Debug, PartialEq, Eq, Structural)]
pub enum Unit {
    Kilometer,
    Meter,
    Centimeter,
    Millimeter,
    Mile,
    Yard,
    Foot,
    Inch,
    Celsius,
    Fahrenheit,
    Kelvin,
    Kilogram,
    Gram,
    Milligram,
    Pound,
    Ounce,
    Ton,
}

/// The affine map `v -> (scale * v + offset) / divisor` that takes a quantity
/// in a unit to its category's base unit (meters, Celsius, kilograms).
#[derive(Clone, Copy, Debug, PartialEq, Eq, Structural)]
pub struct Affine {
    pub scale: i128,
    pub offset: i128,
    pub divisor: i128,
}

impl Affine {
    /// The coefficients stay small enough for exact conversion in `i128`.
    pub open spec fn bounded(self) -> bool {
        &&& 1 <= self.scale <= 45_359_237
        &&& -27_315 <= self.offset <= 27_315
        &&& 1 <= self.divisor <= 1_600_000_000
    }
}

impl Unit {
    pub open spec fn spec_category(&self) -> UnitCategory {
        match self {
            Unit::Kilometer | Unit::Meter | Unit::Centimeter | Unit::Millimeter | Unit::Mile
            | Unit::Yard | Unit::Foot | Unit::Inch => UnitCategory::Length,
            Unit::Celsius | Unit::Fahrenheit | Unit::Kelvin => UnitCategory::Temperature,
            Unit::Kilogram | Unit::Gram | Unit::Milligram | Unit::Pound | Unit::Ounce
            | Unit::Ton => UnitCategory::Mass,
        }
    }

    /// The category the unit belongs to.
    #[verifier::when_used_as_spec(spec_category)]
    pub fn category(&self) -> (r: UnitCategory)
        ensures
            r == self.spec_category(),
    {
        match self {
            Unit::Kilometer | Unit::Meter | Unit::Centimeter | Unit::Millimeter | Unit::Mile
            | Unit::Yard | Unit::Foot | Unit::Inch => UnitCategory::Length,
            Unit::Celsius | Unit::Fahrenheit | Unit::Kelvin => UnitCategory::Temperature,
            Unit::Kilogram | Unit::Gram | Unit::Milligram | Unit::Pound | Unit::Ounce
            | Unit::Ton => UnitCategory::Mass,
        }
    }

    pub open spec fn spec_affine(&self) -> Affine {
        match self {
            Unit::Kilometer => Affine { scale: 1000, offset: 0, divisor: 1 },
            Unit::Meter => Affine { scale: 1, offset: 0, divisor: 1 },
            Unit::Centimeter => Affine { scale: 1, offset: 0, divisor: 100 },
            Unit::Millimeter => Affine { scale: 1, offset: 0, divisor: 1000 },
            Unit::Mile => Affine { scale: 1_609_344, offset: 0, divisor: 1000 },
            Unit::Yard => Affine { scale: 9144, offset: 0, divisor: 10_000 },
            Unit::Foot => Affine { scale: 3048, offset: 0, divisor: 10_000 },
            Unit::Inch => Affine { scale: 254, offset: 0, divisor: 10_000 },
            Unit::Celsius => Affine { scale: 1, offset: 0, divisor: 1 },
            Unit::Fahrenheit => Affine { scale: 5, offset: -160i128, divisor: 9 },
            Unit::Kelvin => Affine { scale: 100, offset: -27_315i128, divisor: 100 },
            Unit::Kilogram => Affine { scale: 1, offset: 0, divisor: 1 },
            Unit::Gram => Affine { scale: 1, offset: 0, divisor: 1000 },
            Unit::Milligram => Affine { scale: 1, offset: 0, divisor: 1_000_000 },
            Unit::Pound => Affine { scale: 45_359_237, offset: 0, divisor: 100_000_000 },
            Unit::Ounce => Affine { scale: 45_359_237, offset: 0, divisor: 1_600_000_000 },
            Unit::Ton => Affine { scale: 1000, offset: 0, divisor: 1 },
        }
    }

    /// The coefficients of the unit's map to its base unit.
    #[verifier::when_used_as_spec(spec_affine)]
    pub fn affine(&self) -> (r: Affine)
        ensures
            r == self.spec_affine(),
            r.bounded(),
    {
        match self {
            Unit::Kilometer => Affine { scale: 1000, offset: 0, divisor: 1 },
            Unit::Meter => Affine { scale: 1, offset: 0, divisor: 1 },
            Unit::Centimeter => Affine { scale: 1, offset: 0, divisor: 100 },
            Unit::Millimeter => Affine { scale: 1, offset: 0, divisor: 1000 },
            Unit::Mile => Affine { scale: 1_609_344, offset: 0, divisor: 1000 },
            Unit::Yard => Affine { scale: 9144, offset: 0, divisor: 10_000 },
            Unit::Foot => Affine { scale: 3048, offset: 0, divisor: 10_000 },
            Unit::Inch => Affine { scale: 254, offset: 0, divisor: 10_000 },
            Unit::Celsius => Affine { scale: 1, offset: 0, divisor: 1 },
            Unit::Fahrenheit => Affine { scale: 5, offset: -160, divisor: 9 },
            Unit::Kelvin => Affine { scale: 100, offset: -27_315, divisor: 100 },
            Unit::Kilogram => Affine { scale: 1, offset: 0, divisor: 1 },
            Unit::Gram => Affine { scale: 1, offset: 0, divisor: 1000 },
            Unit::Milligram => Affine { scale: 1, offset: 0, divisor: 1_000_000 },
            Unit::Pound => Affine { scale: 45_359_237, offset: 0, divisor: 100_000_000 },
            Unit::Ounce => Affine { scale: 45_359_237, offset: 0, divisor: 1_600_000_000 },
            Unit::Ton => Affine { scale: 1000, offset: 0, divisor: 1 },
        }
    }

    /// The quantity `x`, given in this unit, expressed in the base unit.
    pub open spec fn spec_to_base(self, x: Frac) -> Frac {
        let a = self.spec_affine();
        Frac { num: a.scale * x.num + a.offset * x.den, den: a.divisor * x.den }
    }

    /// The quantity `x`, given in the base unit, expressed in this unit.
    pub open spec fn spec_from_base(self, x: Frac) -> Frac {
        let a = self.spec_affine();
        Frac { num: a.divisor * x.num - a.offset * x.den, den: a.scale * x.den }
    }

    /// Converts a quantity in this unit to the category's base unit, exactly.
    pub fn to_base(&self, q: Ratio) -> (r: Ratio)
        requires
            q@.fits(INPUT_BOUND as int),
        ensures
            r@ == self.spec_to_base(q@),
            r@.fits(BASE_BOUND as int),
    {
        let a = self.affine();
        proof {
            lemma_to_base_bounds(a.scale as int, a.offset as int, a.divisor as int, q.num as int, q.den as int);
        }
        Ratio { num: a.scale * q.num + a.offset * q.den, den: a.divisor * q.den }
    }

    /// Converts a quantity in the category's base unit to this unit, exactly.
    pub fn from_base(&self, q: Ratio) -> (r: Ratio)
        requires
            q@.fits(BASE_BOUND as int),
        ensures
            r@ == self.spec_from_base(q@),
            r.den >= 1,
    {
        let a = self.affine();
        proof {
            lemma_from_base_bounds(a.scale as int, a.offset as int, a.divisor as int, q.num as int, q.den as int);
        }
        Ratio { num: a.divisor * q.num - a.offset * q.den, den: a.scale * q.den }
    }
}

proof fn lemma_to_base_bounds(s: int, o: int, d: int, n: int, k: int)
    requires
        1 <= s <= 45_359_237,
        -27_315 <= o <= 27_315,
        1 <= d <= 1_600_000_000,
        -0x8000_0000_0000_0000 <= n <= 0x8000_0000_0000_0000,
        1 <= k <= 0x8000_0000_0000_0000,
    ensures
        -0x1_0000_0000_0000_0000_0000_0000 <= s * n + o * k <= 0x1_0000_0000_0000_0000_0000_0000,
        1 <= d * k <= 0x1_0000_0000_0000_0000_0000_0000,
{
    assert(-45_359_237 * 0x8000_0000_0000_0000 <= s * n <= 45_359_237 * 0x8000_0000_0000_0000)
        by (nonlinear_arith)
        requires
            1 <= s <= 45_359_237,
            -0x8000_0000_0000_0000 <= n <= 0x8000_0000_0000_0000,
    ;
    assert(-27_315 * 0x8000_0000_0000_0000 <= o * k <= 27_315 * 0x8000_0000_0000_0000)
        by (nonlinear_arith)
        requires
            -27_315 <= o <= 27_315,
            1 <= k <= 0x8000_0000_0000_0000,
    ;
    assert(1 <= d * k <= 1_600_000_000 * 0x8000_0000_0000_0000) by (nonlinear_arith)
        requires
            1 <= d <= 1_600_000_000,
            1 <= k <= 0x8000_0000_0000_0000,
    ;
}

proof fn lemma_from_base_bounds(s: int, o: int, d: int, n: int, k: int)
    requires
        1 <= s <= 45_359_237,
        -27_315 <= o <= 27_315,
        1 <= d <= 1_600_000_000,
        -0x1_0000_0000_0000_0000_0000_0000 <= n <= 0x1_0000_0000_0000_0000_0000_0000,
        1 <= k <= 0x1_0000_0000_0000_0000_0000_0000,
    ensures
        i128::MIN <= d * n - o * k <= i128::MAX,
        1 <= s * k <= i128::MAX,
{
    assert(-1_600_000_000 * 0x1_0000_0000_0000_0000_0000_0000 <= d * n <= 1_600_000_000
        * 0x1_0000_0000_0000_0000_0000_0000) by (nonlinear_arith)
        requires
            1 <= d <= 1_600_000_000,
            -0x1_0000_0000_0000_0000_0000_0000 <= n <= 0x1_0000_0000_0000_0000_0000_0000,
    ;
    assert(-27_315 * 0x1_0000_0000_0000_0000_0000_0000 <= o * k <= 27_315
        * 0x1_0000_0000_0000_0000_0000_0000) by (nonlinear_arith)
        requires
            -27_315 <= o <= 27_315,
            1 <= k <= 0x1_0000_0000_0000_0000_0000_0000,
    ;
    assert(1 <= s * k <= 45_359_237 * 0x1_0000_0000_0000_0000_0000_0000) by (nonlinear_arith)
        requires
            1 <= s <= 45_359_237,
            1 <= k <= 0x1_0000_0000_0000_0000_0000_0000,
    ;
}

} // verus!
