use vstd::prelude::*;

use crate::ratio::{Frac, Ratio, INPUT_BOUND};
use crate::units::{Unit, UnitCategory};

verus! {

/// Why a requested conversion was refused.
#[derive(Clone, Copy, Debug, PartialEq, Eq, Structural)]
pub enum ConversionError {
    /// The two units measure different kinds of quantity.
    CategoryMismatch { from_category: UnitCategory, to_category: UnitCategory },
    /// The temperature lies below absolute zero on the source unit's scale.
    BelowAbsoluteZero,
}

/// The outcome of a successful conversion.
#[derive(Clone, Copy, Debug, PartialEq, Eq, Structural)]
pub struct Conversion {
    /// The converted quantity, in the target unit.
    pub value: Ratio,
    /// The input was a negative length: the conversion went ahead, but the
    /// caller should warn that it has no physical meaning.
    pub negative_length: bool,
}

impl Unit {
    pub open spec fn spec_absolute_zero(&self) -> Option<Frac> {
        match self {
            Unit::Celsius => Some(Frac { num: -27_315, den: 100 }),
            Unit::Fahrenheit => Some(Frac { num: -45_967, den: 100 }),
            Unit::Kelvin => Some(Frac { num: 0, den: 1 }),
            _ => None,
        }
    }

    /// Absolute zero on this unit's own scale, for temperature units.
    pub fn absolute_zero(&self) -> (r: Option<Ratio>)
        ensures
            r matches Some(z) ==> self.spec_absolute_zero() == Some(z@) && z@.fits(INPUT_BOUND as int),
            r is None <==> self.spec_absolute_zero() is None,
    {
        match self {
            Unit::Celsius => Some(Ratio { num: -27_315, den: 100 }),
            Unit::Fahrenheit => Some(Ratio { num: -45_967, den: 100 }),
            Unit::Kelvin => Some(Ratio { num: 0, den: 1 }),
            _ => None,
        }
    }

    /// The quantity `x`, given in this unit, lies below absolute zero.
    pub open spec fn below_absolute_zero(&self, x: Frac) -> bool {
        match self.spec_absolute_zero() {
            Some(z) => x.less_than(z),
            None => false,
        }
    }
}

/// The quantity `x` in unit `from`, expressed in unit `to` through the base unit.
pub open spec fn spec_convert(from: Unit, to: Unit, x: Frac) -> Frac {
    to.spec_from_base(from.spec_to_base(x))
}

/// Converts `value`, given in unit `from`, to unit `to`.
pub fn convert(value: Ratio, from: Unit, to: Unit) -> (r: Result<Conversion, ConversionError>)
    requires
        value@.fits(INPUT_BOUND as int),
    ensures
        match r {
            Err(ConversionError::CategoryMismatch { from_category, to_category }) => {
                &&& from.category() != to.category()
                &&& from_category == from.category()
                &&& to_category == to.category()
            },
            Err(ConversionError::BelowAbsoluteZero) => {
                &&& from.category() == to.category()
                &&& from.below_absolute_zero(value@)
            },
            Ok(c) => {
                &&& from.category() == to.category()
                &&& !from.below_absolute_zero(value@)
                &&& c.value@ == spec_convert(from, to, value@)
                &&& c.value.den >= 1
                &&& c.negative_length == (from.category() == UnitCategory::Length && value.num < 0)
            },
        },
        from.category() != to.category() ==> r == Err::<Conversion, ConversionError>(
            ConversionError::CategoryMismatch {
                from_category: from.category(),
                to_category: to.category(),
            },
        ),
        from.category() == to.category() && from.below_absolute_zero(value@) ==> r == Err::<
            Conversion,
            ConversionError,
        >(ConversionError::BelowAbsoluteZero),
        from.category() == to.category() && !from.below_absolute_zero(value@) ==> r is Ok,
        from == to && !from.below_absolute_zero(value@) ==> (r matches Ok(c) && c.value@.same_value(
            value@,
        )),
{
    let from_category = from.category();
    let to_category = to.category();
    if from_category != to_category {
        return Err(ConversionError::CategoryMismatch { from_category, to_category });
    }
    let negative_length = from_category == UnitCategory::Length && value.num < 0;
    if let Some(zero) = from.absolute_zero() {
        if value.is_less_than(&zero) {
            return Err(ConversionError::BelowAbsoluteZero);
        }
    }
    let base = from.to_base(value);
    let result = to.from_base(base);
    proof {
        if from == to {
            lemma_round_trip(from, value@);
        }
    }
    Ok(Conversion { value: result, negative_length })
}

/// Taking a quantity to the base unit and back gives the same rational number.
pub proof fn lemma_round_trip(u: Unit, x: Frac)
    requires
        x.den >= 1,
    ensures
        u.spec_from_base(u.spec_to_base(x)).same_value(x),
        u.spec_from_base(u.spec_to_base(x)).den >= 1,
{
    let a = u.spec_affine();
    let s = a.scale as int;
    let o = a.offset as int;
    let d = a.divisor as int;
    let n = x.num;
    let k = x.den;
    assert(s >= 1 && d >= 1);
    assert((d * (s * n + o * k) - o * (d * k)) * k == n * (s * (d * k))) by (nonlinear_arith);
    assert(s * (d * k) >= 1) by (nonlinear_arith)
        requires
            s >= 1,
            d >= 1,
            k >= 1,
    ;
}

} // verus!
