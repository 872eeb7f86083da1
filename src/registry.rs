use vstd::prelude::*;

use crate::units::{Unit, UnitCategory};

verus! {

/// A character with ASCII upper-case letters mapped to lower case, as a code point.
pub open spec fn fold(c: char) -> u32 {
    if 'A' <= c && c <= 'Z' {
        (c as u32 + 32) as u32
    } else {
        c as u32
    }
}

/// Two strings are equal once ASCII letters are compared without regard to case.
pub open spec fn same_ignoring_case(a: Seq<char>, b: Seq<char>) -> bool {
    &&& a.len() == b.len()
    &&& forall|i: int| 0 <= i < a.len() ==> #[trigger] fold(a[i]) == fold(b[i])
}

impl Unit {
    pub open spec fn spec_name(&self) -> Seq<char> {
        match self {
            Unit::Kilometer => "km"@,
            Unit::Meter => "m"@,
            Unit::Centimeter => "cm"@,
            Unit::Millimeter => "mm"@,
            Unit::Mile => "mi"@,
            Unit::Yard => "yd"@,
            Unit::Foot => "ft"@,
            Unit::Inch => "in"@,
            Unit::Celsius => "C"@,
            Unit::Fahrenheit => "F"@,
            Unit::Kelvin => "K"@,
            Unit::Kilogram => "kg"@,
            Unit::Gram => "g"@,
            Unit::Milligram => "mg"@,
            Unit::Pound => "lb"@,
            Unit::Ounce => "oz"@,
            Unit::Ton => "ton"@,
        }
    }

    /// The unit's canonical short symbol.
    pub fn name(&self) -> (r: &'static str)
        ensures
            r@ == self.spec_name(),
    {
        match self {
            Unit::Kilometer => "km",
            Unit::Meter => "m",
            Unit::Centimeter => "cm",
            Unit::Millimeter => "mm",
            Unit::Mile => "mi",
            Unit::Yard => "yd",
            Unit::Foot => "ft",
            Unit::Inch => "in",
            Unit::Celsius => "C",
            Unit::Fahrenheit => "F",
            Unit::Kelvin => "K",
            Unit::Kilogram => "kg",
            Unit::Gram => "g",
            Unit::Milligram => "mg",
            Unit::Pound => "lb",
            Unit::Ounce => "oz",
            Unit::Ton => "ton",
        }
    }

    pub open spec fn spec_aliases(&self) -> Seq<Seq<char>> {
        match self {
            Unit::Kilometer => seq!["kilometer"@, "kilometers"@, "kilometre"@, "kilometres"@],
            Unit::Meter => seq!["meter"@, "meters"@, "metre"@, "metres"@],
            Unit::Centimeter => seq!["centimeter"@, "centimeters"@, "centimetre"@, "centimetres"@],
            Unit::Millimeter => seq!["millimeter"@, "millimeters"@, "millimetre"@, "millimetres"@],
            Unit::Mile => seq!["mile"@, "miles"@],
            Unit::Yard => seq!["yard"@, "yards"@],
            Unit::Foot => seq!["foot"@, "feet"@],
            Unit::Inch => seq!["inch"@, "inches"@],
            Unit::Celsius => seq!["celsius"@, "centigrade"@],
            Unit::Fahrenheit => seq!["fahrenheit"@],
            Unit::Kelvin => seq!["kelvin"@],
            Unit::Kilogram => seq!["kilogram"@, "kilograms"@],
            Unit::Gram => seq!["gram"@, "grams"@],
            Unit::Milligram => seq!["milligram"@, "milligrams"@],
            Unit::Pound => seq!["pound"@, "pounds"@],
            Unit::Ounce => seq!["ounce"@, "ounces"@],
            Unit::Ton => seq!["tons"@, "tonne"@, "tonnes"@, "metric ton"@],
        }
    }

    /// The unit's alternative spellings, in table order.
    pub fn aliases(&self) -> (r: Vec<&'static str>)
        ensures
            r@.len() == self.spec_aliases().len(),
            forall|i: int| 0 <= i < r@.len() ==> #[trigger] r@[i]@ == self.spec_aliases()[i],
    {
        let r: Vec<&'static str> = match self {
            Unit::Kilometer => vec!["kilometer", "kilometers", "kilometre", "kilometres"],
            Unit::Meter => vec!["meter", "meters", "metre", "metres"],
            Unit::Centimeter => vec!["centimeter", "centimeters", "centimetre", "centimetres"],
            Unit::Millimeter => vec!["millimeter", "millimeters", "millimetre", "millimetres"],
            Unit::Mile => vec!["mile", "miles"],
            Unit::Yard => vec!["yard", "yards"],
            Unit::Foot => vec!["foot", "feet"],
            Unit::Inch => vec!["inch", "inches"],
            Unit::Celsius => vec!["celsius", "centigrade"],
            Unit::Fahrenheit => vec!["fahrenheit"],
            Unit::Kelvin => vec!["kelvin"],
            Unit::Kilogram => vec!["kilogram", "kilograms"],
            Unit::Gram => vec!["gram", "grams"],
            Unit::Milligram => vec!["milligram", "milligrams"],
            Unit::Pound => vec!["pound", "pounds"],
            Unit::Ounce => vec!["ounce", "ounces"],
            Unit::Ton => vec!["tons", "tonne", "tonnes", "metric ton"],
        };
        r
    }
}

impl Unit {
    /// The canonical name followed by the aliases.
    pub open spec fn identifiers(&self) -> Seq<Seq<char>> {
        seq![self.spec_name()] + self.spec_aliases()
    }

    /// The input names this unit: its canonical name or one of its aliases,
    /// compared without regard to ASCII case.
    pub open spec fn spec_matches(&self, s: Seq<char>) -> bool {
        exists|i: int|
            0 <= i < self.identifiers().len() && same_ignoring_case(
                #[trigger] self.identifiers()[i],
                s,
            )
    }
}

/// The case-folded length and characters at a few positions; equal strings
/// under case folding have equal fingerprints.
pub open spec fn fingerprint(s: Seq<char>) -> (int, u32, u32, u32) {
    (s.len() as int, folded_at(s, 0), folded_at(s, 1), folded_at(s, 5))
}

pub open spec fn folded_at(s: Seq<char>, i: int) -> u32 {
    if 0 <= i < s.len() {
        fold(s[i])
    } else {
        0
    }
}

proof fn lemma_fingerprint(a: Seq<char>, b: Seq<char>)
    requires
        same_ignoring_case(a, b),
    ensures
        fingerprint(a) == fingerprint(b),
{
    if a.len() > 0 {
        assert(fold(a[0]) == fold(b[0]));
    }
    if a.len() > 1 {
        assert(fold(a[1]) == fold(b[1]));
    }
    if a.len() > 5 {
        assert(fold(a[5]) == fold(b[5]));
    }
}

/// No two distinct units share a name or alias, compared without regard to case.
pub proof fn lemma_identifiers_unique(u1: Unit, u2: Unit, i: int, j: int)
    requires
        0 <= i < u1.identifiers().len(),
        0 <= j < u2.identifiers().len(),
        same_ignoring_case(u1.identifiers()[i], u2.identifiers()[j]),
    ensures
        u1 == u2,
{
    reveal_strlit("C");
    reveal_strlit("F");
    reveal_strlit("K");
    reveal_strlit("celsius");
    reveal_strlit("centigrade");
    reveal_strlit("centimeter");
    reveal_strlit("centimeters");
    reveal_strlit("centimetre");
    reveal_strlit("centimetres");
    reveal_strlit("cm");
    reveal_strlit("fahrenheit");
    reveal_strlit("feet");
    reveal_strlit("foot");
    reveal_strlit("ft");
    reveal_strlit("g");
    reveal_strlit("gram");
    reveal_strlit("grams");
    reveal_strlit("in");
    reveal_strlit("inch");
    reveal_strlit("inches");
    reveal_strlit("kelvin");
    reveal_strlit("kg");
    reveal_strlit("kilogram");
    reveal_strlit("kilograms");
    reveal_strlit("kilometer");
    reveal_strlit("kilometers");
    reveal_strlit("kilometre");
    reveal_strlit("kilometres");
    reveal_strlit("km");
    reveal_strlit("lb");
    reveal_strlit("m");
    reveal_strlit("meter");
    reveal_strlit("meters");
    reveal_strlit("metre");
    reveal_strlit("metres");
    reveal_strlit("metric ton");
    reveal_strlit("mg");
    reveal_strlit("mi");
    reveal_strlit("mile");
    reveal_strlit("miles");
    reveal_strlit("milligram");
    reveal_strlit("milligrams");
    reveal_strlit("millimeter");
    reveal_strlit("millimeters");
    reveal_strlit("millimetre");
    reveal_strlit("millimetres");
    reveal_strlit("mm");
    reveal_strlit("ounce");
    reveal_strlit("ounces");
    reveal_strlit("oz");
    reveal_strlit("pound");
    reveal_strlit("pounds");
    reveal_strlit("ton");
    reveal_strlit("tonne");
    reveal_strlit("tonnes");
    reveal_strlit("tons");
    reveal_strlit("yard");
    reveal_strlit("yards");
    reveal_strlit("yd");
    lemma_fingerprint(u1.identifiers()[i], u2.identifiers()[j]);
}

fn fold_char(c: char) -> (r: u32)
    ensures
        r == fold(c),
{
    if 'A' <= c && c <= 'Z' {
        c as u32 + 32
    } else {
        c as u32
    }
}

/// Compares two strings with ASCII letters matched regardless of case.
pub fn eq_ignoring_case(a: &str, b: &str) -> (r: bool)
    ensures
        r == same_ignoring_case(a@, b@),
{
    let n = a.unicode_len();
    if n != b.unicode_len() {
        return false;
    }
    let mut i: usize = 0;
    while i < n
        invariant
            n == a@.len(),
            n == b@.len(),
            i <= n,
            forall|k: int| 0 <= k < i ==> #[trigger] fold(a@[k]) == fold(b@[k]),
        decreases n - i,
    {
        if fold_char(a.get_char(i)) != fold_char(b.get_char(i)) {
            return false;
        }
        i = i + 1;
    }
    true
}

impl Unit {
    /// Whether `input` is this unit's name or one of its aliases, ignoring ASCII case.
    pub fn matches(&self, input: &str) -> (r: bool)
        ensures
            r == self.spec_matches(input@),
    {
        let ghost ids = self.identifiers();
        if eq_ignoring_case(self.name(), input) {
            assert(ids[0] == self.spec_name());
            return true;
        }
        let aliases = self.aliases();
        let mut i: usize = 0;
        while i < aliases.len()
            invariant
                ids == self.identifiers(),
                aliases@.len() == self.spec_aliases().len(),
                forall|k: int| 0 <= k < aliases@.len() ==> #[trigger] aliases@[k]@ == self.spec_aliases()[k],
                i <= aliases@.len(),
                forall|k: int| 0 <= k <= i ==> !same_ignoring_case(#[trigger] ids[k], input@),
            decreases aliases@.len() - i,
        {
            assert(ids[i + 1] == self.spec_aliases()[i as int]);
            if eq_ignoring_case(aliases[i], input) {
                return true;
            }
            i = i + 1;
        }
        proof {
            assert forall|k: int| 0 <= k < ids.len() implies !same_ignoring_case(#[trigger] ids[k], input@) by {}
        }
        false
    }
}

/// Every unit of the registry, in table order.
pub open spec fn spec_all_units() -> Seq<Unit> {
    seq![
        Unit::Kilometer,
        Unit::Meter,
        Unit::Centimeter,
        Unit::Millimeter,
        Unit::Mile,
        Unit::Yard,
        Unit::Foot,
        Unit::Inch,
        Unit::Celsius,
        Unit::Fahrenheit,
        Unit::Kelvin,
        Unit::Kilogram,
        Unit::Gram,
        Unit::Milligram,
        Unit::Pound,
        Unit::Ounce,
        Unit::Ton,
    ]
}

/// Every unit appears in the registry's table.
pub proof fn lemma_all_units_complete(u: Unit)
    ensures
        spec_all_units().contains(u),
{
    let all = spec_all_units();
    let k: int = match u {
        Unit::Kilometer => 0,
        Unit::Meter => 1,
        Unit::Centimeter => 2,
        Unit::Millimeter => 3,
        Unit::Mile => 4,
        Unit::Yard => 5,
        Unit::Foot => 6,
        Unit::Inch => 7,
        Unit::Celsius => 8,
        Unit::Fahrenheit => 9,
        Unit::Kelvin => 10,
        Unit::Kilogram => 11,
        Unit::Gram => 12,
        Unit::Milligram => 13,
        Unit::Pound => 14,
        Unit::Ounce => 15,
        Unit::Ton => 16,
    };
    assert(all[k] == u);
}

/// The registry's table of units.
pub fn all_units() -> (r: Vec<Unit>)
    ensures
        r@ == spec_all_units(),
{
    let r: Vec<Unit> = vec![
        Unit::Kilometer,
        Unit::Meter,
        Unit::Centimeter,
        Unit::Millimeter,
        Unit::Mile,
        Unit::Yard,
        Unit::Foot,
        Unit::Inch,
        Unit::Celsius,
        Unit::Fahrenheit,
        Unit::Kelvin,
        Unit::Kilogram,
        Unit::Gram,
        Unit::Milligram,
        Unit::Pound,
        Unit::Ounce,
        Unit::Ton,
    ];
    assert(r@ =~= spec_all_units());
    r
}

/// At most one unit answers to a given input.
pub proof fn lemma_at_most_one_match(u1: Unit, u2: Unit, s: Seq<char>)
    requires
        u1.spec_matches(s),
        u2.spec_matches(s),
    ensures
        u1 == u2,
{
    let i = choose|i: int|
        0 <= i < u1.identifiers().len() && same_ignoring_case(#[trigger] u1.identifiers()[i], s);
    let j = choose|j: int|
        0 <= j < u2.identifiers().len() && same_ignoring_case(#[trigger] u2.identifiers()[j], s);
    let a = u1.identifiers()[i];
    let b = u2.identifiers()[j];
    assert(same_ignoring_case(a, b)) by {
        assert forall|k: int| 0 <= k < a.len() implies #[trigger] fold(a[k]) == fold(b[k]) by {
            assert(fold(a[k]) == fold(s[k]));
            assert(fold(b[k]) == fold(s[k]));
        }
    }
    lemma_identifiers_unique(u1, u2, i, j);
}

/// Resolves a unit name or alias, ignoring ASCII case.
pub fn find_unit(input: &str) -> (r: Option<Unit>)
    ensures
        match r {
            Some(u) => u.spec_matches(input@) && forall|v: Unit| #[trigger]
                v.spec_matches(input@) ==> v == u,
            None => forall|v: Unit| !#[trigger] v.spec_matches(input@),
        },
{
    let units = all_units();
    let mut i: usize = 0;
    while i < units.len()
        invariant
            units@ == spec_all_units(),
            i <= units@.len(),
            forall|k: int| 0 <= k < i ==> !#[trigger] units@[k].spec_matches(input@),
        decreases units@.len() - i,
    {
        if units[i].matches(input) {
            let u = units[i];
            proof {
                assert forall|v: Unit| #[trigger] v.spec_matches(input@) implies v == u by {
                    lemma_at_most_one_match(u, v, input@);
                }
            }
            return Some(u);
        }
        i = i + 1;
    }
    proof {
        assert forall|v: Unit| !#[trigger] v.spec_matches(input@) by {
            lemma_all_units_complete(v);
            let k = choose|k: int| 0 <= k < units@.len() && units@[k] == v;
        }
    }
    None
}

/// The units of one category, in table order.
pub open spec fn spec_units_in(category: UnitCategory) -> Seq<Unit> {
    spec_all_units().filter(of_category(category))
}

/// The predicate "belongs to `category`".
pub open spec fn of_category(category: UnitCategory) -> spec_fn(Unit) -> bool {
    |u: Unit| u.spec_category() == category
}

/// The units of `category`, in table order.
pub fn units_in(category: UnitCategory) -> (r: Vec<Unit>)
    ensures
        r@ == spec_units_in(category),
{
    let units = all_units();
    let ghost pred = of_category(category);
    let mut r: Vec<Unit> = Vec::new();
    let mut i: usize = 0;
    assert(units@.take(0).filter(pred) =~= Seq::<Unit>::empty()) by {
        reveal(Seq::filter);
    }
    while i < units.len()
        invariant
            units@ == spec_all_units(),
            i <= units@.len(),
            pred == of_category(category),
            r@ == units@.take(i as int).filter(pred),
        decreases units@.len() - i,
    {
        let u = units[i];
        let ghost before = r@;
        if u.category() == category {
            r.push(u);
        }
        proof {
            let t = units@.take(i + 1);
            assert(t.drop_last() =~= units@.take(i as int));
            assert(t.last() == u);
            reveal(Seq::filter);
            assert(t.filter(pred) == if pred(u) {
                t.drop_last().filter(pred).push(u)
            } else {
                t.drop_last().filter(pred)
            });
        }
        i = i + 1;
    }
    assert(units@.take(i as int) =~= units@);
    r
}

/// The categories in display order, each with its units in table order.
pub fn list_by_category() -> (r: Vec<(UnitCategory, Vec<Unit>)>)
    ensures
        r@.len() == 3,
        r@[0].0 == UnitCategory::Length,
        r@[1].0 == UnitCategory::Temperature,
        r@[2].0 == UnitCategory::Mass,
        forall|k: int| 0 <= k < 3 ==> (#[trigger] r@[k]).1@ == spec_units_in(r@[k].0),
{
    let mut r: Vec<(UnitCategory, Vec<Unit>)> = Vec::new();
    r.push((UnitCategory::Length, units_in(UnitCategory::Length)));
    r.push((UnitCategory::Temperature, units_in(UnitCategory::Temperature)));
    r.push((UnitCategory::Mass, units_in(UnitCategory::Mass)));
    r
}

/// Whether a unit answers to an input depends only on the input's letters
/// up to ASCII case.
pub proof fn lemma_matches_ignores_case(u: Unit, s: Seq<char>, t: Seq<char>)
    requires
        same_ignoring_case(s, t),
    ensures
        u.spec_matches(s) == u.spec_matches(t),
{
    if u.spec_matches(s) {
        let i = choose|i: int|
            0 <= i < u.identifiers().len() && same_ignoring_case(#[trigger] u.identifiers()[i], s);
        let a = u.identifiers()[i];
        assert forall|k: int| 0 <= k < a.len() implies #[trigger] fold(a[k]) == fold(t[k]) by {
            assert(fold(a[k]) == fold(s[k]));
            assert(fold(s[k]) == fold(t[k]));
        }
        assert(same_ignoring_case(u.identifiers()[i], t));
    }
    if u.spec_matches(t) {
        let i = choose|i: int|
            0 <= i < u.identifiers().len() && same_ignoring_case(#[trigger] u.identifiers()[i], t);
        let a = u.identifiers()[i];
        assert forall|k: int| 0 <= k < a.len() implies #[trigger] fold(a[k]) == fold(s[k]) by {
            assert(fold(a[k]) == fold(t[k]));
            assert(fold(s[k]) == fold(t[k]));
        }
        assert(same_ignoring_case(u.identifiers()[i], s));
    }
}

} // verus!
