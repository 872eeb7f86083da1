use unit_converter::convert::{convert, ConversionError};
use unit_converter::ratio::Ratio;
use unit_converter::registry::{all_units, eq_ignoring_case, find_unit, list_by_category, units_in};
use unit_converter::units::{Unit, UnitCategory};

fn assert_approx_eq(a: f64, b: f64, epsilon: f64) {
    assert!((a - b).abs() < epsilon, "{} != {} (epsilon: {})", a, b, epsilon);
}

fn to_f64(r: Ratio) -> f64 {
    r.num as f64 / r.den as f64
}

fn convert_value(value: Ratio, from: &str, to: &str) -> Result<Ratio, ConversionError> {
    let f = find_unit(from).unwrap();
    let t = find_unit(to).unwrap();
    convert(value, f, t).map(|c| c.value)
}

#[test]
fn test_km_to_miles() {
    let km = find_unit("km").unwrap();
    let mi = find_unit("mi").unwrap();
    let base = km.to_base(Ratio::new(5, 1));
    let result = mi.from_base(base);
    assert_approx_eq(to_f64(result), 3.10686, 0.00001);
}

#[test]
fn test_celsius_to_fahrenheit() {
    let c = find_unit("C").unwrap();
    let f = find_unit("F").unwrap();
    let base = c.to_base(Ratio::new(100, 1));
    let result = f.from_base(base);
    assert_approx_eq(to_f64(result), 212.0, 0.00001);
}

#[test]
fn test_celsius_to_fahrenheit_freezing() {
    let c = find_unit("C").unwrap();
    let f = find_unit("F").unwrap();
    let base = c.to_base(Ratio::new(0, 1));
    let result = f.from_base(base);
    assert_approx_eq(to_f64(result), 32.0, 0.00001);
}

#[test]
fn test_kg_to_pounds() {
    let kg = find_unit("kg").unwrap();
    let lb = find_unit("lb").unwrap();
    let base = kg.to_base(Ratio::new(10, 1));
    let result = lb.from_base(base);
    assert_approx_eq(to_f64(result), 22.0462, 0.0001);
}

#[test]
fn test_mg_to_kg() {
    let mg = find_unit("mg").unwrap();
    let kg = find_unit("kg").unwrap();
    let base = mg.to_base(Ratio::new(1000000, 1));
    let result = kg.from_base(base);
    assert_approx_eq(to_f64(result), 1.0, 0.00001);
}

#[test]
fn test_g_to_mg() {
    let g = find_unit("g").unwrap();
    let mg = find_unit("mg").unwrap();
    let base = g.to_base(Ratio::new(1, 1));
    let result = mg.from_base(base);
    assert_approx_eq(to_f64(result), 1000.0, 0.00001);
}

#[test]
fn test_unit_matching_case_insensitive() {
    assert!(find_unit("KM").is_some());
    assert!(find_unit("MeTErs").is_some());
    assert!(find_unit("FAHRENHEIT").is_some());
}

#[test]
fn test_unit_aliases() {
    assert!(find_unit("kilometer").is_some());
    assert!(find_unit("kilometres").is_some());
    assert!(find_unit("celsius").is_some());
}

#[test]
fn test_same_unit_conversion() {
    let m = find_unit("m").unwrap();
    let base = m.to_base(Ratio::new(100, 1));
    let result = m.from_base(base);
    assert_approx_eq(to_f64(result), 100.0, 0.00001);
}

#[test]
fn test_kelvin_to_celsius() {
    let k = find_unit("K").unwrap();
    let c = find_unit("C").unwrap();
    let base = k.to_base(Ratio::new(27315, 100));
    let result = c.from_base(base);
    assert_approx_eq(to_f64(result), 0.0, 0.00001);
}

#[test]
fn convert_km_to_miles() {
    let r = convert_value(Ratio::new(5, 1), "km", "mi").unwrap();
    assert_approx_eq(to_f64(r), 3.10686, 0.00001);
}

#[test]
fn convert_celsius_boiling_and_freezing() {
    let r = convert_value(Ratio::new(100, 1), "C", "F").unwrap();
    assert_approx_eq(to_f64(r), 212.0, 0.00001);
    let r = convert_value(Ratio::new(0, 1), "C", "F").unwrap();
    assert_approx_eq(to_f64(r), 32.0, 0.00001);
}

#[test]
fn convert_kg_to_pounds_and_mg_to_kg() {
    let r = convert_value(Ratio::new(10, 1), "kg", "lb").unwrap();
    assert_approx_eq(to_f64(r), 22.0462, 0.0001);
    let r = convert_value(Ratio::new(1000000, 1), "mg", "kg").unwrap();
    assert_approx_eq(to_f64(r), 1.0, 0.00001);
}

#[test]
fn convert_kelvin_to_celsius_is_exact() {
    let r = convert_value(Ratio::new(27315, 100), "K", "C").unwrap();
    assert_eq!(r.num, 0);
}

#[test]
fn convert_fahrenheit_to_celsius_exact_value() {
    // (212 - 32) * 5 / 9 = 100
    let r = convert_value(Ratio::new(212, 1), "F", "C").unwrap();
    assert_eq!(r.num, 100 * r.den);
}

#[test]
fn convert_exact_fraction_for_feet() {
    // 1 ft in meters is 3048 / 10000
    let r = convert_value(Ratio::new(1, 1), "ft", "m").unwrap();
    assert_eq!(r.num * 10000, 3048 * r.den);
}

#[test]
fn convert_ounces_to_grams() {
    let r = convert_value(Ratio::new(16, 1), "oz", "g").unwrap();
    assert_approx_eq(to_f64(r), 453.59237, 1e-9);
}

#[test]
fn unknown_unit_is_none() {
    assert_eq!(find_unit("bogus"), None);
    assert_eq!(find_unit(""), None);
    assert_eq!(find_unit("kmm"), None);
}

#[test]
fn spellings_of_kilometer_agree() {
    let km = find_unit("km");
    assert_eq!(km, Some(Unit::Kilometer));
    assert_eq!(find_unit("KM"), km);
    assert_eq!(find_unit("kilometers"), km);
    assert_eq!(find_unit("Kilometre"), km);
}

#[test]
fn alias_with_space_resolves() {
    assert_eq!(find_unit("Metric Ton"), Some(Unit::Ton));
    assert_eq!(find_unit("centigrade"), Some(Unit::Celsius));
}

#[test]
fn every_identifier_resolves_to_its_own_unit() {
    for u in all_units() {
        assert_eq!(find_unit(u.name()), Some(u));
        assert_eq!(find_unit(&u.name().to_uppercase()), Some(u));
        for a in u.aliases() {
            assert_eq!(find_unit(a), Some(u));
            assert_eq!(find_unit(&a.to_uppercase()), Some(u));
        }
    }
}

#[test]
fn category_mismatch_is_reported_for_every_pair() {
    for f in all_units() {
        for t in all_units() {
            let r = convert(Ratio::new(1, 1), f, t);
            if f.category() != t.category() {
                assert_eq!(
                    r,
                    Err(ConversionError::CategoryMismatch {
                        from_category: f.category(),
                        to_category: t.category(),
                    })
                );
            } else {
                assert!(r.is_ok());
            }
        }
    }
}

#[test]
fn mismatch_carries_both_categories() {
    let r = convert(Ratio::new(3, 1), Unit::Kilogram, Unit::Meter);
    assert_eq!(
        r,
        Err(ConversionError::CategoryMismatch {
            from_category: UnitCategory::Mass,
            to_category: UnitCategory::Length,
        })
    );
}

#[test]
fn absolute_zero_boundaries() {
    assert!(convert_value(Ratio::new(-27315, 100), "C", "F").is_ok());
    assert_eq!(
        convert_value(Ratio::new(-27316, 100), "C", "F"),
        Err(ConversionError::BelowAbsoluteZero)
    );
    assert!(convert_value(Ratio::new(0, 1), "K", "C").is_ok());
    assert_eq!(
        convert_value(Ratio::new(-1, 1000), "K", "C"),
        Err(ConversionError::BelowAbsoluteZero)
    );
    assert!(convert_value(Ratio::new(-45967, 100), "F", "K").is_ok());
    assert_eq!(
        convert_value(Ratio::new(-45968, 100), "F", "K"),
        Err(ConversionError::BelowAbsoluteZero)
    );
}

#[test]
fn absolute_zero_in_every_scale_is_zero_kelvin() {
    let r = convert_value(Ratio::new(-45967, 100), "F", "K").unwrap();
    assert_eq!(r.num, 0);
    let r = convert_value(Ratio::new(-27315, 100), "C", "K").unwrap();
    assert_eq!(r.num, 0);
}

#[test]
fn negative_length_warns_but_converts() {
    let c = convert(Ratio::new(-5, 1), Unit::Kilometer, Unit::Meter).unwrap();
    assert!(c.negative_length);
    assert_eq!(c.value.num, -5000 * c.value.den);
    let c = convert(Ratio::new(5, 1), Unit::Kilometer, Unit::Meter).unwrap();
    assert!(!c.negative_length);
}

#[test]
fn negative_mass_is_not_checked() {
    let c = convert(Ratio::new(-5, 1), Unit::Kilogram, Unit::Gram).unwrap();
    assert!(!c.negative_length);
    assert_eq!(c.value.num, -5000 * c.value.den);
}

#[test]
fn round_trip_through_base_for_every_unit() {
    let q = Ratio::new(-7, 3);
    for u in all_units() {
        let back = u.from_base(u.to_base(q));
        assert_eq!(back.num * q.den, q.num * back.den);
    }
}

#[test]
fn identity_conversion_returns_input() {
    let q = Ratio::new(123, 10);
    for u in all_units() {
        let c = convert(q, u, u).unwrap();
        assert_eq!(c.value.num * q.den, q.num * c.value.den);
    }
}

#[test]
fn largest_inputs_convert_without_overflow() {
    let q = Ratio::new(i64::MIN, i64::MAX);
    let r = convert(q, Unit::Ounce, Unit::Ounce).unwrap();
    assert_eq!(r.value.num * q.den as i128, q.num as i128 * r.value.den);
    let q = Ratio::new(i64::MAX, 1);
    assert!(convert(q, Unit::Kelvin, Unit::Fahrenheit).is_ok());
}

#[test]
fn categories_group_in_table_order() {
    let groups = list_by_category();
    assert_eq!(groups.len(), 3);
    assert_eq!(groups[0].0, UnitCategory::Length);
    assert_eq!(groups[1].0, UnitCategory::Temperature);
    assert_eq!(groups[2].0, UnitCategory::Mass);
    assert_eq!(groups[1].1, vec![Unit::Celsius, Unit::Fahrenheit, Unit::Kelvin]);
    assert_eq!(groups[0].1.len(), 8);
    assert_eq!(groups[2].1.len(), 6);
    assert_eq!(units_in(UnitCategory::Mass)[5], Unit::Ton);
}

#[test]
fn names_and_aliases() {
    assert_eq!(Unit::Kelvin.name(), "K");
    assert_eq!(Unit::Ton.aliases(), vec!["tons", "tonne", "tonnes", "metric ton"]);
    assert_eq!(all_units().len(), 17);
}

#[test]
fn case_folding_is_ascii_only() {
    assert!(eq_ignoring_case("MeTrE", "metre"));
    assert!(!eq_ignoring_case("metre", "metr"));
    assert!(!eq_ignoring_case("É", "é"));
    assert!(eq_ignoring_case("", ""));
}
