use calculum_lang::dimension::{sort_units, UnitPrefix, Units};
use calculum_lang::unit::Unit;

#[test]
fn lib_it_normalizes_si_base_unit_order() {
    let m = || Unit::new_bare("m", 1);
    // SI uses kg as its base, but that's ridiculous.
    let g = || Unit::new_bare("g", 1);
    let s2 = || Unit::new_bare("s", -2);

    let us1 = Units::new(vec![m(), g(), s2()]);
    let us2 = Units::new(vec![g(), s2(), m()]);
    let us3 = Units::new(vec![s2(), m(), g()]);
    let us4 = Units::new(vec![s2(), g(), m()]);

    assert_eq!(us1, us2);
    assert_eq!(us1, us3);
    assert_eq!(us1, us4);
    assert_eq!(us2, us3);
    assert_eq!(us2, us4);
    assert_eq!(us3, us4);
}

#[test]
fn units_it_normalizes_si_base_unit_order() {
    let _value = 1;

    let m = || Unit::new_bare("m", 1);
    // SI uses kg as its base, but that's ridiculous.
    let g = || Unit::new_bare("g", 1);
    let s2 = || Unit::new_bare("s", -2);

    let us1 = Units::new(vec![m(), g(), s2()]);
    let us2 = Units::new(vec![g(), s2(), m()]);
    let us3 = Units::new(vec![s2(), m(), g()]);
    let us4 = Units::new(vec![s2(), g(), m()]);

    assert_eq!(us1, us2);
    assert_eq!(us1, us3);
    assert_eq!(us1, us4);
    assert_eq!(us2, us3);
    assert_eq!(us2, us4);
    assert_eq!(us3, us4);
}

#[test]
fn lib_it_ignores_prefixes_when_detecting_similarity() {
    let m = || Unit::new_bare("m", 1);
    let cm = || Unit::new_metric(UnitPrefix::Centi, "m", 1);
    let km = || Unit::new_metric(UnitPrefix::Kilo, "m", 1);

    assert!(m().is_similar(&cm()));
    assert!(cm().is_similar(&m()));
    assert!(cm().is_similar(&km()));
    assert!(km().is_similar(&cm()));
}

#[test]
fn units_it_ignores_prefixes_when_detecting_similarity() {
    let m = || Unit::new_bare("m", 1);
    let cm = || Unit::new_metric(UnitPrefix::Centi, "m", 1);
    let km = || Unit::new_metric(UnitPrefix::Kilo, "m", 1);

    assert!(m().is_similar(&cm()));
    assert!(cm().is_similar(&m()));
    assert!(cm().is_similar(&km()));
    assert!(km().is_similar(&cm()));
}

#[test]
fn similar_units_have_the_same_exponent() {
    assert!(!Unit::new_bare("m", 1).is_similar(&Unit::new_bare("m", 2)));
    assert!(!Unit::new_bare("m", 1).is_similar(&Unit::new_bare("s", 1)));
}

#[test]
fn lib_it_normalizes_si_unit_aliases() {
    let m = || Unit::new_atomic("m");
    let g = || Unit::new_atomic("g");
    let s2 = || Unit::new_bare("s", -2);
    let n = || Unit::new_bare("N", 1);

    let us1 = Units::new(vec![n()]);
    let us2 = Units::new(vec![g(), m(), s2()]);

    assert_eq!(us1, us2);

    let _us3 = Units::new(vec![n(), m()]);
    let _us4 = Units::new(vec![g(), m(), s2(), m()]);
}

#[test]
fn aliases_with_more_units_measure_the_same() {
    let m = || Unit::new_atomic("m");
    let g = || Unit::new_atomic("g");
    let s2 = || Unit::new_bare("s", -2);
    let n = || Unit::new_bare("N", 1);
    let us3 = Units::new(vec![n(), m()]);
    let us4 = Units::new(vec![g(), m(), s2(), m()]);
    assert_eq!(us3, us4);
}

#[test]
fn units_it_normalizes_si_unit_aliases() {
    let _value = 1;

    let m = || Unit::new_atomic("m");
    let g = || Unit::new_atomic("g");
    let s2 = || Unit::new_bare("s", -2);
    let n = || Unit::new_bare("N", 1);

    let us1 = Units::new(vec![n()]);
    let us2 = Units::new(vec![g(), m(), s2()]);

    assert_eq!(us1, us2);

    let _us3 = Units::new(vec![n(), m()]);
    let _us4 = Units::new(vec![g(), m(), s2(), m()]);
}

#[test]
fn no_units_are_dimensionless() {
    assert_eq!(Units::new(vec![]), Ok(Units::DimLess));
    assert_eq!(
        Units::new(vec![Unit::new_bare("m", 1), Unit::new_bare("m", -1)]),
        Ok(Units::DimLess)
    );
    assert_eq!(
        Units::new(vec![Unit::new_bare("m", 1)]),
        Ok(Units::Dim(vec![Unit::new_bare("m", 1)]))
    );
    assert_eq!(
        Units::new(vec![Unit::new_metric(UnitPrefix::Kilo, "N", 2), Unit::new_bare("cm", 1)]),
        Ok(Units::Dim(vec![
            Unit::new_bare("cm", 1),
            Unit::new_bare("g", 2),
            Unit::new_bare("m", 2),
            Unit::new_bare("s", -4)
        ]))
    );
    assert_eq!(
        Units::new(vec![Unit::new_metric(UnitPrefix::Kilo, "m", 1), Unit::new_bare("m", 1)]),
        Ok(Units::Dim(vec![Unit::new_bare("m", 2)]))
    );
    assert_eq!(
        Units::new(vec![Unit::new_bare("bit_s", 1)]),
        Err(calculum_lang::error::Error::Reduction)
    );
    assert!(Units::new(vec![Unit::new_bare("m", 1)]) != Units::new(vec![Unit::new_bare("s", 1)]));
}

#[test]
fn sorting_goes_by_atom_then_prefix_and_keeps_equal_units_in_place() {
    let km = |e| Unit::new_metric(UnitPrefix::Kilo, "m", e);
    let m = |e| Unit::new_bare("m", e);
    let g = |e| Unit::new_bare("g", e);
    let sorted = sort_units(vec![km(1), m(1), g(1), km(2), m(2), g(2)]);
    assert_eq!(sorted, vec![g(1), g(2), m(1), m(2), km(1), km(2)]);
    assert_eq!(sort_units(vec![]), vec![]);
}
