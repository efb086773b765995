use calculum_lang::dimension::{Dimension, UnitPrefix};
use calculum_lang::tables::{METRIC_UNIT_ATOMS, NON_METRIC_UNIT_ATOMS, PREFIXES};
use calculum_lang::unit::{Unit, Units};

#[test]
fn it_tokenizes_prefixes_on_metric_units() {
    for prefix in PREFIXES {
        for metric_atom in METRIC_UNIT_ATOMS {
            let unit = String::from(prefix) + metric_atom;
            assert_eq!(
                Unit {
                    prefix: prefix.to_string(),
                    atom: metric_atom.to_string(),
                    exp: 1,
                    annotation: None
                },
                Unit::new(unit, 1, None),
            );
        }
    }
}

#[test]
fn it_ignores_prefixes_on_metric_units() {
    for atom in NON_METRIC_UNIT_ATOMS {
        assert_eq!(
            Unit { prefix: "".to_string(), atom: atom.to_string(), exp: 1, annotation: None },
            Unit::new(atom.to_string(), 1, None),
        );
    }
}

fn unit(prefix: &str, atom: &str, exp: i8) -> Unit {
    Unit { prefix: prefix.to_string(), atom: atom.to_string(), exp, annotation: None }
}

#[test]
fn the_empty_symbol_is_an_empty_atom() {
    assert_eq!(Unit::new(String::new(), 1, None), unit("", "", 1));
}

#[test]
fn a_prefix_alone_is_an_atom() {
    // `k` is a prefix, but nothing is left for an atom.
    assert_eq!(Unit::new("k".to_string(), 1, None), unit("", "k", 1));
    assert_eq!(Unit::new("da".to_string(), 1, None), unit("", "da", 1));
}

#[test]
fn the_shortest_prefix_wins_only_before_a_metric_atom() {
    // `m` is a prefix, but `ol` is no metric atom.
    assert_eq!(Unit::new("mol".to_string(), 2, None), unit("", "mol", 2));
    assert_eq!(Unit::new("kmol".to_string(), 1, None), unit("k", "mol", 1));
    // `m` is not among the prefixes that are split off.
    assert_eq!(Unit::new("mmol".to_string(), 1, None), unit("", "mmol", 1));
    // `d` is a prefix and `am` no atom: the split comes after `da`.
    assert_eq!(Unit::new("dam".to_string(), 1, None), unit("da", "m", 1));
    // `cd` is the candela, not a centi-day: the day takes no prefix.
    assert_eq!(Unit::new("cd".to_string(), 1, None), unit("", "cd", 1));
    assert_eq!(Unit::new("[in_i]".to_string(), 1, None), unit("", "[in_i]", 1));
    assert_eq!(Unit::new("km[Hg]".to_string(), 1, None), unit("k", "m[Hg]", 1));
}

#[test]
fn the_annotation_is_kept() {
    let u = Unit::new("kg".to_string(), -3, Some("wet".to_string()));
    assert_eq!(
        u,
        Unit {
            prefix: "k".to_string(),
            atom: "g".to_string(),
            exp: -3,
            annotation: Some("wet".to_string())
        }
    );
}

#[test]
fn inverting_negates_the_exponent() {
    let u = Unit::new("km".to_string(), 3, Some("x".to_string()));
    let v = u.invert();
    assert_eq!(v.exp, -3);
    assert_eq!(v.prefix, "k");
    assert_eq!(v.atom, "m");
    assert_eq!(v.annotation, Some("x".to_string()));
}

#[test]
fn inverting_twice_gives_the_unit_back() {
    for exp in [-127i8, -2, -1, 0, 1, 5, 127] {
        let u = Unit::new("kmol".to_string(), exp, Some("a".to_string()));
        assert_eq!(u.invert().invert(), u);
    }
}

#[test]
fn the_symbol_joins_prefix_and_atom() {
    assert_eq!(unit("k", "g", 1).unit(), "kg");
    assert_eq!(unit("", "[ft_i]", 2).unit(), "[ft_i]");
}

#[test]
fn the_same_unit_has_the_same_prefix_and_atom() {
    assert!(unit("k", "g", 1).has_same_unit(&unit("k", "g", -4)));
    assert!(unit("k", "g", 1).has_same_unit(&unit("k", "g", 7)));
    assert!(!unit("k", "g", 1).has_same_unit(&unit("", "g", 1)));
    assert!(!unit("k", "g", 1).has_same_unit(&unit("k", "m", 1)));
    // the same characters, split otherwise, are another unit
    assert!(!unit("", "kg", 1).has_same_unit(&unit("k", "g", 1)));
    assert!(!unit("d", "ar", 1).has_same_unit(&unit("", "dar", 1)));
    assert!(!unit("d", "ar", 1).has_same_unit(&unit("da", "r", 1)));
    // exponent and annotation play no part
    let u = Unit::new("km".to_string(), 3, Some("x".to_string()));
    assert!(u.has_same_unit(&u.invert()));
    assert!(u.has_same_unit(&Unit::new("km".to_string(), 1, None)));
}

#[test]
fn a_unit_is_written_with_its_exponent() {
    assert_eq!(unit("k", "g", 1).to_string(), "kg1");
    assert_eq!(unit("", "s", -2).to_string(), "s-2");
    assert_eq!(unit("", "m", -128).to_string(), "m-128");
    assert_eq!(unit("", "m", 127).to_string(), "m127");
    assert_eq!(unit("", "m", 0).to_string(), "m0");
    assert_eq!(unit("", "m", 10).to_string(), "m10");
    assert_eq!(unit("", "m", -100).to_string(), "m-100");
}

#[test]
fn units_are_written_as_a_term() {
    let units = vec![unit("k", "g", 1), unit("", "m", 1), unit("", "s", -2)];
    assert_eq!(Units(&units).to_string(), "kg.m.s-2");
    let none: Vec<Unit> = vec![];
    assert_eq!(Units(&none).to_string(), "");
    let one = vec![unit("", "m", 3)];
    assert_eq!(Units(&one).to_string(), "m3");
    // While nothing has been written, no period is put.
    let odd = vec![unit("", "", 1), unit("", "m", 1)];
    assert_eq!(Units(&odd).to_string(), "m");
}

#[test]
fn bare_units_have_no_prefix() {
    assert_eq!(Unit::new_atomic("km"), unit("", "km", 1));
    assert_eq!(Unit::new_bare("s", -2), unit("", "s", -2));
    assert_eq!(Unit::new_metric(UnitPrefix::Kilo, "g", 2), unit("k", "g", 2));
    assert_eq!(Unit::new_metric(UnitPrefix::One, "g", 2), unit("", "g", 2));
    assert_eq!(Unit::new_metric(UnitPrefix::Deca, "m", 1), unit("da", "m", 1));
    // an inch takes no prefix
    assert_eq!(Unit::new_metric(UnitPrefix::Kilo, "[in_i]", 1), unit("", "[in_i]", 1));
}

#[test]
fn prefixes_have_symbols_and_exponents() {
    assert_eq!(UnitPrefix::Yotta.symbol(), "Y");
    assert_eq!(UnitPrefix::Yotta.exponent(), 24);
    assert_eq!(UnitPrefix::Centi.symbol(), "c");
    assert_eq!(UnitPrefix::Centi.exponent(), -2);
    assert_eq!(UnitPrefix::One.symbol(), "");
    assert_eq!(UnitPrefix::One.exponent(), 0);
    assert_eq!(UnitPrefix::Yocto.exponent(), -24);
}

#[test]
fn metric_and_base_atoms_are_told_apart() {
    assert!(unit("k", "g", 1).is_metric());
    assert!(unit("", "N", 1).is_metric());
    assert!(!unit("", "[in_i]", 1).is_metric());
    assert!(unit("k", "g", 1).is_base());
    assert!(unit("", "m", 1).is_base());
    assert!(!unit("", "N", 1).is_base());
    assert!(!unit("", "nothing", 1).is_base());
}

#[test]
fn dimensions_of_base_units() {
    assert_eq!(unit("", "s", 1).dimension(), Dimension::Time);
    assert_eq!(unit("k", "m", 1).dimension(), Dimension::Length);
    assert_eq!(unit("k", "g", 1).dimension(), Dimension::Mass);
    assert_eq!(unit("", "C", 1).dimension(), Dimension::Charge);
    assert_eq!(unit("", "K", 1).dimension(), Dimension::Temp);
    assert_eq!(unit("", "mol", 1).dimension(), Dimension::Amount);
    assert_eq!(unit("", "cd", 1).dimension(), Dimension::Luminosity);
    assert_eq!(unit("", "N", 1).dimension(), Dimension::Force);
    assert_eq!(unit("", "[ft_i]", 1).dimension(), Dimension::Other("[ft_i]".to_string()));
    assert!(unit("k", "m", 1).is_compatible(&unit("", "m", 3)));
    assert!(!unit("", "m", 1).is_compatible(&unit("", "s", 1)));
    assert!(Dimension::Other("a".to_string()).same(&Dimension::Other("a".to_string())));
    assert!(!Dimension::Other("a".to_string()).same(&Dimension::Other("b".to_string())));
    assert!(!Dimension::Time.same(&Dimension::Mass));
}

#[test]
fn dimensions_have_base_units() {
    assert_eq!(Dimension::Time.to_base_units(), vec![unit("", "s", 1)]);
    assert_eq!(Dimension::Mass.to_base_units(), vec![unit("", "g", 1)]);
    assert_eq!(
        Dimension::Force.to_base_units(),
        vec![unit("k", "g", 1), unit("", "m", 1), unit("", "s", -2)]
    );
    assert_eq!(Dimension::Other("x".to_string()).to_base_units(), vec![unit("", "x", 1)]);
}
