use calculum_lang::error::Error;
use calculum_lang::lexer::Tokenizer;
use calculum_lang::magnitude::Magnitude;
use calculum_lang::parser::Parser;
use calculum_lang::tables::CONVERSIONS;
use calculum_lang::term::UnitTerm;
use calculum_lang::unit::Unit;

fn unit(prefix: &str, atom: &str, exp: i8) -> Unit {
    Unit { prefix: prefix.to_string(), atom: atom.to_string(), exp, annotation: None }
}

fn term(s: &str) -> UnitTerm {
    UnitTerm::new(s).unwrap()
}

fn shown(s: &str) -> String {
    term(s).to_string()
}

#[test]
fn the_empty_text_is_the_term_without_units() {
    let t = term("");
    assert_eq!(t.units, vec![]);
    assert_eq!(t.mag, Magnitude::one());
}

#[test]
fn units_are_sorted_by_atom_then_prefix() {
    assert_eq!(shown("s.m.kg"), "kg.m.s");
    assert_eq!(shown("km.m.cm"), "m.cm.km");
    assert_eq!(shown("m.km.m.km"), "m2.km2");
    assert_eq!(term("km.m").units, vec![unit("", "m", 1), unit("k", "m", 1)]);
    assert_eq!(term("km.m").units, term("m.km").units);
}

#[test]
fn exponents_of_the_same_unit_add_up_and_zeros_go() {
    assert_eq!(shown("m/m"), "");
    assert_eq!(shown("m2/m.s/s"), "m");
    assert_eq!(shown("km.m/km.m-1.km"), "km");
    assert_eq!(shown("m0"), "");
    assert_eq!(term("m127/m127.m-128.m1").units, vec![unit("", "m", -127)]);
}

#[test]
fn the_first_annotation_of_a_unit_stays() {
    let t = term("m{a}.m{b}");
    assert_eq!(
        t.units,
        vec![Unit {
            prefix: "".to_string(),
            atom: "m".to_string(),
            exp: 2,
            annotation: Some("a".to_string())
        }]
    );
}

#[test]
fn a_sum_of_exponents_out_of_range_is_a_numeric_error() {
    assert_eq!(UnitTerm::new("m127.m").err(), Some(Error::Numeric));
    assert_eq!(UnitTerm::new("m-128/m").err(), Some(Error::Numeric));
    assert_eq!(UnitTerm::new("/m-128").err(), Some(Error::Numeric));
    assert_eq!(UnitTerm::new("m127.m.m-1").unwrap().units, vec![unit("", "m", 127)]);
    assert_eq!(
        UnitTerm::normalize_units(vec![unit("", "m", 100), unit("", "m", 100)]),
        Err(Error::Numeric)
    );
    assert_eq!(
        UnitTerm::normalize_units(vec![
            unit("", "m", 100),
            unit("", "m", 100),
            unit("", "m", -100)
        ]),
        Ok(vec![unit("", "m", 100)])
    );
}

#[test]
fn whole_numbers_make_the_magnitude() {
    assert_eq!(term("10.m").mag, Magnitude::from_int(10));
    assert_eq!(term("10.m/4").mag, Magnitude::ratio(5, 2).unwrap());
    assert_eq!(term("/24").mag, Magnitude::ratio(1, 24).unwrap());
    assert_eq!(term("-3.m/-6").mag, Magnitude::ratio(1, 2).unwrap());
    assert_eq!(term("2.3.5").mag, Magnitude::from_int(30));
    assert_eq!(term("0.m").mag, Magnitude::from_int(0));
    assert_eq!(UnitTerm::new("m/0").err(), Some(Error::Numeric));
}

#[test]
fn a_slash_wants_a_unit_or_a_number() {
    assert_eq!(UnitTerm::new("m/").err(), Some(Error::Parse));
    assert_eq!(UnitTerm::new("m//s").err(), Some(Error::Parse));
    assert_eq!(UnitTerm::new("m/.s").err(), Some(Error::Parse));
    assert_eq!(UnitTerm::new("m/}").err(), Some(Error::Lexical));
    assert_eq!(UnitTerm::new("m.}").err(), Some(Error::Lexical));
    assert_eq!(UnitTerm::new("m/300").err(), Some(Error::Numeric));
    // the first error in the text is the one that is told
    assert_eq!(UnitTerm::new("m//}").err(), Some(Error::Parse));
    assert_eq!(UnitTerm::new("128.m//").err(), Some(Error::Numeric));
    assert_eq!(shown("/s"), "s-1");
    assert_eq!(shown("m/s/s"), "m.s-2");
    assert_eq!(shown("m/s.kg"), "kg.m.s-1");
}

#[test]
fn the_parser_gives_one_unit_at_a_time() {
    let mut p = Parser::new(Tokenizer::new("2.m/s/4.kg"));
    assert_eq!(p.next(), Ok(Some(unit("", "m", 1))));
    assert_eq!(p.mag, Magnitude::from_int(2));
    assert_eq!(p.next(), Ok(Some(unit("", "s", -1))));
    assert_eq!(p.next(), Ok(Some(unit("k", "g", 1))));
    assert_eq!(p.mag, Magnitude::ratio(1, 2).unwrap());
    assert_eq!(p.next(), Ok(None));

    let mut p = Parser::new(Tokenizer::new("m"));
    assert_eq!(p.mul_i(3), Ok(Some(unit("", "m", 1))));
    assert_eq!(p.mag, Magnitude::from_int(3));
    let mut p = Parser::new(Tokenizer::new("s2"));
    assert_eq!(p.div_i(3), Ok(Some(unit("", "s", 2))));
    assert_eq!(p.mag, Magnitude::ratio(1, 3).unwrap());
    let mut p = Parser::new(Tokenizer::new("s2"));
    assert_eq!(p.div_i(0), Err(Error::Numeric));
    let mut p = Parser::new(Tokenizer::new("s2"));
    assert_eq!(p.div_next(), Ok(Some(unit("", "s", -2))));
    let mut p = Parser::new(Tokenizer::new(""));
    assert_eq!(p.div_next(), Err(Error::Parse));
}

#[test]
fn inverting_a_term_negates_every_exponent() {
    let mut t = term("2.kg.m/s2");
    t.invert();
    assert_eq!(t.units, vec![unit("k", "g", -1), unit("", "m", -1), unit("", "s", 2)]);
    assert_eq!(t.mag, Magnitude::from_int(2));
    t.invert();
    assert_eq!(t.units, term("kg.m/s2").units);
}

#[test]
fn a_product_does_not_depend_on_the_order() {
    for (a, b) in [("kg.m/s2", "s/m"), ("km", "m"), ("m{a}", "m{b}.s"), ("", "m"), ("N", "N-1")] {
        let mut ab = term(a);
        ab.mul_assign(term(b)).unwrap();
        let mut ba = term(b);
        ba.mul_assign(term(a)).unwrap();
        assert_eq!(ab.to_string(), ba.to_string());
        assert_eq!(ab, ba);
    }
    let mut t = term("kg.m/s2");
    t.mul_assign(term("s/m")).unwrap();
    assert_eq!(t.to_string(), "kg.s-1");
    let mut big = term("m127");
    assert_eq!(big.mul_assign(term("m")), Err(Error::Numeric));
    assert_eq!(big.to_string(), "m127");
}

#[test]
fn a_term_divided_by_itself_has_no_units() {
    for a in ["kg.m/s2", "km.m", "N/m2", "m{a}.s-3", ""] {
        let mut t = term(a);
        t.div_assign(term(a)).unwrap();
        assert_eq!(t.units, vec![]);
    }
    let mut t = term("kg.m/s2");
    t.div_assign(term("m/s")).unwrap();
    assert_eq!(t.to_string(), "kg.s-1");
    let mut t = term("m");
    assert_eq!(t.div_assign(term("s-128")), Err(Error::Numeric));
    assert_eq!(t.to_string(), "m");
}

#[test]
fn adding_checks_the_units_and_changes_nothing() {
    let mut t = term("kg.m/s2");
    assert_eq!(t.add_assign(term("N")), Ok(()));
    assert_eq!(t.to_string(), "kg.m.s-2");
    assert_eq!(t.add_assign(term("kg.m/s")), Err(Error::DimensionMismatch));
    assert_eq!(t.sub_assign(term("N")), Ok(()));
    assert_eq!(t.sub_assign(term("J")), Err(Error::DimensionMismatch));
    // a prefix on a base unit stays: kilometres are not metres
    assert_eq!(term("km").add_assign(term("m")), Err(Error::DimensionMismatch));
    // a prefix on a unit that is reduced goes
    assert_eq!(term("kN").add_assign(term("N")), Ok(()));
}

#[test]
fn reduction_goes_down_to_base_units() {
    let base = |s: &str| -> String {
        calculum_lang::unit::Units(&term(s).as_base_units().unwrap()).to_string()
    };
    assert_eq!(base("N"), "kg.m.s-2");
    assert_eq!(base("Pa"), "kg.m-1.s-2");
    assert_eq!(base("J"), "kg.m2.s-2");
    assert_eq!(base("W"), "kg.m2.s-3");
    assert_eq!(base("dyn"), "g.cm.s-2");
    assert_eq!(base("km"), "km");
    assert_eq!(base("kN"), "kg.m.s-2");
    assert_eq!(base("[ft_i]"), "cm");
    assert_eq!(base("h"), "s");
    // the exponent of a unit goes to every unit of its definition
    assert_eq!(base("N2"), "kg2.m2.s-4");
    assert_eq!(base("/N"), "kg-1.m-1.s2");
    assert_eq!(base("S"), base("/Ohm"));
    assert_eq!(base("[sin_i]"), "cm2");
    // what the conversions do not have, or define by a function, stays
    assert_eq!(base("Cel"), "Cel");
    assert_eq!(base("[pi]"), "[pi]");
    assert_eq!(base("mol"), "mol");
    assert_eq!(base("xyz"), "xyz");
    assert_eq!(base("[S]"), "[S]");
}

#[test]
fn reduction_gathers_the_factors_of_prefixes() {
    let r = term("kN").reduce().unwrap();
    assert_eq!(r.to_string(), "kg.m.s-2");
    assert_eq!(r.mag, Magnitude::from_int(1000));
    let r = term("5.cN2").reduce().unwrap();
    assert_eq!(r.to_string(), "kg2.m2.s-4");
    assert_eq!(r.mag, Magnitude::ratio(5, 10000).unwrap());
    let r = term("/kN").reduce().unwrap();
    assert_eq!(r.mag, Magnitude::ratio(1, 1000).unwrap());
    let r = term("KiBy").reduce().unwrap();
    assert_eq!(r.to_string(), "bit");
    assert_eq!(r.mag, Magnitude::from_int(1024));
    let r = term("3.km").reduce().unwrap();
    assert_eq!(r.to_string(), "km");
    assert_eq!(r.mag, Magnitude::from_int(3));
    let r = term("N").reduce().unwrap();
    assert_eq!(r.mag, Magnitude::one());
    assert_eq!(term("YN2").reduce().err(), Some(Error::Numeric));
    assert_eq!(term("YN").reduce().unwrap().mag.numerator(), 10i128.pow(24));
}

#[test]
fn reduction_fails_on_a_definition_that_cannot_be_read() {
    assert_eq!(term("bit_s").as_base_units(), Err(Error::Reduction));
    assert_eq!(term("bit_s").reduce().err(), Some(Error::Reduction));
    assert!(term("bit_s") != term("bit_s"));
    assert_eq!(term("bit_s").equals(&term("m")), Err(Error::Reduction));
    assert_eq!(term("N64").as_base_units().map(|u| u.len()), Ok(3));
    assert_eq!(term("N65").as_base_units(), Err(Error::Numeric));
}

#[test]
fn every_atom_of_the_conversions_is_reduced_within_the_depth() {
    for (atom, _) in CONVERSIONS {
        let t = UnitTerm { mag: Magnitude::one(), units: vec![Unit::new_bare(atom, 1)] };
        let first = t.as_base_units();
        let second = t.as_base_units();
        assert_eq!(first, second);
        if atom != "bit_s" {
            assert!(first.is_ok(), "{}", atom);
        }
    }
}

#[test]
fn commensurable_terms_differ_in_prefixes_only() {
    assert_eq!(term("km/s").commensurable(&term("m/s")), Ok(true));
    assert_eq!(term("km/s").equals(&term("m/s")), Ok(false));
    assert_eq!(term("N").commensurable(&term("g.m/s2")), Ok(true));
    assert_eq!(term("N").equals(&term("g.m/s2")), Ok(false));
    assert_eq!(term("m").commensurable(&term("s")), Ok(false));
    assert_eq!(term("m2").commensurable(&term("m")), Ok(false));
    assert_eq!(term("m").equals(&term("m{a}")), Ok(true));
    assert_eq!(term("bit_s").commensurable(&term("m")), Err(Error::Reduction));
}

#[test]
fn writing_and_reading_a_term_again_gives_the_term() {
    for s in ["m.kg/s2", "N/m2", "km.m", "m{x}.s-3", "[in_i]3/h", "10.m/5s2", "", "'.\"", "%"] {
        let t = term(s);
        let again = term(&t.to_string());
        assert_eq!(again.units.len(), t.units.len());
        assert_eq!(again.to_string(), t.to_string());
        assert_eq!(again, t);
    }
}

#[test]
fn normal_forms_are_sorted_and_hold_no_unit_twice() {
    for s in [
        "s.m.kg.m.s-3.km.cm.km/m/m",
        "N.Pa.J/W.m.mm.um.m{a}.m{b}",
        "[in_i].[ft_i]2/[in_i]3.k[g].[g]",
        "z.y.x.w.x.y.z.a2.a-2",
    ] {
        let t = term(s);
        for pair in t.units.windows(2) {
            let before = (&pair[0].atom, &pair[0].prefix);
            let behind = (&pair[1].atom, &pair[1].prefix);
            assert!(before < behind, "{} in {}", t.to_string(), s);
        }
        for u in t.units.iter() {
            assert!(u.exp != 0);
        }
        // the normal form of a normal form is itself
        let again = UnitTerm::normalize_units(t.units.clone()).unwrap();
        assert_eq!(again, t.units);
    }
}

#[test]
fn reduction_gathers_the_magnitudes_of_definitions() {
    let scale = |s: &str| term(s).reduce().unwrap().mag;
    let base = |s: &str| term(s).reduce().unwrap().to_string();
    // a month is a twelfth of a year
    assert_eq!(scale("mo_j"), Magnitude::ratio(1, 12).unwrap());
    assert_eq!(base("mo_j"), "s");
    assert_eq!(scale("a_j"), Magnitude::one());
    // a carat of gold is a twenty-fourth, and has no unit
    assert_eq!(scale("[car_Au]"), Magnitude::ratio(1, 24).unwrap());
    assert_eq!(base("[car_Au]"), "");
    assert_eq!(scale("[lk_br]"), Magnitude::ratio(1, 100).unwrap());
    assert_eq!(base("[lk_br]"), "cm");
    assert_eq!(scale("[degR]"), Magnitude::ratio(1, 9).unwrap());
    assert_eq!(scale("[den]"), Magnitude::ratio(1, 9).unwrap());
    assert_eq!(base("[den]"), "g.km-1");
    // a point is a sixth of a line, which is a twelfth of an inch
    assert_eq!(scale("[pnt]"), Magnitude::ratio(1, 72).unwrap());
    // the exponent of the unit goes to the magnitude too
    assert_eq!(scale("mo_j2"), Magnitude::ratio(1, 144).unwrap());
    assert_eq!(scale("/mo_j"), Magnitude::from_int(12));
    // with a magnitude of the term itself, and beside a prefix that goes
    assert_eq!(scale("5.mo_j"), Magnitude::ratio(5, 12).unwrap());
    assert_eq!(scale("kN.[lk_br]"), Magnitude::from_int(10));
    // a definition without a number brings none
    assert_eq!(scale("N"), Magnitude::one());
    assert_eq!(scale("Oe"), Magnitude::one());
}
