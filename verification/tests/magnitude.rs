use calculum_lang::expression::{interpret, Quantity};
use calculum_lang::magnitude::Magnitude;
use calculum_lang::term::UnitTerm;

fn ratio(n: i128, d: i128) -> Magnitude {
    Magnitude::ratio(n, d).unwrap()
}

fn decimal(s: &str) -> Option<Magnitude> {
    let chars: Vec<char> = s.chars().collect();
    Magnitude::from_decimal(&chars, 0, chars.len())
}

#[test]
fn a_ratio_is_kept_in_lowest_terms() {
    assert_eq!(ratio(2, 4).numerator(), 1);
    assert_eq!(ratio(2, 4).denominator(), 2);
    assert_eq!(ratio(-6, 4).numerator(), -3);
    assert_eq!(ratio(-6, 4).denominator(), 2);
    assert_eq!(ratio(6, -4).numerator(), -3);
    assert_eq!(ratio(6, -4).denominator(), 2);
    assert_eq!(ratio(0, 7).numerator(), 0);
    assert_eq!(ratio(0, 7).denominator(), 1);
    assert_eq!(ratio(7, 1), Magnitude::from_int(7));
    assert_eq!(Magnitude::ratio(1, 0), None);
    assert_eq!(Magnitude::ratio(i128::MIN, 1), None);
    assert_eq!(Magnitude::ratio(1, i128::MIN), None);
    assert!(ratio(1, 2).same(&ratio(3, 6)));
    assert!(!ratio(1, 2).same(&ratio(1, 3)));
}

#[test]
fn magnitudes_are_added_and_multiplied_exactly() {
    assert_eq!(ratio(1, 2).checked_add(&ratio(1, 3)), Some(ratio(5, 6)));
    assert_eq!(ratio(1, 10).checked_add(&ratio(2, 10)), Some(ratio(3, 10)));
    assert_eq!(ratio(1, 2).checked_sub(&ratio(1, 3)), Some(ratio(1, 6)));
    assert_eq!(ratio(1, 3).checked_sub(&ratio(1, 2)), Some(ratio(-1, 6)));
    assert_eq!(ratio(2, 3).checked_mul(&ratio(3, 4)), Some(ratio(1, 2)));
    assert_eq!(ratio(2, 3).checked_div(&ratio(4, 3)), Some(ratio(1, 2)));
    assert_eq!(ratio(2, 3).checked_div(&ratio(-4, 3)), Some(ratio(-1, 2)));
    assert_eq!(ratio(2, 3).checked_div(&ratio(0, 1)), None);
    assert_eq!(ratio(i128::MAX, 1).checked_mul(&ratio(2, 1)), None);
    assert_eq!(ratio(i128::MAX, 1).checked_add(&ratio(1, 1)), None);
    assert_eq!(ratio(-i128::MAX, 1).checked_sub(&ratio(1, 1)), None);
    assert_eq!(ratio(1, i128::MAX).checked_mul(&ratio(1, 2)), None);
}

#[test]
fn powers_of_magnitudes() {
    assert_eq!(ratio(2, 3).checked_pow(0), Some(Magnitude::one()));
    assert_eq!(ratio(2, 3).checked_pow(1), Some(ratio(2, 3)));
    assert_eq!(ratio(2, 3).checked_pow(3), Some(ratio(8, 27)));
    assert_eq!(ratio(2, 3).checked_pow(-2), Some(ratio(9, 4)));
    assert_eq!(ratio(-2, 3).checked_pow(-3), Some(ratio(-27, 8)));
    assert_eq!(ratio(0, 1).checked_pow(-1), None);
    assert_eq!(ratio(10, 1).checked_pow(127), None);
    assert_eq!(ratio(1, 1).checked_pow(-128), Some(Magnitude::one()));
}

#[test]
fn decimal_numerals_are_read_exactly() {
    assert_eq!(decimal("1"), Some(ratio(1, 1)));
    assert_eq!(decimal("0.5"), Some(ratio(1, 2)));
    assert_eq!(decimal("10.25"), Some(ratio(41, 4)));
    assert_eq!(decimal("1."), Some(ratio(1, 1)));
    assert_eq!(decimal(".5"), Some(ratio(1, 2)));
    assert_eq!(decimal("007"), Some(ratio(7, 1)));
    assert_eq!(decimal("0.000"), Some(ratio(0, 1)));
    assert_eq!(decimal(""), None);
    assert_eq!(decimal("."), None);
    assert_eq!(decimal("1.2.3"), None);
    assert_eq!(decimal("1a"), None);
    assert_eq!(decimal("-1"), None);
    assert_eq!(decimal("170141183460469231731687303715884105727"), Some(ratio(i128::MAX, 1)));
    assert_eq!(decimal("170141183460469231731687303715884105728"), None);
    assert_eq!(decimal("0.0000000000000000000000000000000000000001"), None);
    let chars: Vec<char> = "x12.5y".chars().collect();
    assert_eq!(Magnitude::from_decimal(&chars, 1, 5), Some(ratio(25, 2)));
}

#[test]
fn quantities_are_equal_by_their_reduced_magnitudes() {
    let q = |n: i128, d: i128, t: &str| Quantity::new(ratio(n, d), t).unwrap();
    assert_eq!(q(1, 1, "kN"), q(1000, 1, "N"));
    assert_eq!(q(1, 1, "kN"), q(1000, 1, "kg.m/s2"));
    assert!(q(1, 1, "kN") != q(1, 1, "N"));
    assert_eq!(q(2, 1, "10.m"), q(20, 1, "m"));
    assert!(q(2, 1, "10.m") != q(2, 1, "m"));
    assert!(q(1, 1, "km") != q(1000, 1, "m"));
    assert!(q(1, 1, "m") != q(1, 1, "s"));
    assert_eq!(q(1, 2, "m"), q(2, 4, "m{x}"));
    assert!(q(1, 1, "bit_s") != q(1, 1, "bit_s"));
    let plain = Quantity { mag: ratio(3, 1), term: None };
    assert_eq!(plain, q(3, 1, ""));
}

#[test]
fn expressions_are_taken_from_left_to_right() {
    let value = |s: &str| interpret(s).unwrap();
    assert_eq!(value("1 m + 2 m * 3 s").mag, ratio(9, 1));
    assert_eq!(value("1 m + 2 m * 3 s").term.unwrap().to_string(), "m.s");
    assert_eq!(value("0.5 m / 0.25 s").mag, ratio(2, 1));
    assert_eq!(value("0.5 m / 0.25 s").term.unwrap().to_string(), "m.s-1");
    assert_eq!(value("1.5 kg{wet tis.} + 0.5 kg").mag, ratio(2, 1));
    assert_eq!(value("3").mag, ratio(3, 1));
    assert_eq!(value("3").term.unwrap().units, vec![]);
    assert_eq!(value("3 m - 5 m").mag, ratio(-2, 1));
    assert_eq!(value("1kg +5kg").mag, ratio(6, 1));
    assert_eq!(value(" 2 m").mag, ratio(2, 1));
    // the term of a sum is that of the first quantity
    assert_eq!(value("1 kg.m/s2 + 5 N").term.unwrap().to_string(), "kg.m.s-2");
    assert_eq!(value("1 N + 5 kg.m/s2").term.unwrap().to_string(), "N");
}

#[test]
fn quantities_take_operators_one_by_one() {
    let mut a = Quantity::new(ratio(1, 1), "m").unwrap();
    a.add_assign(Quantity::new(ratio(1, 2), "m").unwrap()).unwrap();
    assert_eq!(a.mag, ratio(3, 2));
    a.sub_assign(Quantity::new(ratio(2, 1), "m").unwrap()).unwrap();
    assert_eq!(a.mag, ratio(-1, 2));
    a.mul_assign(Quantity::new(ratio(4, 1), "s").unwrap()).unwrap();
    assert_eq!(a.mag, ratio(-2, 1));
    assert_eq!(a.term.as_ref().map(UnitTerm::to_string), Some("m.s".to_string()));
    a.div_assign(Quantity::new(ratio(4, 1), "m").unwrap()).unwrap();
    assert_eq!(a.mag, ratio(-1, 2));
    assert_eq!(a.term.as_ref().map(UnitTerm::to_string), Some("s".to_string()));
    let mut plain = Quantity { mag: ratio(3, 1), term: None };
    plain.mul_assign(Quantity::new(ratio(2, 1), "m").unwrap()).unwrap();
    assert_eq!(plain, Quantity::new(ratio(6, 1), "m").unwrap());
    let mut plain = Quantity { mag: ratio(3, 1), term: None };
    plain.add_assign(Quantity { mag: ratio(1, 1), term: None }).unwrap();
    assert_eq!(plain.mag, ratio(4, 1));
    assert!(plain.term.is_none());
}

#[test]
fn quantities_are_equal_by_the_magnitudes_of_definitions() {
    let q = |n: i128, d: i128, t: &str| Quantity::new(ratio(n, d), t).unwrap();
    assert_eq!(q(12, 1, "mo_j"), q(1, 1, "a_j"));
    assert!(q(1, 1, "mo_j") != q(1, 1, "a_j"));
    assert_eq!(q(72, 1, "[pnt]"), q(1, 1, "[in_i]"));
    assert_eq!(q(24, 1, "[car_Au]"), q(1, 1, ""));
}
