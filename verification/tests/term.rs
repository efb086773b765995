use calculum_lang::error::Error;
use calculum_lang::lexer::{Token, Tokenizer};
use calculum_lang::magnitude::Magnitude;
use calculum_lang::term::UnitTerm;
use calculum_lang::unit::Unit;

// -- Tokenizer

fn unit_token(u: &str, p: i8) -> Token {
    Token::Unit(Unit::new(u.to_string(), p, None))
}

#[test]
fn term_it_splits_on_mul_and_div() {
    let tokens: Vec<Token> = Tokenizer::new("m.kg/s2").collect().unwrap();

    assert_eq!(
        tokens,
        vec![unit_token("m", 1), Token::Mul, unit_token("kg", 1), Token::Div, unit_token("s", 2),]
    )
}

#[test]
fn term_it_splits_on_pos_and_neg() {
    let tokens: Vec<Token> = Tokenizer::new("m.kg+5.s-2").collect().unwrap();
    assert_eq!(
        tokens,
        vec![
            unit_token("m", 1),
            Token::Mul,
            unit_token("kg", 5),
            Token::Mul,
            unit_token("s", -2),
        ]
    )
}

#[test]
fn it_reads_annotations() {
    let tokens: Vec<Token> = Tokenizer::new("m{meters}").collect().unwrap();

    assert_eq!(
        tokens,
        vec![Token::Unit(Unit::new("m".to_string(), 1, Some("meters".to_string())))]
    );

    let tokens: Vec<Token> = Tokenizer::new("m.{meters}").collect().unwrap();

    assert_eq!(
        tokens,
        vec![
            Token::Unit(Unit::new("m".to_string(), 1, None)),
            Token::Mul,
            Token::Unit(Unit::new("".to_string(), 1, Some("meters".to_string())))
        ]
    )
}

#[test]
fn it_reads_ints() {
    let tokens: Vec<Token> = Tokenizer::new("10.m3.02kg/5s").collect().unwrap();

    assert_eq!(
        tokens,
        vec![
            Token::Int(10),
            Token::Mul,
            unit_token("m", 3),
            Token::Mul,
            Token::Int(2),
            unit_token("kg", 1),
            Token::Div,
            Token::Int(5),
            unit_token("s", 1)
        ]
    )
}

fn tokens(s: &str) -> Result<Vec<Token>, Error> {
    Tokenizer::new(s).collect()
}

#[test]
fn an_asterisk_multiplies() {
    assert_eq!(tokens("m*s").unwrap(), vec![unit_token("m", 1), Token::Mul, unit_token("s", 1)]);
}

#[test]
fn blanks_between_tokens_are_passed_over() {
    assert_eq!(
        tokens(" m . s ").unwrap(),
        vec![unit_token("m ", 1), Token::Mul, unit_token("s ", 1)]
    );
    assert_eq!(tokens("  /  5").unwrap(), vec![Token::Div, Token::Int(5)]);
    assert_eq!(tokens("").unwrap(), vec![]);
    assert_eq!(tokens("   ").unwrap(), vec![]);
}

#[test]
fn numbers_have_signs_and_leading_zeros() {
    assert_eq!(tokens("+5").unwrap(), vec![Token::Int(5)]);
    assert_eq!(tokens("-128").unwrap(), vec![Token::Int(-128)]);
    assert_eq!(tokens("127").unwrap(), vec![Token::Int(127)]);
    assert_eq!(tokens("0000127").unwrap(), vec![Token::Int(127)]);
    assert_eq!(tokens("-0").unwrap(), vec![Token::Int(0)]);
    assert_eq!(tokens("1-2").unwrap(), vec![Token::Int(1), Token::Int(-2)]);
}

#[test]
fn a_number_out_of_range_is_a_numeric_error() {
    assert_eq!(tokens("128"), Err(Error::Numeric));
    assert_eq!(tokens("-129"), Err(Error::Numeric));
    assert_eq!(tokens("99999999999999999999999999999999999999999"), Err(Error::Numeric));
    assert_eq!(tokens("m128"), Err(Error::Numeric));
    assert_eq!(tokens("+"), Err(Error::Numeric));
    assert_eq!(tokens("m-"), Err(Error::Numeric));
    assert_eq!(tokens("m."), Ok(vec![unit_token("m", 1), Token::Mul]));
}

#[test]
fn a_stray_closing_bracket_is_a_lexical_error() {
    assert_eq!(tokens("}"), Err(Error::Lexical));
    assert_eq!(tokens("m.)"), Err(Error::Lexical));
    assert_eq!(tokens("m/]"), Err(Error::Lexical));
    assert_eq!(tokens("m^2"), Err(Error::Lexical));
    // inside a symbol a bracket is a character like any other
    assert_eq!(tokens("m]").unwrap(), vec![unit_token("m]", 1)]);
    assert_eq!(tokens("[in_i]").unwrap(), vec![unit_token("[in_i]", 1)]);
}

#[test]
fn an_annotation_without_its_end_is_dropped() {
    assert_eq!(tokens("m{open").unwrap(), vec![unit_token("m", 1)]);
    assert_eq!(
        tokens("m{a b}.s").unwrap(),
        vec![
            Token::Unit(Unit::new("m".to_string(), 1, Some("a b".to_string()))),
            Token::Mul,
            unit_token("s", 1)
        ]
    );
    assert_eq!(
        tokens("m2{a}").unwrap(),
        vec![
            unit_token("m", 2),
            Token::Unit(Unit::new("".to_string(), 1, Some("a".to_string())))
        ]
    );
}

#[test]
fn tokens_come_one_at_a_time() {
    let mut t = Tokenizer::new("kg/s");
    assert_eq!(t.remaining(), 4);
    assert_eq!(t.next(), Ok(Some(unit_token("kg", 1))));
    assert_eq!(t.remaining(), 2);
    assert_eq!(t.next(), Ok(Some(Token::Div)));
    assert_eq!(t.next(), Ok(Some(unit_token("s", 1))));
    assert_eq!(t.next(), Ok(None));
    assert_eq!(t.next(), Ok(None));
}

// -- UnitTerm

fn unit(u: &str, p: i8) -> Unit {
    Unit::new(u.to_string(), p, None)
}

#[test]
fn it_interprets_division_of_units() {
    let unit_term = UnitTerm::new("m.kg/s2").unwrap();

    assert_eq!(unit_term.mag, Magnitude::from_int(1));
    assert_eq!(unit_term.units, vec![unit("kg", 1), unit("m", 1), unit("s", -2)])
}

#[test]
fn it_interprets_division_of_scalars() {
    let unit_term = UnitTerm::new("m.kg/5s2").unwrap();

    assert_eq!(unit_term.mag.numerator() as f64 / unit_term.mag.denominator() as f64, 0.2);
    assert_eq!(unit_term.mag, Magnitude::ratio(1, 5).unwrap());
}

// -- Conversions
#[test]
fn it_combines_redundant_units() {
    let base_units = |s| UnitTerm::new(s).unwrap();

    assert_eq!(base_units("m.m.m"), base_units("m3"));
    assert_eq!(base_units("m.m.m/m.m/m"), base_units("m2"));
    assert_eq!(base_units("m.m.s2m/m3.m/s.m.s1"), base_units("m2.s2"));
}

#[test]
fn it_converts_composite_si_units() {
    let base_units = |s| UnitTerm::new(s).unwrap();

    println!("{}", base_units("m.kg/s2").to_string());

    assert_eq!(base_units("m.kg/s2"), base_units("N"));
    assert_eq!(base_units("m/s2.kg"), base_units("N"));
    assert_eq!(base_units("N/m2"), base_units("Pa"));

    assert_eq!(base_units("g.cm/s2"), base_units("dyn"));
}

#[test]
fn a_period_between_digits_multiplies() {
    // inside a term a number is whole, and a period always multiplies
    assert_eq!(tokens("10.1").unwrap(), vec![Token::Int(10), Token::Mul, Token::Int(1)]);
    assert_eq!(
        tokens("10.m").unwrap(),
        vec![Token::Int(10), Token::Mul, unit_token("m", 1)]
    );
    assert_eq!(UnitTerm::new("10.1").unwrap().mag, Magnitude::from_int(10));
}

#[test]
fn a_prefix_before_no_metric_atom_is_part_of_the_atom() {
    assert_eq!(tokens("kx").unwrap(), vec![Token::Unit(Unit {
        prefix: "".to_string(),
        atom: "kx".to_string(),
        exp: 1,
        annotation: None
    })]);
    assert_eq!(tokens("k[in_i]").unwrap(), vec![Token::Unit(Unit {
        prefix: "".to_string(),
        atom: "k[in_i]".to_string(),
        exp: 1,
        annotation: None
    })]);
    assert_eq!(tokens("k[g]").unwrap(), vec![Token::Unit(Unit {
        prefix: "k".to_string(),
        atom: "[g]".to_string(),
        exp: 1,
        annotation: None
    })]);
}
