use calculum_lang::error::Error;
use calculum_lang::expression::{interpret, Quantity, Token, Tokenizer};
use calculum_lang::magnitude::Magnitude;

fn tokens(s: &str) -> Vec<Token> {
    let mut t = Tokenizer::new(s);
    let mut out = vec![];
    while let Some(token) = t.next().unwrap() {
        out.push(token);
    }
    out
}

fn quantity(mag: i64, term: &str) -> Token {
    Token::Quantity(Quantity::new(Magnitude::from_int(mag), term).unwrap())
}

#[test]
fn it_reads_the_next_quantity() {
    assert_eq!(tokens("1 kg.m/s2")[0], quantity(1, "kg.m/s2"));
}

#[test]
fn it_ignores_spaces_bw_mag_and_term() {
    assert_eq!(tokens("1 kg.m/s2"), tokens("1kg.m/s2"));
}

#[test]
fn it_reads_add() {
    let ts = tokens("1 kg.m/s2 + 5 kg.m/s2");

    assert_eq!(ts, vec![quantity(1, "kg.m/s2"), Token::Add, quantity(5, "kg.m/s2")])
}

#[test]
fn it_reads_sub() {
    let ts = tokens("1 kg.m/s2 - 5 kg.m/s2");

    assert_eq!(ts, vec![quantity(1, "kg.m/s2"), Token::Sub, quantity(5, "kg.m/s2")])
}

#[test]
fn it_reads_mul() {
    let ts = tokens("1 kg.m/s2 * 5 s2/kg/m");

    assert_eq!(ts, vec![quantity(1, "kg.m/s2"), Token::Mul, quantity(5, "s2/kg/m")])
}

#[test]
fn it_reads_div() {
    let ts = tokens("1 kg.m/s2 / 5 kg.m/s2");

    assert_eq!(ts, vec![quantity(1, "kg.m/s2"), Token::Div, quantity(5, "kg.m/s2")])
}

// -- Interpreter

#[test]
#[should_panic]
fn it_requires_separator_between_quantities() {
    interpret("1 kg.m/s 2 s/m").unwrap();
}

#[test]
fn it_multiplies_quantities() {
    assert_eq!(
        interpret("1 kg.m/s2 * 2 s/m").unwrap(),
        Quantity::new(Magnitude::from_int(2), "kg/s").unwrap()
    );
}

#[test]
fn it_divides_quantities() {
    assert_eq!(
        interpret("1 kg.m/s2 / 2 m/s").unwrap(),
        Quantity::new(Magnitude::ratio(1, 2).unwrap(), "kg/s").unwrap()
    );
}

#[test]
fn it_adds_quantities_with_the_same_units() {
    assert_eq!(
        interpret("1 kg.m/s2 + 5 N").unwrap(),
        Quantity::new(Magnitude::from_int(6), "N").unwrap()
    )
}

#[test]
fn it_subs_quantities_with_the_same_units() {
    assert_eq!(
        interpret("10 kg.m/s2 - 5 N").unwrap(),
        Quantity::new(Magnitude::from_int(5), "N").unwrap()
    )
}

#[test]
#[should_panic]
fn it_doesnt_add_quantities_with_different_units() {
    println!("{:?}", interpret("10 kg.m/s + 5 N").unwrap());
}

#[test]
#[should_panic]
fn it_doesnt_sub_quantities_with_different_units() {
    println!("{:?}", interpret("10 kg.m/s2 - 5 kg/m.s2").unwrap());
}

#[test]
fn errors_are_told_apart() {
    assert_eq!(interpret("1 kg.m/s 2 s/m").err(), Some(Error::Parse));
    assert_eq!(interpret("10 kg.m/s + 5 N").err(), Some(Error::DimensionMismatch));
    assert_eq!(interpret("10 kg.m/s2 - 5 kg/m.s2").err(), Some(Error::DimensionMismatch));
    assert_eq!(interpret("").err(), Some(Error::Parse));
    assert_eq!(interpret("+ 1 m").err(), Some(Error::Parse));
    assert_eq!(interpret("1 m +").err(), Some(Error::Parse));
    assert_eq!(interpret("1 m + *").err(), Some(Error::Parse));
    assert_eq!(interpret("1 m ? 2 m").err(), Some(Error::Lexical));
    assert_eq!(interpret("kg").err(), Some(Error::Lexical));
    assert_eq!(interpret("1.2.3 m").err(), Some(Error::Numeric));
    assert_eq!(interpret(". m").err(), Some(Error::Numeric));
    assert_eq!(interpret("1 m / 0 s").err(), Some(Error::Numeric));
    assert_eq!(interpret("1 m128").err(), Some(Error::Numeric));
    assert_eq!(interpret("1 m}").is_ok(), true);
    assert_eq!(interpret("1 }").err(), Some(Error::Lexical));
    assert_eq!(interpret("1 m//").err(), Some(Error::Parse));
}

#[test]
fn a_quantity_is_read_in_parts() {
    let mut t = Tokenizer::new("12.5 kg{wet tis.}/s + 1 m");
    assert_eq!(t.remaining(), 25);
    assert_eq!(t.next_mag(), Some(Magnitude::ratio(25, 2).unwrap()));
    assert_eq!(t.remaining(), 21);
    assert_eq!(t.next_term(), "kg{wet tis.}/s");
    assert_eq!(t.next().unwrap(), Some(Token::Add));
    assert_eq!(t.next_quantity().err(), Some(Error::Numeric));

    let mut t = Tokenizer::new("3m{open and more");
    assert_eq!(t.next_quantity().unwrap(), quantity(3, "m"));
    assert_eq!(t.remaining(), 0);
    assert_eq!(t.next().unwrap(), None);

    let mut t = Tokenizer::new("a{b}c");
    t.next_annotation();
    assert_eq!(t.remaining(), 1);
    t.next_annotation();
    assert_eq!(t.remaining(), 0);

    // one blank between magnitude and term is passed over, a second one
    // ends the term before it starts
    let mut t = Tokenizer::new("1  m");
    assert_eq!(t.next_quantity().unwrap(), quantity(1, ""));
    assert_eq!(t.next().err(), Some(Error::Lexical));
}
