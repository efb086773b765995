//! Reading a unit term: the tokens are folded into a magnitude and a list of
//! units. A unit behind a slash is inverted, a whole number multiplies the
//! magnitude or, behind a slash, divides it.

use crate::error::Error;
use crate::lexer::{lemma_lex_advances, lex, Lexed, Token, TokenView, Tokenizer};
use crate::magnitude::{mag_div, mag_int, mag_mul, MagView, Magnitude};
use crate::normal::fits;
use crate::unit::{inverted, Unit, UnitView};
use vstd::prelude::*;

verus! {

/// What reading up to the next unit gives: the end of the text with the
/// magnitude read so far, a unit with the position behind it and the
/// magnitude read so far, or an error.
pub enum Step {
    End(MagView),
    Unit(UnitView, int, MagView),
    Error(Error),
}

/// Reads on from position `i` with the magnitude `mag`, up to the next unit.
/// A multiplication sign is passed over. A whole number multiplies the
/// magnitude. Behind a slash stands a unit, which is inverted, or a whole
/// number, by which the magnitude is divided: anything else there, or the
/// end of the text, is a parse error. A magnitude that cannot be held, a
/// division by zero and a unit whose inverted exponent is out of range are
/// numeric errors.
pub open spec fn step(s: Seq<char>, i: int, mag: MagView) -> Step
    decreases s.len() - i,
{
    match lex(s, i) {
        Lexed::End => Step::End(mag),
        Lexed::Error(e) => Step::Error(e),
        Lexed::Token(t, p) => {
            proof {
                lemma_lex_advances(s, i);
                lemma_lex_advances(s, p);
            }
            match t {
                TokenView::Mul => step(s, p, mag),
                TokenView::Unit(u) => Step::Unit(u, p, mag),
                TokenView::Int(v) => match mag_mul(mag, mag_int(v)) {
                    Some(m) => step(s, p, m),
                    None => Step::Error(Error::Numeric),
                },
                TokenView::Div => match lex(s, p) {
                    Lexed::Token(TokenView::Unit(u), q) => if fits(-u.exp) {
                        Step::Unit(inverted(u), q, mag)
                    } else {
                        Step::Error(Error::Numeric)
                    },
                    Lexed::Token(TokenView::Int(v), q) => match mag_div(mag, mag_int(v)) {
                        Some(m) => step(s, q, m),
                        None => Step::Error(Error::Numeric),
                    },
                    Lexed::Error(e) => Step::Error(e),
                    _ => Step::Error(Error::Parse),
                },
            }
        },
    }
}

/// Multiplies the magnitude by `v` and reads on from position `i`.
pub open spec fn step_mul(s: Seq<char>, i: int, mag: MagView, v: int) -> Step {
    match mag_mul(mag, mag_int(v)) {
        Some(m) => step(s, i, m),
        None => Step::Error(Error::Numeric),
    }
}

/// Divides the magnitude by `v` and reads on from position `i`.
pub open spec fn step_quotient(s: Seq<char>, i: int, mag: MagView, v: int) -> Step {
    match mag_div(mag, mag_int(v)) {
        Some(m) => step(s, i, m),
        None => Step::Error(Error::Numeric),
    }
}

/// Reads what stands behind a slash, from position `i` on.
pub open spec fn step_div(s: Seq<char>, i: int, mag: MagView) -> Step {
    match lex(s, i) {
        Lexed::Token(TokenView::Unit(u), p) => if fits(-u.exp) {
            Step::Unit(inverted(u), p, mag)
        } else {
            Step::Error(Error::Numeric)
        },
        Lexed::Token(TokenView::Int(v), p) => step_quotient(s, p, mag, v),
        Lexed::Error(e) => Step::Error(e),
        _ => Step::Error(Error::Parse),
    }
}

/// The unit that a step gives stands behind the position it was read from.
pub proof fn lemma_step_advances(s: Seq<char>, i: int, mag: MagView)
    ensures
        step(s, i, mag) matches Step::Unit(_, p, _) ==> 0 <= i < p <= s.len(),
    decreases s.len() - i,
{
    lemma_lex_advances(s, i);
    match lex(s, i) {
        Lexed::Token(t, p) => {
            match t {
                TokenView::Mul => {
                    lemma_step_advances(s, p, mag);
                },
                TokenView::Unit(u) => {},
                TokenView::Int(v) => {
                    match mag_mul(mag, mag_int(v)) {
                        Some(m) => {
                            lemma_step_advances(s, p, m);
                        },
                        None => {},
                    }
                },
                TokenView::Div => {
                    lemma_lex_advances(s, p);
                    match lex(s, p) {
                        Lexed::Token(TokenView::Int(v), q) => {
                            match mag_div(mag, mag_int(v)) {
                                Some(m) => {
                                    lemma_step_advances(s, q, m);
                                },
                                None => {},
                            }
                        },
                        _ => {},
                    }
                },
            }
        },
        _ => {},
    }
}

/// A unit term as it was read: a magnitude and the units in the order in
/// which they were written.
pub struct Parsed {
    pub mag: MagView,
    pub units: Seq<UnitView>,
}

/// Reads on from position `i` to the end of the text, with the magnitude and
/// the units read so far.
pub open spec fn parse_from(s: Seq<char>, i: int, mag: MagView, units: Seq<UnitView>) -> Result<
    Parsed,
    Error,
>
    decreases s.len() - i,
{
    match step(s, i, mag) {
        Step::End(m) => Ok(Parsed { mag: m, units }),
        Step::Error(e) => Err(e),
        Step::Unit(u, p, m) => {
            proof {
                lemma_step_advances(s, i, mag);
            }
            parse_from(s, p, m, units.push(u))
        },
    }
}

/// Reads the units of a unit term one at a time, and gathers its magnitude
/// on the way.
#[derive(Debug)]
pub struct Parser {
    pub tokenizer: Tokenizer,
    pub mag: Magnitude,
}

/// What a call of the parser owes, given the step that the text determines.
pub open spec fn delivers(
    r: Result<Option<Unit>, Error>,
    after: Parser,
    s: Seq<char>,
    expected: Step,
) -> bool {
    &&& after.tokenizer.input() == s
    &&& 0 <= after.tokenizer.position() <= s.len()
    &&& match expected {
        Step::End(m) => {
            &&& r matches Ok(None)
            &&& after.tokenizer.position() == s.len()
            &&& after.mag@ == m
        },
        Step::Unit(u, p, m) => {
            &&& r matches Ok(Some(unit)) && unit@ == u
            &&& after.tokenizer.position() == p
            &&& after.mag@ == m
        },
        Step::Error(e) => r == Err::<Option<Unit>, Error>(e),
    }
}

impl Parser {
    /// A parser on the tokens of `tokenizer`, with the magnitude one.
    pub fn new(tokenizer: Tokenizer) -> (r: Self)
        ensures
            r.tokenizer == tokenizer,
            r.mag@ == crate::magnitude::mag_one(),
    {
        Parser { tokenizer, mag: Magnitude::one() }
    }

    /// Multiplies the magnitude by `rhs` and reads the next unit.
    pub fn mul_i(&mut self, rhs: i8) -> (r: Result<Option<Unit>, Error>)
        ensures
            delivers(
                r,
                *final(self),
                old(self).tokenizer.input(),
                step_mul(
                    old(self).tokenizer.input(),
                    old(self).tokenizer.position(),
                    old(self).mag@,
                    rhs as int,
                ),
            ),
        decreases old(self).tokenizer.input().len() - old(self).tokenizer.position(), 1int,
    {
        let _ = self.tokenizer.remaining();
        match self.mag.checked_mul(&Magnitude::from_int(rhs as i64)) {
            Some(m) => {
                self.mag = m;
                self.next()
            },
            None => Err(Error::Numeric),
        }
    }

    /// Divides the magnitude by `rhs` and reads the next unit.
    pub fn div_i(&mut self, rhs: i8) -> (r: Result<Option<Unit>, Error>)
        ensures
            delivers(
                r,
                *final(self),
                old(self).tokenizer.input(),
                step_quotient(
                    old(self).tokenizer.input(),
                    old(self).tokenizer.position(),
                    old(self).mag@,
                    rhs as int,
                ),
            ),
        decreases old(self).tokenizer.input().len() - old(self).tokenizer.position(), 1int,
    {
        let _ = self.tokenizer.remaining();
        match self.mag.checked_div(&Magnitude::from_int(rhs as i64)) {
            Some(m) => {
                self.mag = m;
                self.next()
            },
            None => Err(Error::Numeric),
        }
    }

    /// Reads what stands behind a slash.
    pub fn div_next(&mut self) -> (r: Result<Option<Unit>, Error>)
        ensures
            delivers(
                r,
                *final(self),
                old(self).tokenizer.input(),
                step_div(
                    old(self).tokenizer.input(),
                    old(self).tokenizer.position(),
                    old(self).mag@,
                ),
            ),
        decreases old(self).tokenizer.input().len() - old(self).tokenizer.position(), 1int,
    {
        let _ = self.tokenizer.remaining();
        proof {
            lemma_lex_advances(self.tokenizer.input(), self.tokenizer.position());
        }
        let read = self.tokenizer.next();
        let _ = self.tokenizer.remaining();
        match read {
            Err(e) => Err(e),
            Ok(None) => Err(Error::Parse),
            Ok(Some(token)) => {
                match token {
                    Token::Unit(u) => {
                        if u.exp == i8::MIN {
                            Err(Error::Numeric)
                        } else {
                            Ok(Some(u.invert()))
                        }
                    },
                    Token::Int(v) => self.div_i(v),
                    _ => Err(Error::Parse),
                }
            },
        }
    }

    /// Reads the next unit. At the end of the text there is none.
    pub fn next(&mut self) -> (r: Result<Option<Unit>, Error>)
        ensures
            delivers(
                r,
                *final(self),
                old(self).tokenizer.input(),
                step(old(self).tokenizer.input(), old(self).tokenizer.position(), old(self).mag@),
            ),
        decreases old(self).tokenizer.input().len() - old(self).tokenizer.position(), 0int,
    {
        let _ = self.tokenizer.remaining();
        proof {
            lemma_lex_advances(self.tokenizer.input(), self.tokenizer.position());
        }
        let read = self.tokenizer.next();
        let _ = self.tokenizer.remaining();
        match read {
            Err(e) => Err(e),
            Ok(None) => Ok(None),
            Ok(Some(token)) => {
                match token {
                    Token::Mul => self.next(),
                    Token::Div => self.div_next(),
                    Token::Unit(u) => Ok(Some(u)),
                    Token::Int(v) => self.mul_i(v),
                }
            },
        }
    }
}

} // verus!
