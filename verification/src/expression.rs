//! Expressions over quantities: a quantity is a magnitude with a unit term,
//! as in `10 kg.m/s2`; an expression is a chain of quantities with `+`, `-`,
//! `*` and `/` between them, taken from left to right.

use crate::error::Error;
use crate::lexer::{brace_end, lemma_brace_end_bounds};
use crate::magnitude::{
    decimal_magnitude, mag_add, mag_div, mag_mul, mag_one, mag_sub, MagView, Magnitude,
};
use crate::term::{
    product_units, quotient_units, term_of, units_equal, TermView, UnitTerm,
};
use crate::text::{chars_of, is_digit, string_of};
use crate::unit::{Unit, UnitView};
use vstd::prelude::*;

verus! {

/// A quantity: a magnitude and a unit term. Without a term the quantity is a
/// plain number.
#[derive(Debug)]
pub struct Quantity {
    pub mag: Magnitude,
    pub term: Option<UnitTerm>,
}

/// What a quantity is, as plain values.
pub struct QuantityView {
    pub mag: MagView,
    pub term: Option<TermView>,
}

impl View for Quantity {
    type V = QuantityView;

    open spec fn view(&self) -> QuantityView {
        QuantityView {
            mag: self.mag@,
            term: match self.term {
                Some(t) => Some(t@),
                None => None,
            },
        }
    }
}

/// The term of a quantity; for a plain number the term without units and
/// with the magnitude one.
pub open spec fn term_or_empty(term: Option<TermView>) -> TermView {
    match term {
        Some(t) => t,
        None => TermView { mag: mag_one(), units: Seq::empty() },
    }
}

/// The quantity that a magnitude and the text of a unit term make.
pub open spec fn quantity_of(mag: MagView, text: Seq<char>) -> Result<QuantityView, Error> {
    match term_of(text) {
        Ok(t) => Ok(QuantityView { mag, term: Some(t) }),
        Err(e) => Err(e),
    }
}

/// The sum of two quantities. Their terms must have the same base units,
/// else it is a dimension mismatch. The magnitudes are added; the term is
/// that of the first.
pub open spec fn quantity_sum(a: QuantityView, b: QuantityView) -> Result<QuantityView, Error> {
    match units_equal(term_or_empty(a.term).units, term_or_empty(b.term).units) {
        Err(e) => Err(e),
        Ok(same) => if !same {
            Err(Error::DimensionMismatch)
        } else {
            match mag_add(a.mag, b.mag) {
                None => Err(Error::Numeric),
                Some(m) => Ok(QuantityView { mag: m, term: a.term }),
            }
        },
    }
}

/// The difference of two quantities, under the conditions of the sum.
pub open spec fn quantity_difference(a: QuantityView, b: QuantityView) -> Result<
    QuantityView,
    Error,
> {
    match units_equal(term_or_empty(a.term).units, term_or_empty(b.term).units) {
        Err(e) => Err(e),
        Ok(same) => if !same {
            Err(Error::DimensionMismatch)
        } else {
            match mag_sub(a.mag, b.mag) {
                None => Err(Error::Numeric),
                Some(m) => Ok(QuantityView { mag: m, term: a.term }),
            }
        },
    }
}

/// The product of two quantities: the magnitudes multiplied, the units of
/// both terms in normal form. The magnitude of the term is that of the
/// first term.
pub open spec fn quantity_product(a: QuantityView, b: QuantityView) -> Result<
    QuantityView,
    Error,
> {
    match product_units(term_or_empty(a.term).units, term_or_empty(b.term).units) {
        Err(e) => Err(e),
        Ok(units) => match mag_mul(a.mag, b.mag) {
            None => Err(Error::Numeric),
            Some(m) => Ok(
                QuantityView {
                    mag: m,
                    term: Some(TermView { mag: term_or_empty(a.term).mag, units }),
                },
            ),
        },
    }
}

/// The quotient of two quantities: the magnitudes divided, the units of the
/// first term with the inverted units of the second in normal form. The
/// magnitude of the term is that of the first term.
pub open spec fn quantity_quotient(a: QuantityView, b: QuantityView) -> Result<
    QuantityView,
    Error,
> {
    match quotient_units(term_or_empty(a.term).units, term_or_empty(b.term).units) {
        Err(e) => Err(e),
        Ok(units) => match mag_div(a.mag, b.mag) {
            None => Err(Error::Numeric),
            Some(m) => Ok(
                QuantityView {
                    mag: m,
                    term: Some(TermView { mag: term_or_empty(a.term).mag, units }),
                },
            ),
        },
    }
}

/// A copy of the term of a quantity; for a plain number the term without
/// units.
pub fn term_or_unit(term: &Option<UnitTerm>) -> (r: UnitTerm)
    ensures
        r@ == term_or_empty(
            match *term {
                Some(t) => Some(t@),
                None => None,
            },
        ),
{
    match term {
        Some(t) => t.clone(),
        None => {
            let units: Vec<Unit> = Vec::new();
            proof {
                assert(crate::unit::views(units@) =~= Seq::<UnitView>::empty());
            }
            UnitTerm { mag: Magnitude::one(), units }
        },
    }
}

impl Quantity {
    /// The quantity with the magnitude `mag` and the unit term that `t`
    /// denotes.
    pub fn new(mag: Magnitude, t: &str) -> (r: Result<Self, Error>)
        ensures
            match quantity_of(mag@, t@) {
                Ok(q) => r matches Ok(x) && x@ == q,
                Err(e) => r matches Err(x) && x == e,
            },
    {
        match UnitTerm::new(t) {
            Ok(term) => Ok(Quantity { mag, term: Some(term) }),
            Err(e) => Err(e),
        }
    }

    /// Adds `other` to this quantity. On an error the quantity does not
    /// change.
    pub fn add_assign(&mut self, other: Self) -> (r: Result<(), Error>)
        ensures
            match quantity_sum(old(self)@, other@) {
                Ok(q) => r is Ok && final(self)@ == q,
                Err(e) => r == Err::<(), Error>(e) && final(self)@ == old(self)@,
            },
    {
        let a = term_or_unit(&self.term);
        let b = term_or_unit(&other.term);
        match a.equals(&b) {
            Err(e) => Err(e),
            Ok(false) => Err(Error::DimensionMismatch),
            Ok(true) => match self.mag.checked_add(&other.mag) {
                None => Err(Error::Numeric),
                Some(m) => {
                    self.mag = m;
                    Ok(())
                },
            },
        }
    }

    /// Subtracts `other` from this quantity. On an error the quantity does
    /// not change.
    pub fn sub_assign(&mut self, other: Self) -> (r: Result<(), Error>)
        ensures
            match quantity_difference(old(self)@, other@) {
                Ok(q) => r is Ok && final(self)@ == q,
                Err(e) => r == Err::<(), Error>(e) && final(self)@ == old(self)@,
            },
    {
        let a = term_or_unit(&self.term);
        let b = term_or_unit(&other.term);
        match a.equals(&b) {
            Err(e) => Err(e),
            Ok(false) => Err(Error::DimensionMismatch),
            Ok(true) => match self.mag.checked_sub(&other.mag) {
                None => Err(Error::Numeric),
                Some(m) => {
                    self.mag = m;
                    Ok(())
                },
            },
        }
    }

    /// Multiplies this quantity by `other`. On an error the quantity does
    /// not change.
    pub fn mul_assign(&mut self, other: Self) -> (r: Result<(), Error>)
        ensures
            match quantity_product(old(self)@, other@) {
                Ok(q) => r is Ok && final(self)@ == q,
                Err(e) => r == Err::<(), Error>(e) && final(self)@ == old(self)@,
            },
    {
        let mut a = term_or_unit(&self.term);
        let b = term_or_unit(&other.term);
        match a.mul_assign(b) {
            Err(e) => Err(e),
            Ok(()) => match self.mag.checked_mul(&other.mag) {
                None => Err(Error::Numeric),
                Some(m) => {
                    self.mag = m;
                    self.term = Some(a);
                    Ok(())
                },
            },
        }
    }

    /// Divides this quantity by `other`. On an error the quantity does not
    /// change.
    pub fn div_assign(&mut self, other: Self) -> (r: Result<(), Error>)
        ensures
            match quantity_quotient(old(self)@, other@) {
                Ok(q) => r is Ok && final(self)@ == q,
                Err(e) => r == Err::<(), Error>(e) && final(self)@ == old(self)@,
            },
    {
        let mut a = term_or_unit(&self.term);
        let b = term_or_unit(&other.term);
        match a.div_assign(b) {
            Err(e) => Err(e),
            Ok(()) => match self.mag.checked_div(&other.mag) {
                None => Err(Error::Numeric),
                Some(m) => {
                    self.mag = m;
                    self.term = Some(a);
                    Ok(())
                },
            },
        }
    }
}

/// A token of an expression.
#[derive(Debug, PartialEq)]
pub enum Token {
    Add,
    Sub,
    Mul,
    Div,
    Quantity(Quantity),
}

/// What a token of an expression is, as plain values.
pub enum TokenView {
    Add,
    Sub,
    Mul,
    Div,
    Quantity(QuantityView),
}

impl View for Token {
    type V = TokenView;

    open spec fn view(&self) -> TokenView {
        match self {
            Token::Add => TokenView::Add,
            Token::Sub => TokenView::Sub,
            Token::Mul => TokenView::Mul,
            Token::Div => TokenView::Div,
            Token::Quantity(q) => TokenView::Quantity(q@),
        }
    }
}

/// What reading one token of an expression from a position gives: the end
/// of the text, a token and the position behind it, or an error.
pub enum Lexed {
    End,
    Token(TokenView, int),
    Error(Error),
}

/// Whether `c` can stand in a magnitude: a digit or a period.
pub open spec fn in_number(c: char) -> bool {
    is_digit(c) || c == '.'
}

/// The first position at or after `i` that holds neither a digit nor a
/// period.
pub open spec fn number_end(s: Seq<char>, i: int) -> int
    decreases s.len() - i,
{
    if 0 <= i < s.len() && in_number(s[i]) {
        number_end(s, i + 1)
    } else {
        i
    }
}

/// The end of the unit term that starts at `i`: the first blank outside
/// braces, or the end of the text. Between an opening brace and the next
/// closing one, blanks belong to the term.
pub open spec fn term_end(s: Seq<char>, i: int) -> int
    decreases s.len() - i,
{
    if i < 0 || i >= s.len() {
        s.len() as int
    } else if s[i] == ' ' {
        i
    } else if s[i] == '{' {
        proof {
            lemma_brace_end_bounds(s, i + 1);
        }
        if brace_end(s, i + 1) < s.len() {
            term_end(s, brace_end(s, i + 1) + 1)
        } else {
            s.len() as int
        }
    } else {
        term_end(s, i + 1)
    }
}

/// Where the unit term of a quantity starts, whose magnitude ends at `j`:
/// one blank between the two is passed over.
pub open spec fn term_start(s: Seq<char>, j: int) -> int {
    if 0 <= j < s.len() && s[j] == ' ' {
        j + 1
    } else {
        j
    }
}

/// The quantity that starts at `i`: a magnitude of digits with at most one
/// period, then, after at most one blank, a unit term that runs up to the
/// next blank outside braces.
pub open spec fn lex_quantity(s: Seq<char>, i: int) -> Lexed {
    let j = number_end(s, i);
    let k = term_start(s, j);
    let m = term_end(s, k);
    match decimal_magnitude(s.subrange(i, j)) {
        None => Lexed::Error(Error::Numeric),
        Some(mag) => match quantity_of(mag, s.subrange(k, m)) {
            Ok(q) => Lexed::Token(TokenView::Quantity(q), m),
            Err(e) => Lexed::Error(e),
        },
    }
}

/// The token of an expression that starts at position `i` of `s`, blanks
/// before it passed over. A character that starts no token is a lexical
/// error.
pub open spec fn lex(s: Seq<char>, i: int) -> Lexed
    decreases s.len() - i,
{
    if i < 0 || i >= s.len() {
        Lexed::End
    } else if s[i] == ' ' {
        lex(s, i + 1)
    } else if s[i] == '+' {
        Lexed::Token(TokenView::Add, i + 1)
    } else if s[i] == '-' {
        Lexed::Token(TokenView::Sub, i + 1)
    } else if s[i] == '*' {
        Lexed::Token(TokenView::Mul, i + 1)
    } else if s[i] == '/' {
        Lexed::Token(TokenView::Div, i + 1)
    } else if in_number(s[i]) {
        lex_quantity(s, i)
    } else {
        Lexed::Error(Error::Lexical)
    }
}

/// The end of a magnitude lies between its start and the end of the text.
pub proof fn lemma_number_end_bounds(s: Seq<char>, i: int)
    requires
        0 <= i <= s.len(),
    ensures
        i <= number_end(s, i) <= s.len(),
        i < s.len() && in_number(s[i]) ==> i < number_end(s, i),
    decreases s.len() - i,
{
    if i < s.len() && in_number(s[i]) {
        lemma_number_end_bounds(s, i + 1);
    }
}

/// The end of a unit term lies between its start and the end of the text.
pub proof fn lemma_term_end_bounds(s: Seq<char>, i: int)
    requires
        0 <= i <= s.len(),
    ensures
        i <= term_end(s, i) <= s.len(),
    decreases s.len() - i,
{
    if i < s.len() && s[i] != ' ' {
        if s[i] == '{' {
            lemma_brace_end_bounds(s, i + 1);
            if brace_end(s, i + 1) < s.len() {
                lemma_term_end_bounds(s, brace_end(s, i + 1) + 1);
            }
        } else {
            lemma_term_end_bounds(s, i + 1);
        }
    }
}

/// Every token of an expression takes at least one character.
pub proof fn lemma_lex_advances(s: Seq<char>, i: int)
    ensures
        lex(s, i) matches Lexed::Token(_, p) ==> 0 <= i < p <= s.len(),
    decreases s.len() - i,
{
    if 0 <= i < s.len() {
        if s[i] == ' ' {
            lemma_lex_advances(s, i + 1);
        } else if in_number(s[i]) {
            lemma_number_end_bounds(s, i);
            lemma_term_end_bounds(s, term_start(s, number_end(s, i)));
        }
    }
}

/// What an operator makes of the quantity so far and the quantity behind
/// it.
pub open spec fn apply(op: TokenView, a: QuantityView, b: QuantityView) -> Result<
    QuantityView,
    Error,
> {
    match op {
        TokenView::Add => quantity_sum(a, b),
        TokenView::Sub => quantity_difference(a, b),
        TokenView::Mul => quantity_product(a, b),
        TokenView::Div => quantity_quotient(a, b),
        TokenView::Quantity(_) => Err(Error::Parse),
    }
}

/// The value of the rest of an expression from position `i` on, given the
/// value `acc` of what stands before: an operator and a quantity, time and
/// again, taken from left to right. A quantity where an operator is due,
/// and an operator without a quantity behind it, are parse errors.
pub open spec fn eval_from(s: Seq<char>, i: int, acc: QuantityView) -> Result<
    QuantityView,
    Error,
>
    decreases s.len() - i,
{
    match lex(s, i) {
        Lexed::End => Ok(acc),
        Lexed::Error(e) => Err(e),
        Lexed::Token(TokenView::Quantity(_), _) => Err(Error::Parse),
        Lexed::Token(op, p) => match lex(s, p) {
            Lexed::Token(TokenView::Quantity(q), next) => {
                proof {
                    lemma_lex_advances(s, i);
                    lemma_lex_advances(s, p);
                }
                match apply(op, acc, q) {
                    Ok(r) => eval_from(s, next, r),
                    Err(e) => Err(e),
                }
            },
            Lexed::Error(e) => Err(e),
            _ => Err(Error::Parse),
        },
    }
}

/// The value of an expression. It starts with a quantity, else it is a
/// parse error.
pub open spec fn value_of(s: Seq<char>) -> Result<QuantityView, Error> {
    match lex(s, 0) {
        Lexed::Token(TokenView::Quantity(q), p) => eval_from(s, p, q),
        Lexed::Error(e) => Err(e),
        _ => Err(Error::Parse),
    }
}

/// Reads the tokens of an expression, one at a time. The text is held as
/// its characters with the position of the next one.
#[derive(Debug)]
pub struct Tokenizer {
    chars: Vec<char>,
    pos: usize,
}

/// Whether the character at `j` is a digit or a period.
fn number_at(chars: &Vec<char>, j: usize) -> (r: bool)
    requires
        j < chars.len(),
    ensures
        r == in_number(chars@[j as int]),
{
    let c = chars[j];
    c == '.' || c == '0' || c == '1' || c == '2' || c == '3' || c == '4' || c == '5' || c == '6'
        || c == '7' || c == '8' || c == '9'
}

impl Tokenizer {
    #[verifier::type_invariant]
    spec fn in_bounds(self) -> bool {
        self.pos <= self.chars.len()
    }

    /// The text that is read.
    pub closed spec fn input(&self) -> Seq<char> {
        self.chars@
    }

    /// The position of the next character to read.
    pub closed spec fn position(&self) -> int {
        self.pos as int
    }

    /// A tokenizer at the start of `s`.
    pub fn new(s: &str) -> (r: Self)
        ensures
            r.input() == s@,
            r.position() == 0,
    {
        Tokenizer { chars: chars_of(s), pos: 0 }
    }

    /// How many characters are left to read.
    pub fn remaining(&self) -> (r: usize)
        ensures
            r == self.input().len() - self.position(),
            0 <= self.position() <= self.input().len(),
    {
        proof {
            use_type_invariant(self);
        }
        self.chars.len() - self.pos
    }

    /// Reads the magnitude that starts at the tokenizer's position: the
    /// digits and periods there.
    pub fn next_mag(&mut self) -> (r: Option<Magnitude>)
        ensures
            final(self).input() == old(self).input(),
            ({
                let s = old(self).input();
                let i = old(self).position();
                let j = number_end(s, i);
                &&& final(self).position() == j
                &&& i <= j <= s.len()
                &&& match decimal_magnitude(s.subrange(i, j)) {
                    Some(m) => r matches Some(x) && x@ == m,
                    None => r is None,
                }
            }),
    {
        proof {
            use_type_invariant(&*self);
        }
        let start = self.pos;
        let mut j = start;
        while j < self.chars.len() && number_at(&self.chars, j)
            invariant
                start <= j <= self.chars.len(),
                number_end(self.chars@, start as int) == number_end(self.chars@, j as int),
            decreases self.chars.len() - j,
        {
            j += 1;
        }
        self.pos = j;
        Magnitude::from_decimal(&self.chars, start, j)
    }

    /// Passes over an annotation, up to and with its closing brace. The
    /// tokenizer stands behind the opening brace.
    pub fn next_annotation(&mut self)
        ensures
            final(self).input() == old(self).input(),
            ({
                let s = old(self).input();
                let k = brace_end(s, old(self).position());
                if k < s.len() {
                    final(self).position() == k + 1
                } else {
                    final(self).position() == s.len()
                }
            }),
    {
        proof {
            use_type_invariant(&*self);
        }
        let start = self.pos;
        let mut k = start;
        while k < self.chars.len() && self.chars[k] != '}'
            invariant
                start <= k <= self.chars.len(),
                brace_end(self.chars@, start as int) == brace_end(self.chars@, k as int),
            decreases self.chars.len() - k,
        {
            k += 1;
        }
        if k < self.chars.len() {
            self.pos = k + 1;
        } else {
            self.pos = k;
        }
    }

    /// Reads the text of the unit term behind a magnitude: at most one blank
    /// is passed over, then the term runs up to the next blank outside
    /// braces.
    pub fn next_term(&mut self) -> (r: String)
        ensures
            final(self).input() == old(self).input(),
            ({
                let s = old(self).input();
                let k = term_start(s, old(self).position());
                let m = term_end(s, k);
                &&& k <= m <= s.len()
                &&& final(self).position() == m
                &&& r@ == s.subrange(k, m)
            }),
    {
        proof {
            use_type_invariant(&*self);
        }
        if self.pos < self.chars.len() && self.chars[self.pos] == ' ' {
            self.pos += 1;
        }
        let start = self.pos;
        let ghost s = self.chars@;
        proof {
            lemma_term_end_bounds(s, start as int);
        }
        loop
            invariant_except_break
                self.chars@ == s,
                start <= self.pos <= self.chars.len(),
                term_end(s, start as int) == term_end(s, self.pos as int),
            ensures
                self.chars@ == s,
                start <= self.pos <= self.chars.len(),
                self.pos == term_end(s, start as int),
            decreases self.chars.len() - self.pos,
        {
            if self.pos >= self.chars.len() {
                break ;
            }
            let c = self.chars[self.pos];
            if c == ' ' {
                break ;
            } else if c == '{' {
                proof {
                    lemma_brace_end_bounds(s, self.pos + 1);
                }
                self.pos += 1;
                self.next_annotation();
                proof {
                    use_type_invariant(&*self);
                }
            } else {
                self.pos += 1;
            }
        }
        string_of(&self.chars, start, self.pos)
    }

    /// Reads the quantity that starts at the tokenizer's position.
    pub fn next_quantity(&mut self) -> (r: Result<Token, Error>)
        ensures
            final(self).input() == old(self).input(),
            match lex_quantity(old(self).input(), old(self).position()) {
                Lexed::Token(t, p) => {
                    &&& r matches Ok(token) && token@ == t
                    &&& final(self).position() == p
                },
                Lexed::Error(e) => r matches Err(x) && x == e,
                Lexed::End => false,
            },
    {
        let mag = match self.next_mag() {
            None => {
                return Err(Error::Numeric);
            },
            Some(m) => m,
        };
        let text = self.next_term();
        match Quantity::new(mag, text.as_str()) {
            Ok(q) => Ok(Token::Quantity(q)),
            Err(e) => Err(e),
        }
    }

    /// Reads the next token. At the end of the text there is none.
    pub fn next(&mut self) -> (r: Result<Option<Token>, Error>)
        ensures
            final(self).input() == old(self).input(),
            0 <= final(self).position() <= final(self).input().len(),
            match lex(old(self).input(), old(self).position()) {
                Lexed::End => r matches Ok(None),
                Lexed::Token(t, p) => {
                    &&& r matches Ok(Some(token)) && token@ == t
                    &&& final(self).position() == p
                },
                Lexed::Error(e) => r matches Err(x) && x == e,
            },
    {
        proof {
            use_type_invariant(&*self);
        }
        let ghost s = self.chars@;
        let ghost start = self.pos as int;
        while self.pos < self.chars.len() && self.chars[self.pos] == ' '
            invariant
                self.chars@ == s,
                self.pos <= self.chars.len(),
                lex(s, start) == lex(s, self.pos as int),
            decreases self.chars.len() - self.pos,
        {
            self.pos += 1;
        }
        if self.pos >= self.chars.len() {
            return Ok(None);
        }
        let c = self.chars[self.pos];
        let r = if c == '+' {
            self.pos += 1;
            Ok(Some(Token::Add))
        } else if c == '-' {
            self.pos += 1;
            Ok(Some(Token::Sub))
        } else if c == '*' {
            self.pos += 1;
            Ok(Some(Token::Mul))
        } else if c == '/' {
            self.pos += 1;
            Ok(Some(Token::Div))
        } else if number_at(&self.chars, self.pos) {
            match self.next_quantity() {
                Ok(token) => Ok(Some(token)),
                Err(e) => Err(e),
            }
        } else {
            Err(Error::Lexical)
        };
        proof {
            use_type_invariant(&*self);
        }
        r
    }
}

/// Evaluates an expression such as `1 kg.m/s2 + 5 N`.
pub fn interpret(s: &str) -> (r: Result<Quantity, Error>)
    ensures
        match value_of(s@) {
            Ok(q) => r matches Ok(x) && x@ == q,
            Err(e) => r matches Err(x) && x == e,
        },
{
    let mut ts = Tokenizer::new(s);
    let mut qn = match ts.next() {
        Err(e) => {
            return Err(e);
        },
        Ok(Some(Token::Quantity(q))) => q,
        _ => {
            return Err(Error::Parse);
        },
    };
    loop
        invariant
            ts.input() == s@,
            0 <= ts.position() <= s@.len(),
            value_of(s@) == eval_from(s@, ts.position(), qn@),
        decreases s@.len() - ts.position(),
    {
        proof {
            lemma_lex_advances(s@, ts.position());
        }
        let op = match ts.next() {
            Err(e) => {
                return Err(e);
            },
            Ok(None) => {
                return Ok(qn);
            },
            Ok(Some(Token::Quantity(_))) => {
                return Err(Error::Parse);
            },
            Ok(Some(op)) => op,
        };
        proof {
            lemma_lex_advances(s@, ts.position());
        }
        let rhs = match ts.next() {
            Err(e) => {
                return Err(e);
            },
            Ok(Some(Token::Quantity(q))) => q,
            _ => {
                return Err(Error::Parse);
            },
        };
        let done = match op {
            Token::Add => qn.add_assign(rhs),
            Token::Sub => qn.sub_assign(rhs),
            Token::Mul => qn.mul_assign(rhs),
            Token::Div => qn.div_assign(rhs),
            Token::Quantity(_) => Err(Error::Parse),
        };
        match done {
            Ok(()) => {},
            Err(e) => {
                return Err(e);
            },
        }
    }
}

} // verus!
