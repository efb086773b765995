//! The tokens of a unit term and the rules that cut a term into them.
//!
//! A period and an asterisk multiply, a slash divides. A sign or a digit
//! starts a whole number. Anything else starts a unit symbol, which runs up
//! to the next operator, sign, digit or opening brace; a number right behind
//! it is its exponent, a braced text right behind it its annotation.

use crate::error::Error;
use crate::text::{chars_of, i8_value, is_digit, is_sign, parse_i8, string_of};
use crate::unit::{unit_of, Unit, UnitView};
use vstd::prelude::*;

verus! {

/// A token of a unit term.
#[derive(Debug, PartialEq)]
pub enum Token {
    Mul,
    Div,
    Unit(Unit),
    Int(i8),
}

/// What a token is, as plain values.
pub enum TokenView {
    Mul,
    Div,
    Unit(UnitView),
    Int(int),
}

impl View for Token {
    type V = TokenView;

    open spec fn view(&self) -> TokenView {
        match self {
            Token::Mul => TokenView::Mul,
            Token::Div => TokenView::Div,
            Token::Unit(u) => TokenView::Unit(u@),
            Token::Int(v) => TokenView::Int(*v as int),
        }
    }
}

/// What reading one token from a position gives: the end of the text, a
/// token and the position behind it, or an error.
pub enum Lexed {
    End,
    Token(TokenView, int),
    Error(Error),
}

/// Whether `c` ends a unit symbol.
pub open spec fn ends_symbol(c: char) -> bool {
    c == '.' || c == '*' || c == '/' || c == '^' || c == '{' || is_sign(c) || is_digit(c)
}

/// Whether `c` can start no token: a closing bracket, or a caret.
pub open spec fn is_stray(c: char) -> bool {
    c == '}' || c == ')' || c == ']' || c == '^'
}

/// The first position at or after `i` that holds no digit.
pub open spec fn digits_end(s: Seq<char>, i: int) -> int
    decreases s.len() - i,
{
    if 0 <= i < s.len() && is_digit(s[i]) {
        digits_end(s, i + 1)
    } else {
        i
    }
}

/// The first position at or after `i` that holds a character which ends a
/// unit symbol.
pub open spec fn symbol_end(s: Seq<char>, i: int) -> int
    decreases s.len() - i,
{
    if 0 <= i < s.len() && !ends_symbol(s[i]) {
        symbol_end(s, i + 1)
    } else {
        i
    }
}

/// The first position at or after `i` that holds a closing brace.
pub open spec fn brace_end(s: Seq<char>, i: int) -> int
    decreases s.len() - i,
{
    if 0 <= i < s.len() && s[i] != '}' {
        brace_end(s, i + 1)
    } else {
        i
    }
}

/// The whole number that starts at `i` with a sign or a digit and runs over
/// the digits behind it. A number outside the range of a signed 8-bit
/// integer, or a sign without a digit, is a numeric error.
pub open spec fn lex_int(s: Seq<char>, i: int) -> Lexed {
    let j = digits_end(s, i + 1);
    match i8_value(s.subrange(i, j)) {
        Some(v) => Lexed::Token(TokenView::Int(v), j),
        None => Lexed::Error(Error::Numeric),
    }
}

/// The unit that starts at `i`. Its symbol runs up to the first character
/// that ends a symbol. An opening brace there starts the annotation, which
/// runs up to the closing brace; without a closing brace the rest of the
/// text is passed over and the unit has no annotation. A sign or a digit
/// there starts the exponent. Otherwise the exponent is one.
pub open spec fn lex_unit(s: Seq<char>, i: int) -> Lexed {
    let j = symbol_end(s, i);
    let name = s.subrange(i, j);
    if j < s.len() && s[j] == '{' {
        let k = brace_end(s, j + 1);
        if k < s.len() {
            Lexed::Token(TokenView::Unit(unit_of(name, 1, Some(s.subrange(j + 1, k)))), k + 1)
        } else {
            Lexed::Token(TokenView::Unit(unit_of(name, 1, None)), s.len() as int)
        }
    } else if j < s.len() && (is_sign(s[j]) || is_digit(s[j])) {
        let m = digits_end(s, j + 1);
        match i8_value(s.subrange(j, m)) {
            Some(e) => Lexed::Token(TokenView::Unit(unit_of(name, e, None)), m),
            None => Lexed::Error(Error::Numeric),
        }
    } else {
        Lexed::Token(TokenView::Unit(unit_of(name, 1, None)), j)
    }
}

/// The token that starts at position `i` of `s`, blanks before it passed
/// over.
pub open spec fn lex(s: Seq<char>, i: int) -> Lexed
    decreases s.len() - i,
{
    if i < 0 || i >= s.len() {
        Lexed::End
    } else if s[i] == ' ' {
        lex(s, i + 1)
    } else if s[i] == '.' || s[i] == '*' {
        Lexed::Token(TokenView::Mul, i + 1)
    } else if s[i] == '/' {
        Lexed::Token(TokenView::Div, i + 1)
    } else if is_sign(s[i]) || is_digit(s[i]) {
        lex_int(s, i)
    } else if is_stray(s[i]) {
        Lexed::Error(Error::Lexical)
    } else {
        lex_unit(s, i)
    }
}

/// The end of a run of digits lies between its start and the end of the
/// text.
pub proof fn lemma_digits_end_bounds(s: Seq<char>, i: int)
    requires
        0 <= i <= s.len(),
    ensures
        i <= digits_end(s, i) <= s.len(),
    decreases s.len() - i,
{
    if i < s.len() && is_digit(s[i]) {
        lemma_digits_end_bounds(s, i + 1);
    }
}

/// The end of a symbol lies between its start and the end of the text.
pub proof fn lemma_symbol_end_bounds(s: Seq<char>, i: int)
    requires
        0 <= i <= s.len(),
    ensures
        i <= symbol_end(s, i) <= s.len(),
    decreases s.len() - i,
{
    if i < s.len() && !ends_symbol(s[i]) {
        lemma_symbol_end_bounds(s, i + 1);
    }
}

/// The closing brace, or the end of the text, lies behind the start.
pub proof fn lemma_brace_end_bounds(s: Seq<char>, i: int)
    requires
        0 <= i <= s.len(),
    ensures
        i <= brace_end(s, i) <= s.len(),
    decreases s.len() - i,
{
    if i < s.len() && s[i] != '}' {
        lemma_brace_end_bounds(s, i + 1);
    }
}

/// Every token takes at least one character: the position behind a token
/// lies strictly behind the position it was read from, and within the text.
pub proof fn lemma_lex_advances(s: Seq<char>, i: int)
    ensures
        lex(s, i) matches Lexed::Token(_, p) ==> 0 <= i < p <= s.len(),
    decreases s.len() - i,
{
    if 0 <= i < s.len() {
        if s[i] == ' ' {
            lemma_lex_advances(s, i + 1);
        } else if s[i] == '.' || s[i] == '*' || s[i] == '/' {
        } else if is_sign(s[i]) || is_digit(s[i]) {
            lemma_digits_end_bounds(s, i + 1);
        } else if is_stray(s[i]) {
        } else {
            let j = symbol_end(s, i);
            lemma_symbol_end_bounds(s, i);
            if s[i] != '{' {
                lemma_symbol_end_bounds(s, i + 1);
            }
            if j < s.len() {
                lemma_brace_end_bounds(s, j + 1);
                lemma_digits_end_bounds(s, j + 1);
            }
        }
    }
}

/// Reads the tokens of a unit term, one at a time. The text is held as its
/// characters with the position of the next one, so that a character which
/// ends a token is looked at and left where it is: nothing is read and put
/// back.
#[derive(Debug)]
pub struct Tokenizer {
    chars: Vec<char>,
    pos: usize,
}

impl Tokenizer {
    #[verifier::type_invariant]
    spec fn in_bounds(self) -> bool {
        self.pos <= self.chars.len()
    }

    /// The text that is read.
    pub closed spec fn input(&self) -> Seq<char> {
        self.chars@
    }

    /// The position of the next character to read.
    pub closed spec fn position(&self) -> int {
        self.pos as int
    }

    /// A tokenizer at the start of `s`.
    pub fn new(s: &str) -> (r: Self)
        ensures
            r.input() == s@,
            r.position() == 0,
    {
        Tokenizer { chars: chars_of(s), pos: 0 }
    }

    /// How many characters are left to read.
    pub fn remaining(&self) -> (r: usize)
        ensures
            r == self.input().len() - self.position(),
            0 <= self.position() <= self.input().len(),
    {
        proof {
            use_type_invariant(self);
        }
        self.chars.len() - self.pos
    }

    /// The first position at or after `i` that holds no digit.
    fn skip_digits(&self, i: usize) -> (j: usize)
        requires
            i <= self.chars.len(),
        ensures
            j == digits_end(self.chars@, i as int),
            i <= j <= self.chars.len(),
    {
        let mut j = i;
        while j < self.chars.len() && digit_at(&self.chars, j)
            invariant
                i <= j <= self.chars.len(),
                digits_end(self.chars@, i as int) == digits_end(self.chars@, j as int),
            decreases self.chars.len() - j,
        {
            j += 1;
        }
        j
    }

    /// Reads the text up to the closing brace as an annotation. The
    /// tokenizer stands behind the opening brace. Without a closing brace
    /// the rest of the text is passed over and there is no annotation.
    fn read_annotation(&mut self) -> (r: Option<String>)
        ensures
            final(self).input() == old(self).input(),
            ({
                let s = old(self).input();
                let k = brace_end(s, old(self).position());
                if k < s.len() {
                    &&& r matches Some(a)
                    &&& a@ == s.subrange(old(self).position(), k)
                    &&& final(self).position() == k + 1
                } else {
                    &&& r is None
                    &&& final(self).position() == s.len()
                }
            }),
    {
        proof {
            use_type_invariant(&*self);
        }
        let start = self.pos;
        let mut k = start;
        while k < self.chars.len() && self.chars[k] != '}'
            invariant
                start <= k <= self.chars.len(),
                brace_end(self.chars@, start as int) == brace_end(self.chars@, k as int),
            decreases self.chars.len() - k,
        {
            k += 1;
        }
        if k < self.chars.len() {
            let a = string_of(&self.chars, start, k);
            self.pos = k + 1;
            Some(a)
        } else {
            self.pos = k;
            None
        }
    }

    /// Reads the whole number that starts at the tokenizer's position with a
    /// sign or a digit.
    fn read_int(&mut self) -> (r: Option<i8>)
        requires
            old(self).position() < old(self).input().len(),
        ensures
            final(self).input() == old(self).input(),
            ({
                let s = old(self).input();
                let i = old(self).position();
                let j = digits_end(s, i + 1);
                &&& final(self).position() == j
                &&& match r {
                    Some(v) => i8_value(s.subrange(i, j)) == Some(v as int),
                    None => i8_value(s.subrange(i, j)) is None,
                }
            }),
    {
        proof {
            use_type_invariant(&*self);
        }
        let start = self.pos;
        let end = self.skip_digits(start + 1);
        self.pos = end;
        parse_i8(&self.chars, start, end)
    }

    /// Reads the unit that starts at the tokenizer's position.
    fn read_unit(&mut self) -> (r: Result<Token, Error>)
        requires
            old(self).position() < old(self).input().len(),
        ensures
            final(self).input() == old(self).input(),
            match lex_unit(old(self).input(), old(self).position()) {
                Lexed::Token(t, p) => {
                    &&& r matches Ok(token) && token@ == t
                    &&& final(self).position() == p
                },
                Lexed::Error(e) => r == Err::<Token, Error>(e),
                Lexed::End => false,
            },
    {
        proof {
            use_type_invariant(&*self);
        }
        let start = self.pos;
        let mut j = start;
        while j < self.chars.len() && !symbol_stops_at(&self.chars, j)
            invariant
                start <= j <= self.chars.len(),
                symbol_end(self.chars@, start as int) == symbol_end(self.chars@, j as int),
            decreases self.chars.len() - j,
        {
            j += 1;
        }
        let name = string_of(&self.chars, start, j);
        if j < self.chars.len() && self.chars[j] == '{' {
            self.pos = j + 1;
            let annotation = self.read_annotation();
            Ok(Token::Unit(Unit::new(name, 1, annotation)))
        } else if j < self.chars.len() && starts_number(self.chars[j]) {
            self.pos = j;
            match self.read_int() {
                Some(exp) => Ok(Token::Unit(Unit::new(name, exp, None))),
                None => Err(Error::Numeric),
            }
        } else {
            self.pos = j;
            Ok(Token::Unit(Unit::new(name, 1, None)))
        }
    }

    /// Reads the next token. At the end of the text there is none.
    pub fn next(&mut self) -> (r: Result<Option<Token>, Error>)
        ensures
            final(self).input() == old(self).input(),
            match lex(old(self).input(), old(self).position()) {
                Lexed::End => {
                    &&& r matches Ok(None)
                    &&& final(self).position() == old(self).input().len()
                },
                Lexed::Token(t, p) => {
                    &&& r matches Ok(Some(token)) && token@ == t
                    &&& final(self).position() == p
                },
                Lexed::Error(e) => r == Err::<Option<Token>, Error>(e),
            },
    {
        proof {
            use_type_invariant(&*self);
        }
        let ghost s = self.chars@;
        let ghost start = self.pos as int;
        while self.pos < self.chars.len() && self.chars[self.pos] == ' '
            invariant
                self.chars@ == s,
                self.pos <= self.chars.len(),
                lex(s, start) == lex(s, self.pos as int),
            decreases self.chars.len() - self.pos,
        {
            self.pos += 1;
        }
        if self.pos >= self.chars.len() {
            return Ok(None);
        }
        let c = self.chars[self.pos];
        if c == '.' || c == '*' {
            self.pos += 1;
            Ok(Some(Token::Mul))
        } else if c == '/' {
            self.pos += 1;
            Ok(Some(Token::Div))
        } else if starts_number(c) {
            match self.read_int() {
                Some(v) => Ok(Some(Token::Int(v))),
                None => Err(Error::Numeric),
            }
        } else if c == '}' || c == ')' || c == ']' || c == '^' {
            Err(Error::Lexical)
        } else {
            match self.read_unit() {
                Ok(token) => Ok(Some(token)),
                Err(e) => Err(e),
            }
        }
    }

    /// Reads all the tokens that are left.
    #[verifier::loop_isolation(false)]
    pub fn collect(self) -> (r: Result<Vec<Token>, Error>)
        ensures
            match tokens_from(self.input(), self.position()) {
                Ok(list) => r matches Ok(v) && token_views(v@) == list,
                Err(e) => r == Err::<Vec<Token>, Error>(e),
            },
    {
        let ghost s = self.input();
        let ghost start = self.position();
        let mut tokenizer = self;
        let mut tokens: Vec<Token> = Vec::new();
        let _ = tokenizer.remaining();
        proof {
            assert(token_views(tokens@) =~= Seq::<TokenView>::empty());
            match tokens_from(s, start) {
                Ok(list) => {
                    assert(Seq::<TokenView>::empty() + list =~= list);
                },
                Err(_) => {},
            }
        }
        loop
            invariant
                tokenizer.input() == s,
                0 <= tokenizer.position() <= s.len(),
                tokens_from(s, start) == prepend(
                    token_views(tokens@),
                    tokens_from(s, tokenizer.position()),
                ),
            decreases s.len() - tokenizer.position(),
        {
            let ghost before = tokenizer.position();
            let ghost seen = token_views(tokens@);
            proof {
                lemma_lex_advances(s, before);
            }
            let _ = tokenizer.remaining();
            match tokenizer.next() {
                Err(e) => {
                    return Err(e);
                },
                Ok(None) => {
                    proof {
                        assert(seen + Seq::<TokenView>::empty() =~= seen);
                    }
                    return Ok(tokens);
                },
                Ok(Some(token)) => {
                    proof {
                        let rest = tokens_from(s, tokenizer.position());
                        assert(token_views(tokens@.push(token)) =~= seen.push(token@));
                        match rest {
                            Ok(list) => {
                                assert(seen + (seq![token@] + list) =~= seen.push(token@) + list);
                            },
                            Err(_) => {},
                        }
                    }
                    tokens.push(token);
                },
            }
        }
    }
}

/// The views of the tokens of a list, in order.
pub open spec fn token_views(tokens: Seq<Token>) -> Seq<TokenView> {
    Seq::new(tokens.len(), |i: int| tokens[i]@)
}

/// The tokens already read, put before what reading the rest gives.
pub open spec fn prepend(seen: Seq<TokenView>, rest: Result<Seq<TokenView>, Error>) -> Result<
    Seq<TokenView>,
    Error,
> {
    match rest {
        Ok(list) => Ok(seen + list),
        Err(e) => Err(e),
    }
}

/// All the tokens of `s` from position `i` on, or the first error met.
pub open spec fn tokens_from(s: Seq<char>, i: int) -> Result<Seq<TokenView>, Error>
    decreases s.len() - i,
{
    match lex(s, i) {
        Lexed::End => Ok(Seq::empty()),
        Lexed::Error(e) => Err(e),
        Lexed::Token(t, p) => {
            proof {
                lemma_lex_advances(s, i);
            }
            prepend(seq![t], tokens_from(s, p))
        },
    }
}

/// Whether the character at `j` is a digit.
fn digit_at(chars: &Vec<char>, j: usize) -> (r: bool)
    requires
        j < chars.len(),
    ensures
        r == is_digit(chars@[j as int]),
{
    let c = chars[j];
    c == '0' || c == '1' || c == '2' || c == '3' || c == '4' || c == '5' || c == '6' || c == '7'
        || c == '8' || c == '9'
}

/// Whether `c` is a sign or a digit.
fn starts_number(c: char) -> (r: bool)
    ensures
        r == (is_sign(c) || is_digit(c)),
{
    c == '+' || c == '-' || c == '0' || c == '1' || c == '2' || c == '3' || c == '4' || c == '5'
        || c == '6' || c == '7' || c == '8' || c == '9'
}

/// Whether the character at `j` ends a unit symbol.
fn symbol_stops_at(chars: &Vec<char>, j: usize) -> (r: bool)
    requires
        j < chars.len(),
    ensures
        r == ends_symbol(chars@[j as int]),
{
    let c = chars[j];
    c == '.' || c == '*' || c == '/' || c == '^' || c == '{' || starts_number(c)
}

} // verus!
