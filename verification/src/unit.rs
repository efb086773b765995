//! Units: a unit atom such as `m` or `[in_i]`, an optional prefix before a
//! metric atom, an exponent, and an optional annotation.
//!
//! - `m`, `bit`, `atm`: a unit atom.
//! - `kg`, `Gibit`, `mK`: a metric unit atom with a prefix.
//! - `m1`, `s-2`, `W-1`: a unit with an exponent (1 where none is written).

use crate::dimension::{
    bare, dimension_of, dimension_of_atom, prefix_symbol, Dimension, UnitPrefix,
};
use crate::tables::{
    conversion, find_conversion, is_metric, is_metric_atom, is_prefix, is_prefix_symbol,
};
use crate::text::{chars_of, int_text, push_i8, str_eq, string_of};
use vstd::prelude::*;
use vstd::string::StringExecFns;

verus! {

/// A unit: prefix, atom, exponent, annotation. The prefix is empty where the
/// unit has none. The annotation is free text that no rule looks at.
#[derive(Debug, PartialEq)]
pub struct Unit {
    pub prefix: String,
    pub atom: String,
    pub exp: i8,
    pub annotation: Option<String>,
}

/// What a unit is, as plain values. The exponent is an unbounded integer, so
/// that sums and negations of exponents can be written down before they are
/// known to fit.
pub struct UnitView {
    pub prefix: Seq<char>,
    pub atom: Seq<char>,
    pub exp: int,
    pub annotation: Option<Seq<char>>,
}

impl View for Unit {
    type V = UnitView;

    open spec fn view(&self) -> UnitView {
        UnitView {
            prefix: self.prefix@,
            atom: self.atom@,
            exp: self.exp as int,
            annotation: match self.annotation {
                Some(a) => Some(a@),
                None => None,
            },
        }
    }
}

/// Whether a unit is well formed: it has a prefix only before a metric unit
/// atom.
pub open spec fn well_formed(u: UnitView) -> bool {
    u.prefix.len() == 0 || is_metric_atom(u.atom)
}

/// The views of the units of a list, in order.
pub open spec fn views(units: Seq<Unit>) -> Seq<UnitView> {
    Seq::new(units.len(), |i: int| units[i]@)
}

/// How many leading characters of a unit symbol are its prefix: the least of
/// one and two such that the characters before are a prefix and the rest is a
/// metric atom, and none where neither split is of that kind.
pub open spec fn prefix_len(s: Seq<char>) -> int {
    if s.len() > 1 && is_prefix_symbol(s.take(1)) && is_metric_atom(s.skip(1)) {
        1
    } else if s.len() > 2 && is_prefix_symbol(s.take(2)) && is_metric_atom(s.skip(2)) {
        2
    } else {
        0
    }
}

/// The unit that a symbol, an exponent and an annotation make: the symbol is
/// split into prefix and atom at `prefix_len`.
pub open spec fn unit_of(s: Seq<char>, exp: int, annotation: Option<Seq<char>>) -> UnitView {
    UnitView { prefix: s.take(prefix_len(s)), atom: s.skip(prefix_len(s)), exp, annotation }
}

/// The same unit with the exponent negated.
pub open spec fn inverted(u: UnitView) -> UnitView {
    UnitView { prefix: u.prefix, atom: u.atom, exp: -u.exp, annotation: u.annotation }
}

/// The symbol of a unit: prefix, then atom.
pub open spec fn symbol(u: UnitView) -> Seq<char> {
    u.prefix + u.atom
}

/// How a unit is written out in full: symbol, then exponent.
pub open spec fn unit_text(u: UnitView) -> Seq<char> {
    symbol(u) + int_text(u.exp)
}

/// How a unit is written inside a term: symbol, then the exponent unless it
/// is one.
pub open spec fn factor_text(u: UnitView) -> Seq<char> {
    if u.exp == 1 {
        symbol(u)
    } else {
        symbol(u) + int_text(u.exp)
    }
}

/// How a list of units is written as a term: the units in order, a period
/// between them. While nothing has been written yet, no period is put.
pub open spec fn units_text(units: Seq<UnitView>) -> Seq<char>
    decreases units.len(),
{
    if units.len() == 0 {
        Seq::empty()
    } else {
        let before = units_text(units.drop_last());
        if before.len() == 0 {
            factor_text(units.last())
        } else {
            before + seq!['.'] + factor_text(units.last())
        }
    }
}

impl Clone for Unit {
    fn clone(&self) -> (r: Self)
        ensures
            r == *self,
    {
        Unit {
            prefix: self.prefix.clone(),
            atom: self.atom.clone(),
            exp: self.exp,
            annotation: match &self.annotation {
                Some(a) => Some(a.clone()),
                None => None,
            },
        }
    }
}

impl Unit {
    /// Splits the symbol `s` into prefix and atom. The split is tried after
    /// the first character, then after the second: the first one that leaves
    /// a prefix before it and a metric atom behind it is taken. Where neither
    /// does, the whole symbol is the atom.
    pub fn new(s: String, exp: i8, annotation: Option<String>) -> (r: Self)
        ensures
            r@ == unit_of(
                s@,
                exp as int,
                match annotation {
                    Some(a) => Some(a@),
                    None => None,
                },
            ),
            well_formed(r@),
    {
        let chars = chars_of(s.as_str());
        let n = chars.len();
        if n > 1 {
            let head = string_of(&chars, 0, 1);
            let rest = string_of(&chars, 1, n);
            if is_prefix(head.as_str()) && is_metric(rest.as_str()) {
                return Unit { prefix: head, atom: rest, exp, annotation };
            }
        }
        if n > 2 {
            let head = string_of(&chars, 0, 2);
            let rest = string_of(&chars, 2, n);
            if is_prefix(head.as_str()) && is_metric(rest.as_str()) {
                return Unit { prefix: head, atom: rest, exp, annotation };
            }
        }
        proof {
            assert(s@.take(0) =~= Seq::<char>::empty());
            assert(s@.skip(0) =~= s@);
        }
        Unit { prefix: String::new(), atom: s, exp, annotation }
    }

    /// The unit with the atom `atom`, without prefix, with the exponent one.
    pub fn new_atomic(atom: &str) -> (r: Self)
        ensures
            r@ == bare(atom@, 1),
            well_formed(r@),
    {
        Unit { prefix: String::new(), atom: String::from_str(atom), exp: 1, annotation: None }
    }

    /// The unit with the atom `unit`, without prefix, with the exponent
    /// `power`.
    pub fn new_bare(unit: &str, power: i8) -> (r: Self)
        ensures
            r@ == bare(unit@, power as int),
            well_formed(r@),
    {
        Unit { prefix: String::new(), atom: String::from_str(unit), exp: power, annotation: None }
    }

    /// The unit with the prefix `pre`, the atom `unit` and the exponent
    /// `power`. A unit atom that takes no prefix gets none.
    pub fn new_metric(pre: UnitPrefix, unit: &str, power: i8) -> (r: Self)
        ensures
            r@ == (UnitView {
                prefix: if is_metric_atom(unit@) {
                    prefix_symbol(pre)
                } else {
                    Seq::empty()
                },
                atom: unit@,
                exp: power as int,
                annotation: None,
            }),
            well_formed(r@),
    {
        let prefix = if is_metric(unit) {
            String::from_str(pre.symbol())
        } else {
            String::new()
        };
        Unit { prefix, atom: String::from_str(unit), exp: power, annotation: None }
    }

    /// Whether the two units are the same up to a scaling factor: the same
    /// atom with the same exponent, prefixes aside.
    pub fn is_similar(&self, other: &Self) -> (r: bool)
        ensures
            r == (self@.atom == other@.atom && self@.exp == other@.exp),
    {
        self.atom == other.atom && self.exp == other.exp
    }

    /// Whether the atom of the unit is one that takes a prefix.
    pub fn is_metric(&self) -> (r: bool)
        ensures
            r == is_metric_atom(self@.atom),
    {
        is_metric(self.atom.as_str())
    }

    /// Whether the atom of the unit is a base unit: one that the conversions
    /// define by itself.
    pub fn is_base(&self) -> (r: bool)
        ensures
            r == (conversion(self@.atom) == Some(self@.atom)),
    {
        match find_conversion(self.atom.as_str()) {
            Some(definition) => str_eq(definition, self.atom.as_str()),
            None => false,
        }
    }

    /// The dimension that the atom of the unit measures.
    pub fn dimension(&self) -> (r: Dimension)
        ensures
            r@ == dimension_of(self@.atom),
    {
        dimension_of_atom(self.atom.as_str())
    }

    /// Whether the atoms of the two units measure the same dimension.
    pub fn is_compatible(&self, other: &Self) -> (r: bool)
        ensures
            r == (dimension_of(self@.atom) == dimension_of(other@.atom)),
    {
        self.dimension().same(&other.dimension())
    }

    /// The same unit with the exponent negated. The least exponent has no
    /// negation and is left out.
    pub fn invert(&self) -> (r: Self)
        requires
            self.exp != i8::MIN,
        ensures
            r@ == inverted(self@),
            well_formed(self@) ==> well_formed(r@),
    {
        Unit {
            prefix: self.prefix.clone(),
            atom: self.atom.clone(),
            exp: -self.exp,
            annotation: match &self.annotation {
                Some(a) => Some(a.clone()),
                None => None,
            },
        }
    }

    /// The symbol of the unit: prefix, then atom.
    pub fn unit(&self) -> (r: String)
        ensures
            r@ == symbol(self@),
    {
        let mut r = self.prefix.clone();
        r.append(self.atom.as_str());
        r
    }

    /// Whether the two units are the same unit: the same prefix and the same
    /// atom. Exponent and annotation play no part.
    pub fn has_same_unit(&self, other: &Self) -> (r: bool)
        ensures
            r == (self@.prefix == other@.prefix && self@.atom == other@.atom),
    {
        self.prefix == other.prefix && self.atom == other.atom
    }

    /// The unit written out in full: symbol, then exponent, as in `m1`.
    pub fn to_string(&self) -> (r: String)
        ensures
            r@ == unit_text(self@),
    {
        let mut r = self.unit();
        push_i8(&mut r, self.exp);
        r
    }
}

/// A list of units, borrowed to be written out as a term.
#[derive(Debug, Clone, Copy)]
pub struct Units<'a>(pub &'a Vec<Unit>);

impl<'a> Units<'a> {
    /// The units written as a term, as in `kg.m.s-2`: an exponent of one is
    /// not written.
    pub fn to_string(&self) -> (r: String)
        ensures
            r@ == units_text(views(self.0@)),
    {
        let units = self.0;
        let mut r = String::new();
        let mut i: usize = 0;
        while i < units.len()
            invariant
                i <= units.len(),
                r@ == units_text(views(units@).take(i as int)),
            decreases units.len() - i,
        {
            let ghost before = views(units@).take(i as int);
            let ghost after = views(units@).take(i + 1);
            proof {
                assert(after.drop_last() =~= before);
                assert(after.last() == units@[i as int]@);
            }
            if !r.as_str().is_empty() {
                r.push('.');
            }
            let ghost started = r@;
            let u = &units[i];
            r.append(u.prefix.as_str());
            r.append(u.atom.as_str());
            if u.exp != 1 {
                push_i8(&mut r, u.exp);
            }
            proof {
                assert(r@ =~= started + factor_text(u@));
            }
            i += 1;
        }
        proof {
            assert(views(units@).take(units.len() as int) =~= views(units@));
        }
        r
    }
}

} // verus!
