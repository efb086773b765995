//! Unit terms: a magnitude and a list of units in normal form, their
//! algebra, and their reduction to base units.

use crate::error::Error;
use crate::lexer::Tokenizer;
use crate::magnitude::{
    in_range, lowest, mag_mul, mag_one, mag_pow, MagView, Magnitude,
};
use crate::normal::{
    all_fit, fits, normalize, normalize_units, normalized, same_key, same_units, with_exp,
};
use crate::parser::{lemma_step_advances, parse_from, Parsed, Parser};
use crate::tables::{conversion, find_conversion, find_prefix_scale, prefix_scale};
use crate::text::{chars_of, str_eq};
use crate::unit::{inverted, units_text, views, Unit, UnitView, Units};
use vstd::prelude::*;

verus! {

/// How deep a reduction to base units may go: a definition that refers to a
/// definition, and so on, this many times.
pub const MAX_DEPTH: u8 = 32;

/// A unit term: a magnitude and a list of units.
#[derive(Debug)]
pub struct UnitTerm {
    pub mag: Magnitude,
    pub units: Vec<Unit>,
}

/// What a unit term is, as plain values.
pub struct TermView {
    pub mag: MagView,
    pub units: Seq<UnitView>,
}

impl View for UnitTerm {
    type V = TermView;

    open spec fn view(&self) -> TermView {
        TermView { mag: self.mag@, units: views(self.units@) }
    }
}

/// The unit term that a text denotes: its units in normal form, and its
/// magnitude.
pub open spec fn term_of(s: Seq<char>) -> Result<TermView, Error> {
    match parse_from(s, 0, mag_one(), Seq::empty()) {
        Ok(parsed) => match normalize(parsed.units) {
            Ok(n) => Ok(TermView { mag: parsed.mag, units: n }),
            Err(e) => Err(e),
        },
        Err(e) => Err(e),
    }
}

/// The units of the list, each inverted.
pub open spec fn inverse(units: Seq<UnitView>) -> Seq<UnitView> {
    Seq::new(units.len(), |i: int| inverted(units[i]))
}

/// The term with every unit inverted; the magnitude stays.
pub open spec fn inverted_term(t: TermView) -> TermView {
    TermView { mag: t.mag, units: inverse(t.units) }
}

/// The units of the list, each with its exponent multiplied by `e`.
pub open spec fn scaled(units: Seq<UnitView>, e: int) -> Seq<UnitView> {
    Seq::new(units.len(), |i: int| with_exp(units[i], units[i].exp * e))
}

/// Whether a definition is no unit term: it starts with `@`, `=` or `1`.
pub open spec fn is_opaque(definition: Seq<char>) -> bool {
    definition.len() > 0 && (definition[0] == '@' || definition[0] == '=' || definition[0]
        == '1')
}

/// Whether the atom stands for itself under reduction: the conversions do
/// not have it, define it by itself, or define it by what is no unit term.
pub open spec fn is_irreducible(atom: Seq<char>) -> bool {
    match conversion(atom) {
        None => true,
        Some(definition) => definition == atom || is_opaque(definition),
    }
}

/// The base units of one unit. A unit whose atom is irreducible stays as it
/// is, prefix included. Otherwise the atom's definition is read as a unit
/// term, that term's units are reduced in turn, and every exponent is
/// multiplied by the exponent of the unit; the prefix goes. Beyond the depth
/// `depth`, and where the definition cannot be read, it is a reduction
/// error; where an exponent leaves its range, a numeric error.
pub open spec fn expand(u: UnitView, depth: nat) -> Result<Seq<UnitView>, Error>
    decreases depth, 0nat,
{
    if is_irreducible(u.atom) {
        Ok(seq![u])
    } else if depth == 0 {
        Err(Error::Reduction)
    } else {
        match term_of(conversion(u.atom)->Some_0) {
            Err(_) => Err(Error::Reduction),
            Ok(t) => match expand_all(t.units, (depth - 1) as nat) {
                Err(e) => Err(e),
                Ok(base) => if all_fit(scaled(base, u.exp)) {
                    Ok(scaled(base, u.exp))
                } else {
                    Err(Error::Numeric)
                },
            },
        }
    }
}

/// The base units of the units of a list, one after the other, or the first
/// error met.
pub open spec fn expand_all(units: Seq<UnitView>, depth: nat) -> Result<Seq<UnitView>, Error>
    decreases depth, units.len() + 1,
{
    if units.len() == 0 {
        Ok(Seq::empty())
    } else {
        match expand_all(units.drop_last(), depth) {
            Err(e) => Err(e),
            Ok(front) => match expand(units.last(), depth) {
                Err(e) => Err(e),
                Ok(back) => Ok(front + back),
            },
        }
    }
}

/// The base units of a list of units, in normal form.
pub open spec fn base_units(units: Seq<UnitView>) -> Result<Seq<UnitView>, Error> {
    match expand_all(units, MAX_DEPTH as nat) {
        Err(e) => Err(e),
        Ok(base) => normalize(base),
    }
}

/// The factor that a prefix stands for; one for the empty prefix and for
/// what is no prefix.
pub open spec fn prefix_factor(prefix: Seq<char>) -> Option<MagView> {
    match prefix_scale(prefix) {
        None => Some(mag_one()),
        Some((n, d)) => if d == 0 || !in_range(n) || !in_range(d) {
            None
        } else if d < 0 {
            Some(lowest(-n, -d))
        } else {
            Some(lowest(n, d))
        },
    }
}

/// The factor that the reduction of one unit brings: one for a unit whose
/// atom is irreducible; otherwise the factor of the prefix, times the
/// magnitude that the definition is written with (the twelfth in `a_j/12`),
/// times the factor that the definition's units bring in turn, all to the
/// power of the exponent.
pub open spec fn unit_scale(u: UnitView, depth: nat) -> Result<MagView, Error>
    decreases depth, 0nat,
{
    if is_irreducible(u.atom) {
        Ok(mag_one())
    } else if depth == 0 {
        Err(Error::Reduction)
    } else {
        match term_of(conversion(u.atom)->Some_0) {
            Err(_) => Err(Error::Reduction),
            Ok(t) => match units_scale(t.units, (depth - 1) as nat) {
                Err(e) => Err(e),
                Ok(inner) => match prefix_factor(u.prefix) {
                    None => Err(Error::Numeric),
                    Some(own) => match mag_mul(own, t.mag) {
                        None => Err(Error::Numeric),
                        Some(written) => match mag_mul(written, inner) {
                            None => Err(Error::Numeric),
                            Some(all) => match mag_pow(all, u.exp) {
                                None => Err(Error::Numeric),
                                Some(f) => Ok(f),
                            },
                        },
                    },
                },
            },
        }
    }
}

/// The product of the factors that the reductions of the units of a list
/// bring, or the first error met.
pub open spec fn units_scale(units: Seq<UnitView>, depth: nat) -> Result<MagView, Error>
    decreases depth, units.len() + 1,
{
    if units.len() == 0 {
        Ok(mag_one())
    } else {
        match units_scale(units.drop_last(), depth) {
            Err(e) => Err(e),
            Ok(front) => match unit_scale(units.last(), depth) {
                Err(e) => Err(e),
                Ok(back) => match mag_mul(front, back) {
                    None => Err(Error::Numeric),
                    Some(f) => Ok(f),
                },
            },
        }
    }
}

/// The term reduced to base units: its base units in normal form, and its
/// magnitude times the factors that the reduction brings. These are the
/// factors of the prefixes that go and the magnitudes that the definitions
/// are written with. The conversions hold no other number: what a unit is
/// worth beyond its definition (sixty, for the minute defined by `s`) is
/// not known here and is not counted.
pub open spec fn reduced(t: TermView) -> Result<TermView, Error> {
    match base_units(t.units) {
        Err(e) => Err(e),
        Ok(base) => match units_scale(t.units, MAX_DEPTH as nat) {
            Err(e) => Err(e),
            Ok(f) => match mag_mul(t.mag, f) {
                None => Err(Error::Numeric),
                Some(m) => Ok(TermView { mag: m, units: base }),
            },
        },
    }
}

/// Whether two lists of units have the same base units.
pub open spec fn units_equal(a: Seq<UnitView>, b: Seq<UnitView>) -> Result<bool, Error> {
    match base_units(a) {
        Err(e) => Err(e),
        Ok(x) => match base_units(b) {
            Err(e) => Err(e),
            Ok(y) => Ok(same_units(x, y)),
        },
    }
}

/// Whether two lists hold the same atoms with the same exponents in the
/// same order, prefixes and annotations aside.
pub open spec fn same_atoms(a: Seq<UnitView>, b: Seq<UnitView>) -> bool {
    &&& a.len() == b.len()
    &&& forall|i: int|
        0 <= i < a.len() ==> (#[trigger] a[i]).atom == b[i].atom && a[i].exp == b[i].exp
}

/// Whether two lists of units have the same base units, prefixes aside.
pub open spec fn units_commensurable(a: Seq<UnitView>, b: Seq<UnitView>) -> Result<
    bool,
    Error,
> {
    match base_units(a) {
        Err(e) => Err(e),
        Ok(x) => match base_units(b) {
            Err(e) => Err(e),
            Ok(y) => Ok(same_atoms(x, y)),
        },
    }
}

/// The units of the product of two terms.
pub open spec fn product_units(a: Seq<UnitView>, b: Seq<UnitView>) -> Result<
    Seq<UnitView>,
    Error,
> {
    normalize(a + b)
}

/// The units of the quotient of two terms: those of the first with the
/// inverted ones of the second.
pub open spec fn quotient_units(a: Seq<UnitView>, b: Seq<UnitView>) -> Result<
    Seq<UnitView>,
    Error,
> {
    if all_fit(inverse(b)) {
        normalize(a + inverse(b))
    } else {
        Err(Error::Numeric)
    }
}

/// Whether the definition starts with `@`, `=` or `1`.
fn starts_opaque(definition: &str) -> (r: bool)
    ensures
        r == is_opaque(definition@),
{
    let chars = chars_of(definition);
    chars.len() > 0 && (chars[0] == '@' || chars[0] == '=' || chars[0] == '1')
}

/// A copy of a list of units.
pub fn copy_units(units: &Vec<Unit>) -> (r: Vec<Unit>)
    ensures
        r@ == units@,
{
    let mut out: Vec<Unit> = Vec::new();
    let mut i: usize = 0;
    while i < units.len()
        invariant
            i <= units.len(),
            out@ == units@.take(i as int),
        decreases units.len() - i,
    {
        out.push(units[i].clone());
        proof {
            assert(units@.take(i + 1) =~= units@.take(i as int).push(units@[i as int]));
        }
        i += 1;
    }
    proof {
        assert(units@.take(units.len() as int) =~= units@);
    }
    out
}

/// The units of the list, each with its exponent multiplied by `e`.
fn scale_units(units: Vec<Unit>, e: i8) -> (r: Result<Vec<Unit>, Error>)
    ensures
        if all_fit(scaled(views(units@), e as int)) {
            r matches Ok(v) && views(v@) == scaled(views(units@), e as int)
        } else {
            r == Err::<Vec<Unit>, Error>(Error::Numeric)
        },
{
    let ghost target = scaled(views(units@), e as int);
    let mut out: Vec<Unit> = Vec::new();
    let mut i: usize = 0;
    while i < units.len()
        invariant
            i <= units.len(),
            target == scaled(views(units@), e as int),
            views(out@) == target.take(i as int),
            all_fit(target.take(i as int)),
        decreases units.len() - i,
    {
        let u = &units[i];
        assert(-16384 <= (u.exp as int) * (e as int) <= 16384) by (nonlinear_arith)
            requires
                -128 <= (u.exp as int) <= 127,
                -128 <= (e as int) <= 127,
        ;
        let product: i32 = (u.exp as i32) * (e as i32);
        assert(product == target[i as int].exp);
        if product < -128 || product > 127 {
            proof {
                assert(!fits(target[i as int].exp));
            }
            return Err(Error::Numeric);
        }
        let unit = Unit {
            prefix: u.prefix.clone(),
            atom: u.atom.clone(),
            exp: product as i8,
            annotation: match &u.annotation {
                Some(a) => Some(a.clone()),
                None => None,
            },
        };
        proof {
            assert(unit@ == target[i as int]);
            assert(views(out@.push(unit)) =~= views(out@).push(unit@));
            assert(target.take(i as int).push(target[i as int]) =~= target.take(i + 1));
            assert forall|k: int| 0 <= k < i + 1 implies fits(
                #[trigger] target.take(i + 1)[k].exp,
            ) by {
                if k < i {
                    assert(target.take(i as int)[k] == target[k]);
                }
            }
        }
        out.push(unit);
        i += 1;
    }
    proof {
        assert(target.take(units.len() as int) =~= target);
    }
    Ok(out)
}

/// The base units of one unit.
fn expand_unit(u: &Unit, depth: u8) -> (r: Result<Vec<Unit>, Error>)
    ensures
        match expand(u@, depth as nat) {
            Ok(base) => r matches Ok(v) && views(v@) == base,
            Err(e) => r == Err::<Vec<Unit>, Error>(e),
        },
    decreases depth, 0nat,
{
    let definition = match find_conversion(u.atom.as_str()) {
        None => {
            let mut out: Vec<Unit> = Vec::new();
            out.push(u.clone());
            proof {
                assert(views(out@) =~= seq![u@]);
            }
            return Ok(out);
        },
        Some(d) => d,
    };
    if str_eq(definition, u.atom.as_str()) || starts_opaque(definition) {
        let mut out: Vec<Unit> = Vec::new();
        out.push(u.clone());
        proof {
            assert(views(out@) =~= seq![u@]);
        }
        return Ok(out);
    }
    if depth == 0 {
        return Err(Error::Reduction);
    }
    match UnitTerm::new(definition) {
        Err(_) => Err(Error::Reduction),
        Ok(t) => match expand_units(&t.units, depth - 1) {
            Err(e) => Err(e),
            Ok(base) => scale_units(base, u.exp),
        },
    }
}

/// The base units of the units of a list, one after the other.
fn expand_units(units: &Vec<Unit>, depth: u8) -> (r: Result<Vec<Unit>, Error>)
    ensures
        match expand_all(views(units@), depth as nat) {
            Ok(base) => r matches Ok(v) && views(v@) == base,
            Err(e) => r == Err::<Vec<Unit>, Error>(e),
        },
    decreases depth, 1nat,
{
    let mut out: Vec<Unit> = Vec::new();
    let mut i: usize = 0;
    proof {
        assert(views(out@) =~= Seq::<UnitView>::empty());
    }
    while i < units.len()
        invariant
            i <= units.len(),
            expand_all(views(units@).take(i as int), depth as nat) == Ok::<
                Seq<UnitView>,
                Error,
            >(views(out@)),
        decreases units.len() - i,
    {
        proof {
            let before = views(units@).take(i as int);
            let after = views(units@).take(i + 1);
            assert(after.drop_last() =~= before);
            assert(after.last() == units@[i as int]@);
        }
        match expand_unit(&units[i], depth) {
            Err(e) => {
                proof {
                    lemma_expand_all_fails(views(units@), i + 1, depth as nat);
                }
                return Err(e);
            },
            Ok(mut more) => {
                proof {
                    assert(views(out@ + more@) =~= views(out@) + views(more@));
                }
                out.append(&mut more);
            },
        }
        i += 1;
    }
    proof {
        assert(views(units@).take(units.len() as int) =~= views(units@));
    }
    Ok(out)
}

/// Where reducing the first `k` units of a list ends in an error, reducing
/// the whole list ends in that error.
pub proof fn lemma_expand_all_fails(units: Seq<UnitView>, k: int, depth: nat)
    requires
        0 <= k <= units.len(),
        expand_all(units.take(k), depth) is Err,
    ensures
        expand_all(units, depth) == expand_all(units.take(k), depth),
    decreases units.len() - k,
{
    if k < units.len() {
        assert(units.take(k + 1).drop_last() =~= units.take(k));
        lemma_expand_all_fails(units, k + 1, depth);
    } else {
        assert(units.take(k) =~= units);
    }
}

/// Where the factors of the first `k` units of a list end in an error, those
/// of the whole list end in that error.
pub proof fn lemma_units_scale_fails(units: Seq<UnitView>, k: int, depth: nat)
    requires
        0 <= k <= units.len(),
        units_scale(units.take(k), depth) is Err,
    ensures
        units_scale(units, depth) == units_scale(units.take(k), depth),
    decreases units.len() - k,
{
    if k < units.len() {
        assert(units.take(k + 1).drop_last() =~= units.take(k));
        lemma_units_scale_fails(units, k + 1, depth);
    } else {
        assert(units.take(k) =~= units);
    }
}

/// The factor that a prefix stands for.
fn factor_of_prefix(prefix: &str) -> (r: Option<Magnitude>)
    ensures
        match prefix_factor(prefix@) {
            Some(f) => r matches Some(m) && m@ == f,
            None => r is None,
        },
{
    match find_prefix_scale(prefix) {
        None => Some(Magnitude::one()),
        Some((n, d)) => Magnitude::ratio(n, d),
    }
}

/// The factor that the reduction of one unit brings.
fn scale_of_unit(u: &Unit, depth: u8) -> (r: Result<Magnitude, Error>)
    ensures
        match unit_scale(u@, depth as nat) {
            Ok(f) => r matches Ok(m) && m@ == f,
            Err(e) => r == Err::<Magnitude, Error>(e),
        },
    decreases depth, 0nat,
{
    let definition = match find_conversion(u.atom.as_str()) {
        None => {
            return Ok(Magnitude::one());
        },
        Some(d) => d,
    };
    if str_eq(definition, u.atom.as_str()) || starts_opaque(definition) {
        return Ok(Magnitude::one());
    }
    if depth == 0 {
        return Err(Error::Reduction);
    }
    let t = match UnitTerm::new(definition) {
        Err(_) => {
            return Err(Error::Reduction);
        },
        Ok(t) => t,
    };
    let inner = match scale_of_units(&t.units, depth - 1) {
        Err(e) => {
            return Err(e);
        },
        Ok(f) => f,
    };
    let own = match factor_of_prefix(u.prefix.as_str()) {
        None => {
            return Err(Error::Numeric);
        },
        Some(f) => f,
    };
    let written = match own.checked_mul(&t.mag) {
        None => {
            return Err(Error::Numeric);
        },
        Some(f) => f,
    };
    let all = match written.checked_mul(&inner) {
        None => {
            return Err(Error::Numeric);
        },
        Some(f) => f,
    };
    match all.checked_pow(u.exp) {
        None => Err(Error::Numeric),
        Some(f) => Ok(f),
    }
}

/// The product of the factors that the reductions of the units of a list
/// bring.
fn scale_of_units(units: &Vec<Unit>, depth: u8) -> (r: Result<Magnitude, Error>)
    ensures
        match units_scale(views(units@), depth as nat) {
            Ok(f) => r matches Ok(m) && m@ == f,
            Err(e) => r == Err::<Magnitude, Error>(e),
        },
    decreases depth, 1nat,
{
    let mut acc = Magnitude::one();
    let mut i: usize = 0;
    while i < units.len()
        invariant
            i <= units.len(),
            units_scale(views(units@).take(i as int), depth as nat) == Ok::<MagView, Error>(acc@),
        decreases units.len() - i,
    {
        proof {
            let before = views(units@).take(i as int);
            let after = views(units@).take(i + 1);
            assert(after.drop_last() =~= before);
            assert(after.last() == units@[i as int]@);
        }
        match scale_of_unit(&units[i], depth) {
            Err(e) => {
                proof {
                    lemma_units_scale_fails(views(units@), i + 1, depth as nat);
                }
                return Err(e);
            },
            Ok(f) => match acc.checked_mul(&f) {
                None => {
                    proof {
                        lemma_units_scale_fails(views(units@), i + 1, depth as nat);
                    }
                    return Err(Error::Numeric);
                },
                Some(m) => {
                    acc = m;
                },
            },
        }
        i += 1;
    }
    proof {
        assert(views(units@).take(units.len() as int) =~= views(units@));
    }
    Ok(acc)
}

/// Whether two lists hold the same units in the same order, annotations
/// aside.
pub fn same_unit_lists(a: &Vec<Unit>, b: &Vec<Unit>) -> (r: bool)
    ensures
        r == same_units(views(a@), views(b@)),
{
    if a.len() != b.len() {
        return false;
    }
    let mut i: usize = 0;
    while i < a.len()
        invariant
            i <= a.len(),
            a.len() == b.len(),
            forall|k: int|
                0 <= k < i ==> same_key(#[trigger] views(a@)[k], views(b@)[k]) && views(a@)[k].exp
                    == views(b@)[k].exp,
        decreases a.len() - i,
    {
        if !a[i].has_same_unit(&b[i]) || a[i].exp != b[i].exp {
            proof {
                let k = i as int;
                assert(!(same_key(views(a@)[k], views(b@)[k]) && views(a@)[k].exp == views(
                    b@,
                )[k].exp));
            }
            return false;
        }
        i += 1;
    }
    true
}

/// Whether two lists hold the same atoms with the same exponents in the
/// same order, prefixes and annotations aside.
pub fn same_atom_lists(a: &Vec<Unit>, b: &Vec<Unit>) -> (r: bool)
    ensures
        r == same_atoms(views(a@), views(b@)),
{
    if a.len() != b.len() {
        return false;
    }
    let mut i: usize = 0;
    while i < a.len()
        invariant
            i <= a.len(),
            a.len() == b.len(),
            forall|k: int|
                0 <= k < i ==> (#[trigger] views(a@)[k]).atom == views(b@)[k].atom && views(
                    a@,
                )[k].exp == views(b@)[k].exp,
        decreases a.len() - i,
    {
        if a[i].atom != b[i].atom || a[i].exp != b[i].exp {
            proof {
                let k = i as int;
                assert(!(views(a@)[k].atom == views(b@)[k].atom && views(a@)[k].exp == views(
                    b@,
                )[k].exp));
            }
            return false;
        }
        i += 1;
    }
    true
}

/// The base units of a list of units, in normal form.
pub fn base_units_of(units: &Vec<Unit>) -> (r: Result<Vec<Unit>, Error>)
    ensures
        match base_units(views(units@)) {
            Ok(base) => r matches Ok(v) && views(v@) == base && normalized(base),
            Err(e) => r == Err::<Vec<Unit>, Error>(e),
        },
{
    match expand_units(units, MAX_DEPTH) {
        Err(e) => Err(e),
        Ok(base) => normalize_units(base),
    }
}

impl Clone for UnitTerm {
    fn clone(&self) -> (r: Self)
        ensures
            r@ == self@,
    {
        UnitTerm { mag: self.mag, units: copy_units(&self.units) }
    }
}

impl UnitTerm {
    /// Reads a unit term such as `kg.m/s2`. The empty text is the term
    /// without units and with the magnitude one.
    pub fn new(s: &str) -> (r: Result<Self, Error>)
        ensures
            match term_of(s@) {
                Ok(t) => r matches Ok(term) && term@ == t && normalized(t.units),
                Err(e) => r matches Err(x) && x == e,
            },
    {
        let mut p = Parser::new(Tokenizer::new(s));
        let mut units: Vec<Unit> = Vec::new();
        proof {
            assert(views(units@) =~= Seq::<UnitView>::empty());
        }
        let _ = p.tokenizer.remaining();
        loop
            invariant_except_break
                p.tokenizer.input() == s@,
                0 <= p.tokenizer.position() <= s@.len(),
                parse_from(s@, 0, mag_one(), Seq::empty()) == parse_from(
                    s@,
                    p.tokenizer.position(),
                    p.mag@,
                    views(units@),
                ),
            ensures
                parse_from(s@, 0, mag_one(), Seq::empty()) == Ok::<Parsed, Error>(
                    Parsed { mag: p.mag@, units: views(units@) },
                ),
            decreases s@.len() - p.tokenizer.position(),
        {
            proof {
                lemma_step_advances(s@, p.tokenizer.position(), p.mag@);
            }
            match p.next() {
                Err(e) => {
                    return Err(e);
                },
                Ok(None) => {
                    break ;
                },
                Ok(Some(u)) => {
                    proof {
                        assert(views(units@.push(u)) =~= views(units@).push(u@));
                    }
                    units.push(u);
                },
            }
        }
        match normalize_units(units) {
            Ok(normal) => Ok(UnitTerm { mag: p.mag, units: normal }),
            Err(e) => Err(e),
        }
    }

    /// Puts a list of units into normal form: sorted by atom, and among
    /// equal atoms by prefix; the exponents of each prefix and atom added
    /// up; no exponent zero.
    pub fn normalize_units(units: Vec<Unit>) -> (r: Result<Vec<Unit>, Error>)
        ensures
            match normalize(views(units@)) {
                Ok(n) => r matches Ok(v) && views(v@) == n && normalized(n),
                Err(e) => r == Err::<Vec<Unit>, Error>(e),
            },
    {
        normalize_units(units)
    }

    /// Inverts every unit; the magnitude stays. The least exponent has no
    /// negation and is left out.
    pub fn invert(&mut self)
        requires
            all_fit(inverse(views(old(self).units@))),
        ensures
            final(self)@ == inverted_term(old(self)@),
    {
        let ghost before = views(self.units@);
        let mut out: Vec<Unit> = Vec::new();
        let mut i: usize = 0;
        while i < self.units.len()
            invariant
                i <= self.units.len(),
                before == views(self.units@),
                all_fit(inverse(before)),
                views(out@) == inverse(before).take(i as int),
            decreases self.units.len() - i,
        {
            proof {
                assert(fits(inverse(before)[i as int].exp));
            }
            let u = self.units[i].invert();
            proof {
                assert(u@ == inverse(before)[i as int]);
                assert(views(out@.push(u)) =~= views(out@).push(u@));
                assert(inverse(before).take(i as int).push(inverse(before)[i as int])
                    =~= inverse(before).take(i + 1));
            }
            out.push(u);
            i += 1;
        }
        proof {
            assert(inverse(before).take(self.units.len() as int) =~= inverse(before));
        }
        self.units = out;
    }

    /// The base units of the term, in normal form.
    pub fn as_base_units(&self) -> (r: Result<Vec<Unit>, Error>)
        ensures
            match base_units(self@.units) {
                Ok(base) => r matches Ok(v) && views(v@) == base && normalized(base),
                Err(e) => r == Err::<Vec<Unit>, Error>(e),
            },
    {
        base_units_of(&self.units)
    }

    /// The term reduced to base units: its base units in normal form, and
    /// its magnitude times the factors of the prefixes that went and the
    /// magnitudes that the definitions are written with.
    pub fn reduce(&self) -> (r: Result<Self, Error>)
        ensures
            match reduced(self@) {
                Ok(t) => r matches Ok(term) && term@ == t,
                Err(e) => r matches Err(x) && x == e,
            },
    {
        let base = match base_units_of(&self.units) {
            Err(e) => {
                return Err(e);
            },
            Ok(base) => base,
        };
        let factor = match scale_of_units(&self.units, MAX_DEPTH) {
            Err(e) => {
                return Err(e);
            },
            Ok(f) => f,
        };
        match self.mag.checked_mul(&factor) {
            None => Err(Error::Numeric),
            Some(m) => Ok(UnitTerm { mag: m, units: base }),
        }
    }

    /// Whether the two terms have the same base units. The magnitudes are
    /// not looked at.
    pub fn equals(&self, other: &Self) -> (r: Result<bool, Error>)
        ensures
            r == units_equal(self@.units, other@.units),
    {
        let x = match base_units_of(&self.units) {
            Err(e) => {
                return Err(e);
            },
            Ok(x) => x,
        };
        let y = match base_units_of(&other.units) {
            Err(e) => {
                return Err(e);
            },
            Ok(y) => y,
        };
        Ok(same_unit_lists(&x, &y))
    }

    /// Whether the two terms have the same base units, prefixes aside.
    pub fn commensurable(&self, other: &Self) -> (r: Result<bool, Error>)
        ensures
            r == units_commensurable(self@.units, other@.units),
    {
        let x = match base_units_of(&self.units) {
            Err(e) => {
                return Err(e);
            },
            Ok(x) => x,
        };
        let y = match base_units_of(&other.units) {
            Err(e) => {
                return Err(e);
            },
            Ok(y) => y,
        };
        Ok(same_atom_lists(&x, &y))
    }

    /// Checks that `other` can be added to this term: the two must have the
    /// same base units. The term itself does not change.
    pub fn add_assign(&mut self, other: Self) -> (r: Result<(), Error>)
        ensures
            *final(self) == *old(self),
            match units_equal(old(self)@.units, other@.units) {
                Ok(same) => if same {
                    r is Ok
                } else {
                    r == Err::<(), Error>(Error::DimensionMismatch)
                },
                Err(e) => r == Err::<(), Error>(e),
            },
    {
        match self.equals(&other) {
            Err(e) => Err(e),
            Ok(true) => Ok(()),
            Ok(false) => Err(Error::DimensionMismatch),
        }
    }

    /// Checks that `other` can be subtracted from this term: the two must
    /// have the same base units. The term itself does not change.
    pub fn sub_assign(&mut self, other: Self) -> (r: Result<(), Error>)
        ensures
            *final(self) == *old(self),
            match units_equal(old(self)@.units, other@.units) {
                Ok(same) => if same {
                    r is Ok
                } else {
                    r == Err::<(), Error>(Error::DimensionMismatch)
                },
                Err(e) => r == Err::<(), Error>(e),
            },
    {
        match self.equals(&other) {
            Err(e) => Err(e),
            Ok(true) => Ok(()),
            Ok(false) => Err(Error::DimensionMismatch),
        }
    }

    /// Multiplies this term by `other`: the units of both, in normal form.
    /// The magnitude stays. On an error the term does not change.
    pub fn mul_assign(&mut self, other: Self) -> (r: Result<(), Error>)
        ensures
            final(self)@.mag == old(self)@.mag,
            match product_units(old(self)@.units, other@.units) {
                Ok(n) => r is Ok && final(self)@.units == n && normalized(n),
                Err(e) => r == Err::<(), Error>(e) && final(self)@ == old(self)@,
            },
    {
        let mut all = copy_units(&self.units);
        let mut more = other.units;
        proof {
            assert(views(all@ + more@) =~= views(all@) + views(more@));
        }
        all.append(&mut more);
        match normalize_units(all) {
            Ok(normal) => {
                self.units = normal;
                Ok(())
            },
            Err(e) => Err(e),
        }
    }

    /// Divides this term by `other`: the units of this term and the
    /// inverted units of `other`, in normal form. The magnitude stays. On an
    /// error the term does not change.
    pub fn div_assign(&mut self, other: Self) -> (r: Result<(), Error>)
        ensures
            final(self)@.mag == old(self)@.mag,
            match quotient_units(old(self)@.units, other@.units) {
                Ok(n) => r is Ok && final(self)@.units == n && normalized(n),
                Err(e) => r == Err::<(), Error>(e) && final(self)@ == old(self)@,
            },
    {
        let ghost target = inverse(views(other.units@));
        let mut all = copy_units(&self.units);
        let ghost own = views(all@);
        let mut i: usize = 0;
        while i < other.units.len()
            invariant
                i <= other.units.len(),
                target == inverse(views(other.units@)),
                views(all@) == own + target.take(i as int),
                all_fit(target.take(i as int)),
            decreases other.units.len() - i,
        {
            if other.units[i].exp == i8::MIN {
                proof {
                    assert(!fits(target[i as int].exp));
                }
                return Err(Error::Numeric);
            }
            let u = other.units[i].invert();
            proof {
                assert(u@ == target[i as int]);
                assert(views(all@.push(u)) =~= views(all@).push(u@));
                assert((own + target.take(i as int)).push(target[i as int]) =~= own + target.take(
                    i + 1,
                ));
                assert forall|k: int| 0 <= k < i + 1 implies fits(
                    #[trigger] target.take(i + 1)[k].exp,
                ) by {
                    if k < i {
                        assert(target.take(i as int)[k] == target[k]);
                    }
                }
            }
            all.push(u);
            i += 1;
        }
        proof {
            assert(target.take(other.units.len() as int) =~= target);
        }
        match normalize_units(all) {
            Ok(normal) => {
                self.units = normal;
                Ok(())
            },
            Err(e) => Err(e),
        }
    }

    /// The term written out, as in `kg.m.s-2`. The magnitude is not
    /// written.
    pub fn to_string(&self) -> (r: String)
        ensures
            r@ == units_text(self@.units),
    {
        Units(&self.units).to_string()
    }
}

} // verus!
