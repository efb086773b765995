//! Dimensions of base units, the metric prefixes by name, sorting of units,
//! and what a list of units measures.

use crate::error::Error;
use crate::normal::{
    key_lt, lemma_key_transitive, lemma_key_trichotomy, normalize, normalize_units, unit_key_lt,
};
use crate::term::{base_units, base_units_of};
use crate::text::str_eq;
use crate::unit::{views, Unit, UnitView};
use vstd::prelude::*;
use vstd::seq_lib::to_multiset_insert;
use vstd::string::StringExecFns;

verus! {

/// What a unit measures.
#[derive(Debug, PartialEq)]
pub enum Dimension {
    Time,
    Length,
    Mass,
    Charge,
    Temp,
    Amount,
    Luminosity,
    Force,
    /// Any other unit atom stands for a dimension of its own.
    Other(String),
}

/// What a dimension is, as plain values.
pub enum DimensionView {
    Time,
    Length,
    Mass,
    Charge,
    Temp,
    Amount,
    Luminosity,
    Force,
    Other(Seq<char>),
}

impl View for Dimension {
    type V = DimensionView;

    open spec fn view(&self) -> DimensionView {
        match self {
            Dimension::Time => DimensionView::Time,
            Dimension::Length => DimensionView::Length,
            Dimension::Mass => DimensionView::Mass,
            Dimension::Charge => DimensionView::Charge,
            Dimension::Temp => DimensionView::Temp,
            Dimension::Amount => DimensionView::Amount,
            Dimension::Luminosity => DimensionView::Luminosity,
            Dimension::Force => DimensionView::Force,
            Dimension::Other(name) => DimensionView::Other(name@),
        }
    }
}

/// The dimension that a unit atom measures: the seven base units and the
/// newton have a named one.
pub open spec fn dimension_of(atom: Seq<char>) -> DimensionView {
    if atom == "s"@ {
        DimensionView::Time
    } else if atom == "m"@ {
        DimensionView::Length
    } else if atom == "g"@ {
        DimensionView::Mass
    } else if atom == "C"@ {
        DimensionView::Charge
    } else if atom == "K"@ {
        DimensionView::Temp
    } else if atom == "mol"@ {
        DimensionView::Amount
    } else if atom == "cd"@ {
        DimensionView::Luminosity
    } else if atom == "N"@ {
        DimensionView::Force
    } else {
        DimensionView::Other(atom)
    }
}

/// A unit without prefix and annotation.
pub open spec fn bare(atom: Seq<char>, exp: int) -> UnitView {
    UnitView { prefix: Seq::empty(), atom, exp, annotation: None }
}

/// The units that a dimension is measured in: the base unit of a base
/// dimension, kilogram times metre per second squared for force, and for any
/// other dimension the unit atom that it stands for.
pub open spec fn measured_in(d: DimensionView) -> Seq<UnitView> {
    match d {
        DimensionView::Time => seq![bare("s"@, 1)],
        DimensionView::Length => seq![bare("m"@, 1)],
        DimensionView::Mass => seq![bare("g"@, 1)],
        DimensionView::Charge => seq![bare("C"@, 1)],
        DimensionView::Temp => seq![bare("K"@, 1)],
        DimensionView::Amount => seq![bare("mol"@, 1)],
        DimensionView::Luminosity => seq![bare("cd"@, 1)],
        DimensionView::Force => seq![
            UnitView { prefix: "k"@, atom: "g"@, exp: 1, annotation: None },
            bare("m"@, 1),
            bare("s"@, -2),
        ],
        DimensionView::Other(name) => seq![bare(name, 1)],
    }
}

/// The dimension that a unit atom measures.
pub fn dimension_of_atom(atom: &str) -> (r: Dimension)
    ensures
        r@ == dimension_of(atom@),
{
    if str_eq(atom, "s") {
        Dimension::Time
    } else if str_eq(atom, "m") {
        Dimension::Length
    } else if str_eq(atom, "g") {
        Dimension::Mass
    } else if str_eq(atom, "C") {
        Dimension::Charge
    } else if str_eq(atom, "K") {
        Dimension::Temp
    } else if str_eq(atom, "mol") {
        Dimension::Amount
    } else if str_eq(atom, "cd") {
        Dimension::Luminosity
    } else if str_eq(atom, "N") {
        Dimension::Force
    } else {
        Dimension::Other(String::from_str(atom))
    }
}

impl Dimension {
    /// Whether the two dimensions are the same.
    pub fn same(&self, other: &Self) -> (r: bool)
        ensures
            r == (self@ == other@),
    {
        match (self, other) {
            (Dimension::Time, Dimension::Time) => true,
            (Dimension::Length, Dimension::Length) => true,
            (Dimension::Mass, Dimension::Mass) => true,
            (Dimension::Charge, Dimension::Charge) => true,
            (Dimension::Temp, Dimension::Temp) => true,
            (Dimension::Amount, Dimension::Amount) => true,
            (Dimension::Luminosity, Dimension::Luminosity) => true,
            (Dimension::Force, Dimension::Force) => true,
            (Dimension::Other(a), Dimension::Other(b)) => str_eq(a.as_str(), b.as_str()),
            _ => false,
        }
    }

    /// The units that the dimension is measured in.
    pub fn to_base_units(&self) -> (r: Vec<Unit>)
        ensures
            views(r@) == measured_in(self@),
    {
        let mut out: Vec<Unit> = Vec::new();
        match self {
            Dimension::Time => {
                out.push(Unit::new_bare("s", 1));
            },
            Dimension::Length => {
                out.push(Unit::new_bare("m", 1));
            },
            Dimension::Mass => {
                out.push(Unit::new_bare("g", 1));
            },
            Dimension::Charge => {
                out.push(Unit::new_bare("C", 1));
            },
            Dimension::Temp => {
                out.push(Unit::new_bare("K", 1));
            },
            Dimension::Amount => {
                out.push(Unit::new_bare("mol", 1));
            },
            Dimension::Luminosity => {
                out.push(Unit::new_bare("cd", 1));
            },
            Dimension::Force => {
                out.push(Unit::new_metric(UnitPrefix::Kilo, "g", 1));
                out.push(Unit::new_bare("m", 1));
                out.push(Unit::new_bare("s", -2));
            },
            Dimension::Other(name) => {
                out.push(Unit::new_bare(name.as_str(), 1));
            },
        }
        proof {
            assert(views(out@) =~= measured_in(self@));
        }
        out
    }
}

/// The metric prefixes that scale by a power of ten, by name.
#[derive(Debug, PartialEq, Eq, Clone, Copy, Structural)]
pub enum UnitPrefix {
    Yotta,
    Zetta,
    Exa,
    Peta,
    Tera,
    Giga,
    Mega,
    Kilo,
    Hecto,
    Deca,
    /// No prefix: the unit itself.
    One,
    Deci,
    Centi,
    Milli,
    Micro,
    Nano,
    Pico,
    Femto,
    Atto,
    Zepto,
    Yocto,
}

/// The symbol of a prefix; the empty text for no prefix.
pub open spec fn prefix_symbol(p: UnitPrefix) -> Seq<char> {
    match p {
        UnitPrefix::Yotta => "Y"@,
        UnitPrefix::Zetta => "Z"@,
        UnitPrefix::Exa => "E"@,
        UnitPrefix::Peta => "P"@,
        UnitPrefix::Tera => "T"@,
        UnitPrefix::Giga => "G"@,
        UnitPrefix::Mega => "M"@,
        UnitPrefix::Kilo => "k"@,
        UnitPrefix::Hecto => "h"@,
        UnitPrefix::Deca => "da"@,
        UnitPrefix::One => ""@,
        UnitPrefix::Deci => "d"@,
        UnitPrefix::Centi => "c"@,
        UnitPrefix::Milli => "m"@,
        UnitPrefix::Micro => "mu"@,
        UnitPrefix::Nano => "n"@,
        UnitPrefix::Pico => "p"@,
        UnitPrefix::Femto => "f"@,
        UnitPrefix::Atto => "a"@,
        UnitPrefix::Zepto => "z"@,
        UnitPrefix::Yocto => "y"@,
    }
}

/// The power of ten that a prefix scales by.
pub open spec fn prefix_exponent(p: UnitPrefix) -> int {
    match p {
        UnitPrefix::Yotta => 24,
        UnitPrefix::Zetta => 21,
        UnitPrefix::Exa => 18,
        UnitPrefix::Peta => 15,
        UnitPrefix::Tera => 12,
        UnitPrefix::Giga => 9,
        UnitPrefix::Mega => 6,
        UnitPrefix::Kilo => 3,
        UnitPrefix::Hecto => 2,
        UnitPrefix::Deca => 1,
        UnitPrefix::One => 0,
        UnitPrefix::Deci => -1,
        UnitPrefix::Centi => -2,
        UnitPrefix::Milli => -3,
        UnitPrefix::Micro => -6,
        UnitPrefix::Nano => -9,
        UnitPrefix::Pico => -12,
        UnitPrefix::Femto => -15,
        UnitPrefix::Atto => -18,
        UnitPrefix::Zepto => -21,
        UnitPrefix::Yocto => -24,
    }
}

impl UnitPrefix {
    /// The symbol of the prefix; the empty text for no prefix.
    pub fn symbol(&self) -> (r: &'static str)
        ensures
            r@ == prefix_symbol(*self),
    {
        match self {
            UnitPrefix::Yotta => "Y",
            UnitPrefix::Zetta => "Z",
            UnitPrefix::Exa => "E",
            UnitPrefix::Peta => "P",
            UnitPrefix::Tera => "T",
            UnitPrefix::Giga => "G",
            UnitPrefix::Mega => "M",
            UnitPrefix::Kilo => "k",
            UnitPrefix::Hecto => "h",
            UnitPrefix::Deca => "da",
            UnitPrefix::One => "",
            UnitPrefix::Deci => "d",
            UnitPrefix::Centi => "c",
            UnitPrefix::Milli => "m",
            UnitPrefix::Micro => "mu",
            UnitPrefix::Nano => "n",
            UnitPrefix::Pico => "p",
            UnitPrefix::Femto => "f",
            UnitPrefix::Atto => "a",
            UnitPrefix::Zepto => "z",
            UnitPrefix::Yocto => "y",
        }
    }

    /// The power of ten that the prefix scales by.
    pub fn exponent(&self) -> (r: i8)
        ensures
            r == prefix_exponent(*self),
    {
        match self {
            UnitPrefix::Yotta => 24,
            UnitPrefix::Zetta => 21,
            UnitPrefix::Exa => 18,
            UnitPrefix::Peta => 15,
            UnitPrefix::Tera => 12,
            UnitPrefix::Giga => 9,
            UnitPrefix::Mega => 6,
            UnitPrefix::Kilo => 3,
            UnitPrefix::Hecto => 2,
            UnitPrefix::Deca => 1,
            UnitPrefix::One => 0,
            UnitPrefix::Deci => -1,
            UnitPrefix::Centi => -2,
            UnitPrefix::Milli => -3,
            UnitPrefix::Micro => -6,
            UnitPrefix::Nano => -9,
            UnitPrefix::Pico => -12,
            UnitPrefix::Femto => -15,
            UnitPrefix::Atto => -18,
            UnitPrefix::Zepto => -21,
            UnitPrefix::Yocto => -24,
        }
    }
}

/// The first position at or after `i` whose unit comes strictly behind `u`
/// in the order of the normal form.
pub open spec fn place(acc: Seq<UnitView>, u: UnitView, i: int) -> int
    decreases acc.len() - i,
{
    if 0 <= i < acc.len() && !key_lt(u, acc[i]) {
        place(acc, u, i + 1)
    } else {
        i
    }
}

/// The units sorted by atom, and among equal atoms by prefix; units with
/// the same atom and prefix stay in the order in which they stood.
pub open spec fn sort_spec(units: Seq<UnitView>) -> Seq<UnitView>
    decreases units.len(),
{
    if units.len() == 0 {
        Seq::empty()
    } else {
        let front = sort_spec(units.drop_last());
        front.insert(place(front, units.last(), 0), units.last())
    }
}

/// Whether no unit of the list comes before one that stands before it.
pub open spec fn ordered(s: Seq<UnitView>) -> bool {
    forall|i: int, j: int| 0 <= i < j < s.len() ==> !key_lt(#[trigger] s[j], #[trigger] s[i])
}

/// Where the place lies: no unit from `i` up to it comes behind `u`, and
/// the unit at it, if there is one, does.
pub proof fn lemma_place(acc: Seq<UnitView>, u: UnitView, i: int)
    requires
        0 <= i <= acc.len(),
    ensures
        i <= place(acc, u, i) <= acc.len(),
        forall|j: int| i <= j < place(acc, u, i) ==> !key_lt(u, #[trigger] acc[j]),
        place(acc, u, i) < acc.len() ==> key_lt(u, acc[place(acc, u, i)]),
    decreases acc.len() - i,
{
    if i < acc.len() && !key_lt(u, acc[i]) {
        lemma_place(acc, u, i + 1);
    }
}

/// Sorting keeps every unit, as often as it occurred, and puts the units in
/// order.
pub proof fn lemma_sort_spec(units: Seq<UnitView>)
    ensures
        sort_spec(units).len() == units.len(),
        sort_spec(units).to_multiset() == units.to_multiset(),
        ordered(sort_spec(units)),
    decreases units.len(),
{
    if units.len() == 0 {
        assert(units =~= Seq::<UnitView>::empty());
    } else {
        let front = sort_spec(units.drop_last());
        let u = units.last();
        let p = place(front, u, 0);
        lemma_sort_spec(units.drop_last());
        lemma_place(front, u, 0);
        to_multiset_insert(front, p, u);
        vstd::seq_lib::to_multiset_build(units.drop_last(), u);
        assert(units.drop_last().push(u) =~= units);
        let out = front.insert(p, u);
        assert forall|i: int, j: int| 0 <= i < j < out.len() implies !key_lt(
            #[trigger] out[j],
            #[trigger] out[i],
        ) by {
            if j < p {
                assert(!key_lt(front[j], front[i]));
            } else if j == p {
                assert(!key_lt(u, front[i]));
            } else if i == p {
                // u comes before front[p], which does not come behind front[j - 1]
                lemma_key_trichotomy(front[j - 1], u);
                if key_lt(front[j - 1], u) {
                    if j - 1 > p {
                        assert(!key_lt(front[j - 1], front[p]));
                        lemma_key_transitive(front[j - 1], u, front[p]);
                    } else {
                        lemma_key_trichotomy(front[p], u);
                    }
                }
            } else if i < p {
                assert(!key_lt(front[j - 1], front[i]));
            } else {
                assert(!key_lt(front[j - 1], front[i - 1]));
            }
        }
    }
}

/// Sorts the units by atom, and among equal atoms by prefix. Units with the
/// same atom and prefix stay in the order in which they stood.
pub fn sort_units(units: Vec<Unit>) -> (r: Vec<Unit>)
    ensures
        views(r@) == sort_spec(views(units@)),
        ordered(views(r@)),
        views(r@).to_multiset() == views(units@).to_multiset(),
{
    let mut out: Vec<Unit> = Vec::new();
    let mut i: usize = 0;
    proof {
        assert(views(out@) =~= Seq::<UnitView>::empty());
    }
    while i < units.len()
        invariant
            i <= units.len(),
            views(out@) == sort_spec(views(units@).take(i as int)),
        decreases units.len() - i,
    {
        let u = units[i].clone();
        let ghost acc = views(out@);
        proof {
            let before = views(units@).take(i as int);
            let after = views(units@).take(i + 1);
            assert(after.drop_last() =~= before);
            assert(after.last() == u@);
        }
        let mut p: usize = 0;
        while p < out.len() && !unit_key_lt(&u, &out[p])
            invariant
                p <= out.len(),
                acc == views(out@),
                place(acc, u@, 0) == place(acc, u@, p as int),
            decreases out.len() - p,
        {
            p += 1;
        }
        proof {
            assert(views(out@.insert(p as int, u)) =~= acc.insert(p as int, u@));
        }
        out.insert(p, u);
        i += 1;
    }
    proof {
        assert(views(units@).take(units.len() as int) =~= views(units@));
        lemma_sort_spec(views(units@));
    }
    out
}

/// The units of the list without their prefixes.
pub open spec fn unprefixed(units: Seq<UnitView>) -> Seq<UnitView> {
    Seq::new(
        units.len(),
        |i: int|
            UnitView {
                prefix: Seq::empty(),
                atom: units[i].atom,
                exp: units[i].exp,
                annotation: units[i].annotation,
            },
    )
}

/// What a list of units measures: its base units without their prefixes, in
/// normal form.
pub open spec fn dimension_form(units: Seq<UnitView>) -> Result<Seq<UnitView>, Error> {
    match base_units(units) {
        Err(e) => Err(e),
        Ok(base) => normalize(unprefixed(base)),
    }
}

/// What a list of units measures: base units without prefixes, in normal
/// form; or nothing, for a plain number. Two lists of units measure the
/// same, and differ by a factor at most, exactly when these are equal.
#[derive(Debug, PartialEq)]
pub enum Units {
    Dim(Vec<Unit>),
    DimLess,
}

impl Units {
    /// What the units measure. A newton is a kilogram metre per second
    /// squared, and so measures what a gram metre per second squared does.
    pub fn new(units: Vec<Unit>) -> (r: Result<Self, Error>)
        ensures
            match dimension_form(views(units@)) {
                Err(e) => r matches Err(x) && x == e,
                Ok(form) => match r {
                    Ok(Units::DimLess) => form.len() == 0,
                    Ok(Units::Dim(list)) => form.len() > 0 && views(list@) == form,
                    Err(_) => false,
                },
            },
    {
        let base = match base_units_of(&units) {
            Err(e) => {
                return Err(e);
            },
            Ok(base) => base,
        };
        let mut bare: Vec<Unit> = Vec::new();
        let mut i: usize = 0;
        proof {
            assert(views(bare@) =~= unprefixed(views(base@)).take(0));
        }
        while i < base.len()
            invariant
                i <= base.len(),
                views(bare@) == unprefixed(views(base@)).take(i as int),
            decreases base.len() - i,
        {
            let u = &base[i];
            let unit = Unit {
                prefix: String::new(),
                atom: u.atom.clone(),
                exp: u.exp,
                annotation: match &u.annotation {
                    Some(a) => Some(a.clone()),
                    None => None,
                },
            };
            proof {
                let target = unprefixed(views(base@));
                assert(unit@ == target[i as int]);
                assert(views(bare@.push(unit)) =~= views(bare@).push(unit@));
                assert(target.take(i as int).push(target[i as int]) =~= target.take(i + 1));
            }
            bare.push(unit);
            i += 1;
        }
        proof {
            let target = unprefixed(views(base@));
            assert(target.take(base.len() as int) =~= target);
        }
        match normalize_units(bare) {
            Err(e) => Err(e),
            Ok(form) => if form.len() == 0 {
                Ok(Units::DimLess)
            } else {
                Ok(Units::Dim(form))
            },
        }
    }
}

} // verus!
