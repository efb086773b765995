//! Units stay well formed: what reading a unit term gives, the normal form
//! of well-formed units and their base units have a prefix only before a
//! metric unit atom.

use crate::laws::law_normal_form;
use crate::lexer::{lemma_lex_advances, lex, Lexed, TokenView};
use crate::magnitude::{mag_div, mag_int, mag_mul, MagView};
use crate::normal::{exp_sum, normalize, same_key};
use crate::parser::{lemma_step_advances, parse_from, step, Step};
use crate::sums::{lemma_exp_sum_present, lemma_sorted_sum};
use crate::tables::conversion;
use crate::term::{base_units, expand, expand_all, is_irreducible, term_of};
use crate::unit::{well_formed, UnitView};
use vstd::prelude::*;

verus! {

/// Whether every unit of the list is well formed.
pub open spec fn all_well_formed(units: Seq<UnitView>) -> bool {
    forall|i: int| 0 <= i < units.len() ==> well_formed(#[trigger] units[i])
}

/// A unit that is read from a text is well formed.
pub proof fn lemma_lex_well_formed(s: Seq<char>, i: int)
    ensures
        lex(s, i) matches Lexed::Token(TokenView::Unit(u), _) ==> well_formed(u),
    decreases s.len() - i,
{
    if 0 <= i < s.len() {
        if s[i] == ' ' {
            lemma_lex_well_formed(s, i + 1);
        }
    }
}

/// A unit that a step gives is well formed.
pub proof fn lemma_step_well_formed(s: Seq<char>, i: int, mag: MagView)
    ensures
        step(s, i, mag) matches Step::Unit(u, _, _) ==> well_formed(u),
    decreases s.len() - i,
{
    lemma_lex_advances(s, i);
    lemma_lex_well_formed(s, i);
    match lex(s, i) {
        Lexed::Token(t, p) => {
            match t {
                TokenView::Mul => {
                    lemma_step_well_formed(s, p, mag);
                },
                TokenView::Unit(u) => {},
                TokenView::Int(v) => {
                    match mag_mul(mag, mag_int(v)) {
                        Some(m) => {
                            lemma_step_well_formed(s, p, m);
                        },
                        None => {},
                    }
                },
                TokenView::Div => {
                    lemma_lex_advances(s, p);
                    lemma_lex_well_formed(s, p);
                    match lex(s, p) {
                        Lexed::Token(TokenView::Int(v), q) => {
                            match mag_div(mag, mag_int(v)) {
                                Some(m) => {
                                    lemma_step_well_formed(s, q, m);
                                },
                                None => {},
                            }
                        },
                        _ => {},
                    }
                },
            }
        },
        _ => {},
    }
}

/// The units that reading a text gives are well formed.
pub proof fn lemma_parse_well_formed(s: Seq<char>, i: int, mag: MagView, acc: Seq<UnitView>)
    requires
        all_well_formed(acc),
    ensures
        parse_from(s, i, mag, acc) matches Ok(p) ==> all_well_formed(p.units),
    decreases s.len() - i,
{
    lemma_step_advances(s, i, mag);
    lemma_step_well_formed(s, i, mag);
    match step(s, i, mag) {
        Step::Unit(u, p, m) => {
            assert forall|k: int| 0 <= k < acc.push(u).len() implies well_formed(
                #[trigger] acc.push(u)[k],
            ) by {
                if k < acc.len() {
                    assert(well_formed(acc[k]));
                }
            }
            lemma_parse_well_formed(s, p, m, acc.push(u));
        },
        _ => {},
    }
}

/// The normal form of well-formed units is well formed.
pub proof fn law_normal_form_stays_well_formed(units: Seq<UnitView>)
    requires
        all_well_formed(units),
    ensures
        normalize(units) matches Ok(n) ==> all_well_formed(n),
{
    law_normal_form(units);
    if let Ok(n) = normalize(units) {
        assert forall|i: int| 0 <= i < n.len() implies well_formed(#[trigger] n[i]) by {
            lemma_sorted_sum(n, i);
            assert(n[i].exp == exp_sum(units, n[i]));
            lemma_exp_sum_present(units, n[i]);
            let j = choose|j: int| 0 <= j < units.len() && same_key(#[trigger] units[j], n[i]);
            assert(well_formed(units[j]));
        }
    }
}

/// Every unit of a unit term that is read from a text is well formed.
pub proof fn law_terms_are_well_formed(s: Seq<char>)
    ensures
        term_of(s) matches Ok(t) ==> all_well_formed(t.units),
{
    lemma_parse_well_formed(s, 0, crate::magnitude::mag_one(), Seq::empty());
    if let Ok(parsed) = parse_from(s, 0, crate::magnitude::mag_one(), Seq::empty()) {
        law_normal_form_stays_well_formed(parsed.units);
    }
}

/// The base units of a well-formed unit are well formed.
pub proof fn lemma_expand_well_formed(u: UnitView, depth: nat)
    requires
        well_formed(u),
    ensures
        expand(u, depth) matches Ok(base) ==> all_well_formed(base),
    decreases depth, 0nat,
{
    if is_irreducible(u.atom) {
    } else if depth > 0 {
        law_terms_are_well_formed(conversion(u.atom)->Some_0);
        if let Ok(t) = term_of(conversion(u.atom)->Some_0) {
            lemma_expand_all_well_formed(t.units, (depth - 1) as nat);
            if let Ok(base) = expand_all(t.units, (depth - 1) as nat) {
                if let Ok(out) = expand(u, depth) {
                    assert forall|i: int| 0 <= i < out.len() implies well_formed(
                        #[trigger] out[i],
                    ) by {
                        assert(well_formed(base[i]));
                    }
                }
            }
        }
    }
}

/// The base units of a list of well-formed units are well formed.
pub proof fn lemma_expand_all_well_formed(units: Seq<UnitView>, depth: nat)
    requires
        all_well_formed(units),
    ensures
        expand_all(units, depth) matches Ok(base) ==> all_well_formed(base),
    decreases depth, units.len() + 1,
{
    if units.len() > 0 {
        let front = units.drop_last();
        assert(all_well_formed(front)) by {
            assert forall|i: int| 0 <= i < front.len() implies well_formed(#[trigger] front[i]) by {
                assert(front[i] == units[i]);
            }
        }
        assert(well_formed(units[units.len() - 1]));
        lemma_expand_all_well_formed(front, depth);
        lemma_expand_well_formed(units.last(), depth);
        match (expand_all(front, depth), expand(units.last(), depth)) {
            (Ok(a), Ok(b)) => {
                assert forall|i: int| 0 <= i < (a + b).len() implies well_formed(
                    #[trigger] (a + b)[i],
                ) by {
                    if i < a.len() {
                        assert(well_formed(a[i]));
                    } else {
                        assert(well_formed(b[i - a.len()]));
                    }
                }
            },
            _ => {},
        }
    }
}

/// The base units of well-formed units are well formed.
pub proof fn law_reduction_stays_well_formed(units: Seq<UnitView>)
    requires
        all_well_formed(units),
    ensures
        base_units(units) matches Ok(base) ==> all_well_formed(base),
{
    lemma_expand_all_well_formed(units, crate::term::MAX_DEPTH as nat);
    if let Ok(all) = expand_all(units, crate::term::MAX_DEPTH as nat) {
        law_normal_form_stays_well_formed(all);
    }
}

} // verus!
