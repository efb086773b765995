//! What holds of the algebra of unit terms, whatever the terms.

use crate::dimension::{lemma_place, lemma_sort_spec, ordered, place, sort_spec};
use crate::error::Error;
use crate::normal::{
    all_fit, drop_zeros, exp_sum, fits, key_lt, lemma_normalize_normalized, no_zero, normalize,
    normalized, same_key, same_units, sorted,
};
use crate::sums::{
    lemma_exp_sum_concat, lemma_exp_sum_present, lemma_normalize_by_sums, lemma_same_units_sum,
    lemma_sorted_sum,
};
use crate::term::{
    base_units, expand, expand_all, inverse, inverted_term, product_units, quotient_units,
    units_equal, TermView,
};
use crate::unit::{inverted, UnitView};
use vstd::prelude::*;

verus! {

/// Inverting a unit twice gives the unit back.
pub proof fn law_unit_invert_twice(u: UnitView)
    ensures
        inverted(inverted(u)) == u,
{
}

/// Inverting a unit term twice gives the term back.
pub proof fn law_invert_twice(t: TermView)
    ensures
        inverted_term(inverted_term(t)) == t,
{
    assert(inverse(inverse(t.units)) =~= t.units);
}

/// The sums of an inverted list are the negated sums of the list.
pub proof fn lemma_inverse_sum(units: Seq<UnitView>, k: UnitView)
    ensures
        exp_sum(inverse(units), k) == -exp_sum(units, k),
    decreases units.len(),
{
    if units.len() > 0 {
        assert(inverse(units).drop_last() =~= inverse(units.drop_last()));
        lemma_inverse_sum(units.drop_last(), k);
    }
}

/// The reduction of a unit looks at its atom and its exponent alone: two
/// units with the same prefix, atom and exponent reduce to the same units,
/// annotations aside, or to the same error.
pub proof fn lemma_expand_congruent(u: UnitView, v: UnitView, depth: nat)
    requires
        same_key(u, v),
        u.exp == v.exp,
    ensures
        match (expand(u, depth), expand(v, depth)) {
            (Ok(a), Ok(b)) => same_units(a, b),
            (Err(e), Err(f)) => e == f,
            _ => false,
        },
{
}

/// Two lists that hold the same units, annotations aside, reduce to lists
/// that hold the same units, annotations aside, or to the same error.
pub proof fn lemma_expand_all_congruent(x: Seq<UnitView>, y: Seq<UnitView>, depth: nat)
    requires
        same_units(x, y),
    ensures
        match (expand_all(x, depth), expand_all(y, depth)) {
            (Ok(a), Ok(b)) => same_units(a, b),
            (Err(e), Err(f)) => e == f,
            _ => false,
        },
    decreases x.len(),
{
    if x.len() > 0 {
        let xd = x.drop_last();
        let yd = y.drop_last();
        assert(same_units(xd, yd)) by {
            assert forall|i: int| 0 <= i < xd.len() implies same_key(#[trigger] xd[i], yd[i])
                && xd[i].exp == yd[i].exp by {
                assert(same_key(x[i], y[i]));
            }
        }
        lemma_expand_all_congruent(xd, yd, depth);
        assert(same_key(x[x.len() - 1], y[x.len() - 1]));
        lemma_expand_congruent(x.last(), y.last(), depth);
        match (expand_all(xd, depth), expand_all(yd, depth)) {
            (Ok(a), Ok(b)) => {
                match (expand(x.last(), depth), expand(y.last(), depth)) {
                    (Ok(c), Ok(d)) => {
                        assert forall|i: int| 0 <= i < (a + c).len() implies same_key(
                            #[trigger] (a + c)[i],
                            (b + d)[i],
                        ) && (a + c)[i].exp == (b + d)[i].exp by {
                            if i < a.len() {
                                assert(same_key(a[i], b[i]));
                            } else {
                                assert(same_key(c[i - a.len()], d[i - a.len()]));
                            }
                        }
                    },
                    _ => {},
                }
            },
            _ => {},
        }
    }
}

/// Two lists that hold the same units, annotations aside, have the same
/// base units, annotations aside, or fail to reduce with the same error.
pub proof fn law_reduction_ignores_annotations(x: Seq<UnitView>, y: Seq<UnitView>)
    requires
        same_units(x, y),
    ensures
        match (base_units(x), base_units(y)) {
            (Ok(a), Ok(b)) => same_units(a, b),
            (Err(e), Err(f)) => e == f,
            _ => false,
        },
        units_equal(x, y) == match base_units(x) {
            Ok(_) => Ok::<bool, Error>(true),
            Err(e) => Err(e),
        },
{
    let depth = crate::term::MAX_DEPTH as nat;
    lemma_expand_all_congruent(x, y, depth);
    match (expand_all(x, depth), expand_all(y, depth)) {
        (Ok(a), Ok(b)) => {
            assert forall|k: UnitView| #[trigger] exp_sum(a, k) == exp_sum(b, k) by {
                lemma_same_units_sum(a, b, k);
            }
            lemma_normalize_by_sums(a, b);
        },
        _ => {},
    }
}

/// The product of two unit terms does not depend on their order: the units
/// of `a` times `b` are those of `b` times `a`, annotations aside, and the
/// one product fails exactly when the other does. So the two products are
/// equal as unit terms wherever they can be reduced to base units.
pub proof fn law_product_commutes(a: Seq<UnitView>, b: Seq<UnitView>)
    ensures
        match (product_units(a, b), product_units(b, a)) {
            (Ok(x), Ok(y)) => same_units(x, y) && (base_units(x) is Ok ==> units_equal(x, y)
                == Ok::<bool, Error>(true)),
            (Err(e), Err(f)) => e == f,
            _ => false,
        },
{
    assert forall|k: UnitView| #[trigger] exp_sum(a + b, k) == exp_sum(b + a, k) by {
        lemma_exp_sum_concat(a, b, k);
        lemma_exp_sum_concat(b, a, k);
    }
    lemma_normalize_by_sums(a + b, b + a);
    match (product_units(a, b), product_units(b, a)) {
        (Ok(x), Ok(y)) => {
            law_reduction_ignores_annotations(x, y);
        },
        _ => {},
    }
}

/// A unit term divided by itself has no units left. The term must have no
/// exponent whose negation is out of range: then the division is a numeric
/// error.
pub proof fn law_self_quotient_is_dimensionless(a: Seq<UnitView>)
    requires
        all_fit(inverse(a)),
    ensures
        quotient_units(a, a) == Ok::<Seq<UnitView>, Error>(Seq::empty()),
{
    let both = a + inverse(a);
    assert forall|k: UnitView| #[trigger] exp_sum(both, k) == 0 by {
        lemma_exp_sum_concat(a, inverse(a), k);
        lemma_inverse_sum(a, k);
    }
    crate::sums::lemma_fit_by_sums(both);
    assert forall|k: UnitView| fits(#[trigger] exp_sum(both, k)) by {
        assert(exp_sum(both, k) == 0);
    }
    lemma_normalize_normalized(both);
    let n = normalize(both)->Ok_0;
    if n.len() > 0 {
        lemma_sorted_sum(n, 0);
        crate::sums::lemma_drop_zeros_sum(crate::normal::merge_all(both), n[0]);
        crate::sums::lemma_merge_all_sum(both, n[0]);
        assert(exp_sum(both, n[0]) == 0);
        assert(n[0].exp != 0);
    }
    assert(n =~= Seq::<UnitView>::empty());
}

/// Where a unit is reduced within a depth, a greater depth gives the same
/// base units: the limit on the depth refuses, it never changes a result.
pub proof fn law_depth_only_refuses(u: UnitView, depth: nat)
    requires
        expand(u, depth) is Ok,
    ensures
        expand(u, depth + 1) == expand(u, depth),
    decreases depth, 0nat,
{
    if !crate::term::is_irreducible(u.atom) {
        let t = crate::term::term_of(crate::tables::conversion(u.atom)->Some_0)->Ok_0;
        law_depth_only_refuses_all(t.units, (depth - 1) as nat);
    }
}

/// Where the units of a list are reduced within a depth, a greater depth
/// gives the same base units.
pub proof fn law_depth_only_refuses_all(units: Seq<UnitView>, depth: nat)
    requires
        expand_all(units, depth) is Ok,
    ensures
        expand_all(units, depth + 1) == expand_all(units, depth),
    decreases depth, units.len() + 1,
{
    if units.len() > 0 {
        law_depth_only_refuses_all(units.drop_last(), depth);
        law_depth_only_refuses(units.last(), depth);
    }
}

/// The normal form is sorted by atom and, among equal atoms, by prefix; no
/// prefix and atom occurs twice in it; no exponent in it is zero; and the
/// exponent of each unit in it is the sum of the exponents that its prefix
/// and atom had in the list.
pub proof fn law_normal_form(units: Seq<UnitView>)
    ensures
        normalize(units) matches Ok(n) ==> {
            &&& sorted(n)
            &&& no_zero(n)
            &&& all_fit(n)
            &&& forall|i: int| 0 <= i < n.len() ==> (#[trigger] n[i]).exp == exp_sum(units, n[i])
            &&& forall|k: UnitView| #[trigger]
                exp_sum(units, k) != 0 ==> exists|i: int|
                    0 <= i < n.len() && same_key(#[trigger] n[i], k)
        },
        normalize(units) is Err <==> exists|k: UnitView| !fits(#[trigger] exp_sum(units, k)),
        normalize(units) matches Err(e) ==> e == Error::Numeric,
{
    lemma_normalize_normalized(units);
    crate::sums::lemma_fit_by_sums(units);
    if let Ok(n) = normalize(units) {
        let m = crate::normal::merge_all(units);
        assert forall|i: int| 0 <= i < n.len() implies (#[trigger] n[i]).exp == exp_sum(
            units,
            n[i],
        ) by {
            lemma_sorted_sum(n, i);
            crate::sums::lemma_drop_zeros_sum(m, n[i]);
            crate::sums::lemma_merge_all_sum(units, n[i]);
        }
        assert forall|k: UnitView| #[trigger] exp_sum(units, k) != 0 implies exists|i: int|
            0 <= i < n.len() && same_key(#[trigger] n[i], k) by {
            crate::sums::lemma_drop_zeros_sum(m, k);
            crate::sums::lemma_merge_all_sum(units, k);
            lemma_exp_sum_present(n, k);
        }
    }
}

/// The list with every run of units that have the same prefix and atom made
/// one unit, whose exponent is the sum of the exponents of the run.
pub open spec fn coalesce(s: Seq<UnitView>) -> Seq<UnitView>
    decreases s.len(),
{
    if s.len() == 0 {
        Seq::empty()
    } else {
        let front = coalesce(s.drop_last());
        if front.len() > 0 && same_key(front.last(), s.last()) {
            front.update(
                front.len() - 1,
                crate::normal::with_exp(front.last(), front.last().exp + s.last().exp),
            )
        } else {
            front.push(s.last())
        }
    }
}

/// Sorting keeps every sum.
pub proof fn lemma_sort_sum(units: Seq<UnitView>, k: UnitView)
    ensures
        exp_sum(sort_spec(units), k) == exp_sum(units, k),
    decreases units.len(),
{
    if units.len() > 0 {
        let front = sort_spec(units.drop_last());
        let u = units.last();
        let p = place(front, u, 0);
        lemma_sort_sum(units.drop_last(), k);
        lemma_place(front, u, 0);
        assert(front =~= front.take(p) + front.skip(p));
        assert(front.insert(p, u) =~= front.take(p) + (seq![u] + front.skip(p)));
        lemma_exp_sum_concat(front.take(p), front.skip(p), k);
        lemma_exp_sum_concat(seq![u], front.skip(p), k);
        lemma_exp_sum_concat(front.take(p), seq![u] + front.skip(p), k);
        crate::sums::lemma_exp_sum_one(u, k);
    }
}

/// Making one unit of every run keeps every sum; and of a list in order it
/// makes a sorted list, which ends with the prefix and atom that the list
/// ends with.
pub proof fn lemma_coalesce(s: Seq<UnitView>, k: UnitView)
    ensures
        exp_sum(coalesce(s), k) == exp_sum(s, k),
        s.len() > 0 ==> coalesce(s).len() > 0 && same_key(coalesce(s).last(), s.last()),
        ordered(s) ==> sorted(coalesce(s)),
    decreases s.len(),
{
    if s.len() > 0 {
        let sd = s.drop_last();
        let front = coalesce(sd);
        let last = s.last();
        lemma_coalesce(sd, k);
        let out = coalesce(s);
        if front.len() > 0 && same_key(front.last(), last) {
            let grown = crate::normal::with_exp(front.last(), front.last().exp + last.exp);
            assert(front =~= front.drop_last() + seq![front.last()]);
            assert(out =~= front.drop_last() + seq![grown]);
            lemma_exp_sum_concat(front.drop_last(), seq![front.last()], k);
            lemma_exp_sum_concat(front.drop_last(), seq![grown], k);
            crate::sums::lemma_exp_sum_one(front.last(), k);
            crate::sums::lemma_exp_sum_one(grown, k);
        } else {
            assert(out.drop_last() =~= front);
        }
        if ordered(s) {
            assert(ordered(sd)) by {
                assert forall|i: int, j: int| 0 <= i < j < sd.len() implies !key_lt(
                    #[trigger] sd[j],
                    #[trigger] sd[i],
                ) by {
                    assert(!key_lt(s[j], s[i]));
                }
            }
            assert forall|i: int, j: int| 0 <= i < j < out.len() implies key_lt(
                #[trigger] out[i],
                #[trigger] out[j],
            ) by {
                if j < front.len() {
                    assert(key_lt(front[i], front[j]));
                } else {
                    // `out[j]` is the last unit, put behind a list that ends
                    // with another prefix and atom, which does not come
                    // behind it
                    let e = front[front.len() - 1];
                    assert(same_key(e, sd[sd.len() - 1]));
                    assert(!key_lt(s[s.len() - 1], s[sd.len() - 1]));
                    crate::normal::lemma_key_trichotomy(e, last);
                    assert(key_lt(e, last));
                    if i < front.len() - 1 {
                        assert(key_lt(front[i], e));
                        crate::normal::lemma_key_transitive(front[i], e, last);
                    }
                }
            }
        }
    }
}

/// The normal form, step by step: the units sorted by atom and, among equal
/// atoms, by prefix; every run of units that have the same prefix and atom
/// made one unit with the sum of the exponents; the units with the exponent
/// zero dropped. The normal form holds the units that these steps give,
/// annotations aside, and fails exactly when an exponent that they give is
/// out of range.
pub proof fn law_normal_form_by_steps(units: Seq<UnitView>)
    ensures
        match normalize(units) {
            Ok(n) => all_fit(coalesce(sort_spec(units))) && same_units(
                n,
                drop_zeros(coalesce(sort_spec(units))),
            ),
            Err(_) => !all_fit(coalesce(sort_spec(units))),
        },
{
    let sorted_units = sort_spec(units);
    let c = coalesce(sorted_units);
    lemma_sort_spec(units);
    lemma_coalesce(sorted_units, units[0]);
    assert forall|k: UnitView| #[trigger] exp_sum(c, k) == exp_sum(units, k) by {
        lemma_coalesce(sorted_units, k);
        lemma_sort_sum(units, k);
    }
    crate::sums::lemma_fit_sorted(c);
    crate::sums::lemma_fit_by_sums(units);
    if all_fit(c) {
        assert forall|k: UnitView| fits(#[trigger] exp_sum(units, k)) by {
            assert(exp_sum(c, k) == exp_sum(units, k));
            assert(fits(exp_sum(c, k)));
        }
    }
    if forall|k: UnitView| fits(#[trigger] exp_sum(units, k)) {
        assert forall|k: UnitView| fits(#[trigger] exp_sum(c, k)) by {
            assert(exp_sum(c, k) == exp_sum(units, k));
            assert(fits(exp_sum(units, k)));
        }
    }
    if let Ok(n) = normalize(units) {
        let m = crate::normal::merge_all(units);
        lemma_normalize_normalized(units);
        crate::normal::lemma_drop_zeros(c);
        assert forall|k: UnitView| #[trigger] exp_sum(n, k) == exp_sum(drop_zeros(c), k) by {
            crate::sums::lemma_drop_zeros_sum(m, k);
            crate::sums::lemma_merge_all_sum(units, k);
            crate::sums::lemma_drop_zeros_sum(c, k);
            assert(exp_sum(c, k) == exp_sum(units, k));
        }
        crate::sums::lemma_normal_unique(n, drop_zeros(c));
    }
}

/// A list in normal form is its own normal form, annotations aside.
pub proof fn law_normalize_idempotent(units: Seq<UnitView>)
    requires
        normalized(units),
    ensures
        normalize(units) matches Ok(n) && same_units(n, units),
{
    crate::sums::lemma_normalize_idempotent(units);
}

} // verus!
