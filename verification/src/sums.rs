//! The normal form by its sums: the normal form of a list of units is
//! determined by the sum of the exponents of each prefix and atom.

use crate::normal::{
    all_fit, drop_zeros, exp_sum, fits, key_lt, lemma_drop_zeros, lemma_key_trichotomy,
    lemma_merge_all_sorted, lemma_slot, merge_all, merge_in, no_zero, normalize, same_key,
    same_units, slot, sorted, with_exp,
};
use crate::unit::UnitView;
use vstd::prelude::*;

verus! {

/// The sum over two lists put together is the sum of the two sums.
pub proof fn lemma_exp_sum_concat(a: Seq<UnitView>, b: Seq<UnitView>, k: UnitView)
    ensures
        exp_sum(a + b, k) == exp_sum(a, k) + exp_sum(b, k),
    decreases b.len(),
{
    if b.len() == 0 {
        assert(a + b =~= a);
    } else {
        assert((a + b).drop_last() =~= a + b.drop_last());
        assert((a + b).last() == b.last());
        lemma_exp_sum_concat(a, b.drop_last(), k);
    }
}

/// The sum over a list of one unit.
pub proof fn lemma_exp_sum_one(u: UnitView, k: UnitView)
    ensures
        exp_sum(seq![u], k) == if same_key(u, k) {
            u.exp
        } else {
            0
        },
{
    assert(seq![u].drop_last() =~= Seq::<UnitView>::empty());
    assert(seq![u].last() == u);
    assert(exp_sum(Seq::<UnitView>::empty(), k) == 0);
}

/// The sum does not depend on which unit stands for the prefix and atom.
pub proof fn lemma_exp_sum_key(s: Seq<UnitView>, k: UnitView, l: UnitView)
    requires
        same_key(k, l),
    ensures
        exp_sum(s, k) == exp_sum(s, l),
    decreases s.len(),
{
    if s.len() > 0 {
        lemma_exp_sum_key(s.drop_last(), k, l);
    }
}

/// Where no unit of the list has the prefix and atom, the sum is zero.
pub proof fn lemma_exp_sum_absent(s: Seq<UnitView>, k: UnitView)
    requires
        forall|i: int| 0 <= i < s.len() ==> !same_key(#[trigger] s[i], k),
    ensures
        exp_sum(s, k) == 0,
    decreases s.len(),
{
    if s.len() > 0 {
        assert forall|i: int| 0 <= i < s.drop_last().len() implies !same_key(
            #[trigger] s.drop_last()[i],
            k,
        ) by {
            assert(s.drop_last()[i] == s[i]);
        }
        lemma_exp_sum_absent(s.drop_last(), k);
        assert(!same_key(s[s.len() - 1], k));
    }
}

/// Where the sum is not zero, a unit of the list has the prefix and atom.
pub proof fn lemma_exp_sum_present(s: Seq<UnitView>, k: UnitView)
    requires
        exp_sum(s, k) != 0,
    ensures
        exists|i: int| 0 <= i < s.len() && same_key(#[trigger] s[i], k),
{
    if !(exists|i: int| 0 <= i < s.len() && same_key(#[trigger] s[i], k)) {
        lemma_exp_sum_absent(s, k);
    }
}

/// Taking a unit into a list adds its exponent to the sum of its prefix and
/// atom, and leaves the other sums.
pub proof fn lemma_merge_in_sum(acc: Seq<UnitView>, u: UnitView, k: UnitView)
    ensures
        exp_sum(merge_in(acc, u), k) == exp_sum(acc, k) + if same_key(u, k) {
            u.exp
        } else {
            0
        },
{
    let p = slot(acc, u, 0);
    lemma_slot(acc, u, 0);
    let front = acc.take(p);
    let back = acc.skip(p);
    assert(acc =~= front + back);
    lemma_exp_sum_concat(front, back, k);
    if p < acc.len() && same_key(acc[p], u) {
        let rest = acc.skip(p + 1);
        let grown = with_exp(acc[p], acc[p].exp + u.exp);
        assert(back =~= seq![acc[p]] + rest);
        assert(merge_in(acc, u) =~= front + (seq![grown] + rest));
        lemma_exp_sum_concat(seq![acc[p]], rest, k);
        lemma_exp_sum_concat(seq![grown], rest, k);
        lemma_exp_sum_concat(front, seq![grown] + rest, k);
        lemma_exp_sum_one(acc[p], k);
        lemma_exp_sum_one(grown, k);
    } else {
        assert(merge_in(acc, u) =~= front + (seq![u] + back));
        lemma_exp_sum_concat(seq![u], back, k);
        lemma_exp_sum_concat(front, seq![u] + back, k);
        lemma_exp_sum_one(u, k);
    }
}

/// Taking the units in one after the other keeps every sum.
pub proof fn lemma_merge_all_sum(units: Seq<UnitView>, k: UnitView)
    ensures
        exp_sum(merge_all(units), k) == exp_sum(units, k),
    decreases units.len(),
{
    if units.len() > 0 {
        lemma_merge_all_sum(units.drop_last(), k);
        lemma_merge_in_sum(merge_all(units.drop_last()), units.last(), k);
    }
}

/// Dropping the zeros keeps every sum.
pub proof fn lemma_drop_zeros_sum(s: Seq<UnitView>, k: UnitView)
    ensures
        exp_sum(drop_zeros(s), k) == exp_sum(s, k),
    decreases s.len(),
{
    if s.len() > 0 {
        lemma_drop_zeros_sum(s.drop_last(), k);
        if s.last().exp != 0 {
            assert(drop_zeros(s).drop_last() =~= drop_zeros(s.drop_last()));
            assert(drop_zeros(s).last() == s.last());
        }
    }
}

/// A list without its last unit is sorted if the list is.
pub proof fn lemma_sorted_front(s: Seq<UnitView>)
    requires
        sorted(s),
        s.len() > 0,
    ensures
        sorted(s.drop_last()),
{
    assert forall|i: int, j: int| 0 <= i < j < s.drop_last().len() implies key_lt(
        #[trigger] s.drop_last()[i],
        #[trigger] s.drop_last()[j],
    ) by {
        assert(key_lt(s[i], s[j]));
    }
}

/// In a sorted list the sum of a unit's prefix and atom is the exponent of
/// that unit: it is the only one with them.
pub proof fn lemma_sorted_sum(s: Seq<UnitView>, i: int)
    requires
        sorted(s),
        0 <= i < s.len(),
    ensures
        exp_sum(s, s[i]) == s[i].exp,
    decreases s.len(),
{
    let front = s.drop_last();
    let k = s[i];
    if i == s.len() - 1 {
        assert forall|j: int| 0 <= j < front.len() implies !same_key(#[trigger] front[j], k) by {
            assert(key_lt(s[j], s[i]));
            lemma_key_trichotomy(s[j], s[i]);
        }
        lemma_exp_sum_absent(front, k);
    } else {
        lemma_sorted_front(s);
        lemma_sorted_sum(front, i);
        assert(key_lt(s[i], s[s.len() - 1]));
        lemma_key_trichotomy(s[i], s[s.len() - 1]);
    }
}

/// In a sorted list every exponent is in range exactly when every sum is.
pub proof fn lemma_fit_sorted(m: Seq<UnitView>)
    requires
        sorted(m),
    ensures
        all_fit(m) <==> forall|k: UnitView| fits(#[trigger] exp_sum(m, k)),
{
    if forall|k: UnitView| fits(#[trigger] exp_sum(m, k)) {
        assert forall|i: int| 0 <= i < m.len() implies fits(#[trigger] m[i].exp) by {
            lemma_sorted_sum(m, i);
            assert(fits(exp_sum(m, m[i])));
        }
    }
    if all_fit(m) {
        assert forall|k: UnitView| fits(#[trigger] exp_sum(m, k)) by {
            if exp_sum(m, k) != 0 {
                lemma_exp_sum_present(m, k);
                let i = choose|i: int| 0 <= i < m.len() && same_key(#[trigger] m[i], k);
                lemma_sorted_sum(m, i);
                lemma_exp_sum_key(m, m[i], k);
                assert(fits(m[i].exp));
            }
        }
    }
}

/// The units taken in one after the other all have an exponent in range
/// exactly when every sum is in range.
pub proof fn lemma_fit_by_sums(units: Seq<UnitView>)
    ensures
        all_fit(merge_all(units)) <==> forall|k: UnitView| fits(#[trigger] exp_sum(units, k)),
{
    let m = merge_all(units);
    lemma_merge_all_sorted(units);
    lemma_fit_sorted(m);
    if forall|k: UnitView| fits(#[trigger] exp_sum(units, k)) {
        assert forall|k: UnitView| fits(#[trigger] exp_sum(m, k)) by {
            lemma_merge_all_sum(units, k);
            assert(fits(exp_sum(units, k)));
        }
    }
    if forall|k: UnitView| fits(#[trigger] exp_sum(m, k)) {
        assert forall|k: UnitView| fits(#[trigger] exp_sum(units, k)) by {
            lemma_merge_all_sum(units, k);
            assert(fits(exp_sum(m, k)));
        }
    }
}

/// Two sorted lists without zeros that agree in every sum hold the same
/// units, annotations aside.
pub proof fn lemma_normal_unique(x: Seq<UnitView>, y: Seq<UnitView>)
    requires
        sorted(x),
        sorted(y),
        no_zero(x),
        no_zero(y),
        forall|k: UnitView| #[trigger] exp_sum(x, k) == exp_sum(y, k),
    ensures
        same_units(x, y),
    decreases x.len() + y.len(),
{
    if x.len() == 0 {
        if y.len() > 0 {
            let l = y[y.len() - 1];
            lemma_sorted_sum(y, y.len() - 1);
            assert(exp_sum(x, l) == exp_sum(y, l));
            assert(l.exp != 0);
        }
    } else if y.len() == 0 {
        let l = x[x.len() - 1];
        lemma_sorted_sum(x, x.len() - 1);
        assert(exp_sum(x, l) == exp_sum(y, l));
        assert(l.exp != 0);
    } else {
        let lx = x[x.len() - 1];
        let ly = y[y.len() - 1];
        lemma_sorted_sum(x, x.len() - 1);
        lemma_sorted_sum(y, y.len() - 1);
        lemma_key_trichotomy(lx, ly);
        assert(lx.exp != 0 && ly.exp != 0);
        if key_lt(lx, ly) {
            // the prefix and atom of `ly` do not occur in `x`
            assert forall|i: int| 0 <= i < x.len() implies !same_key(#[trigger] x[i], ly) by {
                if i < x.len() - 1 {
                    assert(key_lt(x[i], lx));
                    crate::normal::lemma_key_transitive(x[i], lx, ly);
                }
                lemma_key_trichotomy(x[i], ly);
            }
            lemma_exp_sum_absent(x, ly);
            assert(exp_sum(x, ly) == exp_sum(y, ly));
            assert(false);
        }
        if key_lt(ly, lx) {
            assert forall|i: int| 0 <= i < y.len() implies !same_key(#[trigger] y[i], lx) by {
                if i < y.len() - 1 {
                    assert(key_lt(y[i], ly));
                    crate::normal::lemma_key_transitive(y[i], ly, lx);
                }
                lemma_key_trichotomy(y[i], lx);
            }
            lemma_exp_sum_absent(y, lx);
            assert(exp_sum(x, lx) == exp_sum(y, lx));
            assert(false);
        }
        assert(same_key(lx, ly));
        lemma_exp_sum_key(y, ly, lx);
        assert(exp_sum(x, lx) == exp_sum(y, lx));
        assert(lx.exp == ly.exp);
        let xd = x.drop_last();
        let yd = y.drop_last();
        lemma_sorted_front(x);
        lemma_sorted_front(y);
        assert forall|k: UnitView| #[trigger] exp_sum(xd, k) == exp_sum(yd, k) by {
            assert(exp_sum(x, k) == exp_sum(y, k));
        }
        assert(no_zero(xd)) by {
            assert forall|i: int| 0 <= i < xd.len() implies (#[trigger] xd[i]).exp != 0 by {
                assert(xd[i] == x[i]);
            }
        }
        assert(no_zero(yd)) by {
            assert forall|i: int| 0 <= i < yd.len() implies (#[trigger] yd[i]).exp != 0 by {
                assert(yd[i] == y[i]);
            }
        }
        lemma_normal_unique(xd, yd);
        assert forall|i: int| 0 <= i < x.len() implies same_key(#[trigger] x[i], y[i]) && x[i].exp
            == y[i].exp by {
            if i < x.len() - 1 {
                assert(xd[i] == x[i]);
                assert(yd[i] == y[i]);
                assert(same_key(xd[i], yd[i]));
            }
        }
    }
}

/// Two lists that agree in every sum have the same normal form, annotations
/// aside; and the one has a normal form exactly when the other has.
pub proof fn lemma_normalize_by_sums(x: Seq<UnitView>, y: Seq<UnitView>)
    requires
        forall|k: UnitView| #[trigger] exp_sum(x, k) == exp_sum(y, k),
    ensures
        match (normalize(x), normalize(y)) {
            (Ok(n), Ok(m)) => same_units(n, m),
            (Err(e), Err(f)) => e == f,
            _ => false,
        },
{
    lemma_fit_by_sums(x);
    lemma_fit_by_sums(y);
    if forall|k: UnitView| fits(#[trigger] exp_sum(x, k)) {
        assert forall|k: UnitView| fits(#[trigger] exp_sum(y, k)) by {
            assert(exp_sum(x, k) == exp_sum(y, k));
        }
    }
    if forall|k: UnitView| fits(#[trigger] exp_sum(y, k)) {
        assert forall|k: UnitView| fits(#[trigger] exp_sum(x, k)) by {
            assert(exp_sum(x, k) == exp_sum(y, k));
        }
    }
    if all_fit(merge_all(x)) {
        let n = drop_zeros(merge_all(x));
        let m = drop_zeros(merge_all(y));
        lemma_merge_all_sorted(x);
        lemma_merge_all_sorted(y);
        lemma_drop_zeros(merge_all(x));
        lemma_drop_zeros(merge_all(y));
        assert forall|k: UnitView| #[trigger] exp_sum(n, k) == exp_sum(m, k) by {
            lemma_drop_zeros_sum(merge_all(x), k);
            lemma_drop_zeros_sum(merge_all(y), k);
            lemma_merge_all_sum(x, k);
            lemma_merge_all_sum(y, k);
            assert(exp_sum(x, k) == exp_sum(y, k));
        }
        lemma_normal_unique(n, m);
    }
}

/// Lists that hold the same units, annotations aside, agree in every sum.
pub proof fn lemma_same_units_sum(x: Seq<UnitView>, y: Seq<UnitView>, k: UnitView)
    requires
        same_units(x, y),
    ensures
        exp_sum(x, k) == exp_sum(y, k),
    decreases x.len(),
{
    if x.len() > 0 {
        let xd = x.drop_last();
        let yd = y.drop_last();
        assert(same_units(xd, yd)) by {
            assert forall|i: int| 0 <= i < xd.len() implies same_key(#[trigger] xd[i], yd[i])
                && xd[i].exp == yd[i].exp by {
                assert(same_key(x[i], y[i]));
            }
        }
        lemma_same_units_sum(xd, yd, k);
        assert(same_key(x[x.len() - 1], y[x.len() - 1]));
    }
}

/// The sums of a list in normal form are zero or the exponent of the one
/// unit with the prefix and atom; so the normal form of a normal form is
/// the same list, annotations aside.
pub proof fn lemma_normalize_idempotent(x: Seq<UnitView>)
    requires
        sorted(x),
        no_zero(x),
        all_fit(x),
    ensures
        normalize(x) matches Ok(n) && same_units(n, x),
{
    lemma_fit_by_sums(x);
    assert forall|k: UnitView| fits(#[trigger] exp_sum(x, k)) by {
        if exp_sum(x, k) != 0 {
            lemma_exp_sum_present(x, k);
            let i = choose|i: int| 0 <= i < x.len() && same_key(#[trigger] x[i], k);
            lemma_sorted_sum(x, i);
            lemma_exp_sum_key(x, x[i], k);
            assert(fits(x[i].exp));
        }
    }
    let n = drop_zeros(merge_all(x));
    lemma_merge_all_sorted(x);
    lemma_drop_zeros(merge_all(x));
    assert forall|k: UnitView| #[trigger] exp_sum(n, k) == exp_sum(x, k) by {
        lemma_drop_zeros_sum(merge_all(x), k);
        lemma_merge_all_sum(x, k);
    }
    lemma_normal_unique(n, x);
}

} // verus!
