//! The normal form of a list of units: sorted by atom, and among equal atoms
//! by prefix; every pair of prefix and atom at most once, with the sum of its
//! exponents; no exponent zero.

use crate::error::Error;
use crate::text::{
    lemma_lex_transitive, lemma_lex_trichotomy, lex_lt, str_lt,
};
use crate::unit::{views, Unit, UnitView};
use vstd::prelude::*;

verus! {

/// The order of the normal form: by atom, and among equal atoms by prefix,
/// each in the lexicographic order of its characters.
pub open spec fn key_lt(a: UnitView, b: UnitView) -> bool {
    lex_lt(a.atom, b.atom) || (a.atom == b.atom && lex_lt(a.prefix, b.prefix))
}

/// Whether two units have the same prefix and the same atom.
pub open spec fn same_key(a: UnitView, b: UnitView) -> bool {
    a.atom == b.atom && a.prefix == b.prefix
}

/// The unit `u` with the exponent `e`.
pub open spec fn with_exp(u: UnitView, e: int) -> UnitView {
    UnitView { prefix: u.prefix, atom: u.atom, exp: e, annotation: u.annotation }
}

/// The first position at or after `i` whose unit does not come before `u`.
pub open spec fn slot(acc: Seq<UnitView>, u: UnitView, i: int) -> int
    decreases acc.len() - i,
{
    if 0 <= i < acc.len() && key_lt(acc[i], u) {
        slot(acc, u, i + 1)
    } else {
        i
    }
}

/// The sorted list `acc` with `u` taken in: where a unit with the prefix and
/// atom of `u` is there, the exponent of `u` is added to it; otherwise `u`
/// is put at its place in the order.
pub open spec fn merge_in(acc: Seq<UnitView>, u: UnitView) -> Seq<UnitView> {
    let p = slot(acc, u, 0);
    if p < acc.len() && same_key(acc[p], u) {
        acc.update(p, with_exp(acc[p], acc[p].exp + u.exp))
    } else {
        acc.insert(p, u)
    }
}

/// The units taken in one after the other, from the empty list on.
pub open spec fn merge_all(units: Seq<UnitView>) -> Seq<UnitView>
    decreases units.len(),
{
    if units.len() == 0 {
        Seq::empty()
    } else {
        merge_in(merge_all(units.drop_last()), units.last())
    }
}

/// Whether an exponent is in the range of a signed 8-bit integer.
pub open spec fn fits(e: int) -> bool {
    -128 <= e <= 127
}

/// Whether every exponent of the list is in range.
pub open spec fn all_fit(s: Seq<UnitView>) -> bool {
    forall|i: int| 0 <= i < s.len() ==> fits(#[trigger] s[i].exp)
}

/// The list without the units whose exponent is zero.
pub open spec fn drop_zeros(s: Seq<UnitView>) -> Seq<UnitView>
    decreases s.len(),
{
    if s.len() == 0 {
        Seq::empty()
    } else if s.last().exp == 0 {
        drop_zeros(s.drop_last())
    } else {
        drop_zeros(s.drop_last()).push(s.last())
    }
}

/// The normal form of a list of units. It is a numeric error where the
/// exponents of one prefix and atom add up to a number out of range.
pub open spec fn normalize(units: Seq<UnitView>) -> Result<Seq<UnitView>, Error> {
    if all_fit(merge_all(units)) {
        Ok(drop_zeros(merge_all(units)))
    } else {
        Err(Error::Numeric)
    }
}

/// Whether the list is strictly sorted: each unit comes before all those
/// behind it, so no prefix and atom occurs twice.
pub open spec fn sorted(s: Seq<UnitView>) -> bool {
    forall|i: int, j: int| 0 <= i < j < s.len() ==> key_lt(#[trigger] s[i], #[trigger] s[j])
}

/// Whether no exponent of the list is zero.
pub open spec fn no_zero(s: Seq<UnitView>) -> bool {
    forall|i: int| 0 <= i < s.len() ==> (#[trigger] s[i]).exp != 0
}

/// Whether the list is in normal form.
pub open spec fn normalized(s: Seq<UnitView>) -> bool {
    sorted(s) && no_zero(s) && all_fit(s)
}

/// The sum of the exponents of the units of the list that have the prefix
/// and atom of `k`.
pub open spec fn exp_sum(units: Seq<UnitView>, k: UnitView) -> int
    decreases units.len(),
{
    if units.len() == 0 {
        0
    } else if same_key(units.last(), k) {
        exp_sum(units.drop_last(), k) + units.last().exp
    } else {
        exp_sum(units.drop_last(), k)
    }
}

/// Whether two lists hold the same units in the same order, annotations
/// aside.
pub open spec fn same_units(a: Seq<UnitView>, b: Seq<UnitView>) -> bool {
    &&& a.len() == b.len()
    &&& forall|i: int|
        0 <= i < a.len() ==> same_key(#[trigger] a[i], b[i]) && a[i].exp == b[i].exp
}

/// The order is transitive.
pub proof fn lemma_key_transitive(a: UnitView, b: UnitView, c: UnitView)
    requires
        key_lt(a, b),
        key_lt(b, c),
    ensures
        key_lt(a, c),
{
    lemma_lex_trichotomy(a.atom, b.atom);
    lemma_lex_trichotomy(b.atom, c.atom);
    if lex_lt(a.atom, b.atom) && lex_lt(b.atom, c.atom) {
        lemma_lex_transitive(a.atom, b.atom, c.atom);
    } else if a.atom == b.atom && b.atom == c.atom {
        lemma_lex_transitive(a.prefix, b.prefix, c.prefix);
    }
}

/// Of two units exactly one holds: the first comes before the second, they
/// have the same prefix and atom, or the second comes before the first.
pub proof fn lemma_key_trichotomy(a: UnitView, b: UnitView)
    ensures
        key_lt(a, b) || same_key(a, b) || key_lt(b, a),
        !(key_lt(a, b) && key_lt(b, a)),
        !(key_lt(a, b) && same_key(a, b)),
{
    lemma_lex_trichotomy(a.atom, b.atom);
    lemma_lex_trichotomy(a.prefix, b.prefix);
    lemma_lex_trichotomy(b.atom, a.atom);
    lemma_lex_trichotomy(b.prefix, a.prefix);
}

/// Where the slot lies: all units from `i` up to it come before `u`, and the
/// unit at it, if there is one, does not.
pub proof fn lemma_slot(acc: Seq<UnitView>, u: UnitView, i: int)
    requires
        0 <= i <= acc.len(),
    ensures
        i <= slot(acc, u, i) <= acc.len(),
        forall|j: int| i <= j < slot(acc, u, i) ==> key_lt(#[trigger] acc[j], u),
        slot(acc, u, i) < acc.len() ==> !key_lt(acc[slot(acc, u, i)], u),
    decreases acc.len() - i,
{
    if i < acc.len() && key_lt(acc[i], u) {
        lemma_slot(acc, u, i + 1);
    }
}

/// Taking a unit into a sorted list leaves the list sorted.
pub proof fn lemma_merge_in_sorted(acc: Seq<UnitView>, u: UnitView)
    requires
        sorted(acc),
    ensures
        sorted(merge_in(acc, u)),
{
    let p = slot(acc, u, 0);
    lemma_slot(acc, u, 0);
    let out = merge_in(acc, u);
    if p < acc.len() && same_key(acc[p], u) {
        assert forall|i: int, j: int| 0 <= i < j < out.len() implies key_lt(
            #[trigger] out[i],
            #[trigger] out[j],
        ) by {
            assert(key_lt(acc[i], acc[j]));
        }
    } else {
        assert forall|i: int, j: int| 0 <= i < j < out.len() implies key_lt(
            #[trigger] out[i],
            #[trigger] out[j],
        ) by {
            if j < p {
                assert(key_lt(acc[i], acc[j]));
            } else if j == p {
                assert(key_lt(acc[i], u));
            } else if i == p {
                lemma_key_trichotomy(acc[p], u);
                if j - 1 > p {
                    assert(key_lt(acc[p], acc[j - 1]));
                    lemma_key_transitive(u, acc[p], acc[j - 1]);
                }
            } else if i < p {
                assert(key_lt(acc[i], acc[j - 1]));
            } else {
                assert(key_lt(acc[i - 1], acc[j - 1]));
            }
        }
    }
}

/// The units taken in one after the other make a sorted list.
pub proof fn lemma_merge_all_sorted(units: Seq<UnitView>)
    ensures
        sorted(merge_all(units)),
    decreases units.len(),
{
    if units.len() > 0 {
        lemma_merge_all_sorted(units.drop_last());
        lemma_merge_in_sorted(merge_all(units.drop_last()), units.last());
    }
}

/// What is left when the zeros are dropped: units of the list with another
/// exponent, in their order.
pub proof fn lemma_drop_zeros(s: Seq<UnitView>)
    ensures
        no_zero(drop_zeros(s)),
        forall|i: int|
            0 <= i < drop_zeros(s).len() ==> exists|k: int|
                0 <= k < s.len() && s[k] == #[trigger] drop_zeros(s)[i],
        sorted(s) ==> sorted(drop_zeros(s)),
        all_fit(s) ==> all_fit(drop_zeros(s)),
    decreases s.len(),
{
    if s.len() > 0 {
        let front = s.drop_last();
        let d = drop_zeros(front);
        lemma_drop_zeros(front);
        let out = drop_zeros(s);
        assert forall|i: int| 0 <= i < out.len() implies exists|k: int|
            0 <= k < s.len() && s[k] == #[trigger] out[i] by {
            if i < d.len() {
                let k = choose|k: int| 0 <= k < front.len() && front[k] == d[i];
                assert(s[k] == out[i]);
            } else {
                assert(s[s.len() - 1] == out[i]);
            }
        }
        if sorted(s) {
            assert(sorted(front)) by {
                assert forall|i: int, j: int| 0 <= i < j < front.len() implies key_lt(
                    #[trigger] front[i],
                    #[trigger] front[j],
                ) by {
                    assert(key_lt(s[i], s[j]));
                }
            }
            assert forall|i: int, j: int| 0 <= i < j < out.len() implies key_lt(
                #[trigger] out[i],
                #[trigger] out[j],
            ) by {
                if j < d.len() {
                    assert(key_lt(d[i], d[j]));
                } else {
                    let k = choose|k: int| 0 <= k < front.len() && front[k] == d[i];
                    assert(key_lt(s[k], s[s.len() - 1]));
                }
            }
        }
        if all_fit(s) {
            assert(all_fit(front)) by {
                assert forall|i: int| 0 <= i < front.len() implies fits(
                    #[trigger] front[i].exp,
                ) by {
                    assert(fits(s[i].exp));
                }
            }
            assert forall|i: int| 0 <= i < out.len() implies fits(#[trigger] out[i].exp) by {
                if i < d.len() {
                } else {
                    assert(fits(s[s.len() - 1].exp));
                }
            }
        }
    }
}

/// What the normal form is: sorted, every prefix and atom at most once, no
/// exponent zero, every exponent in range.
pub proof fn lemma_normalize_normalized(units: Seq<UnitView>)
    ensures
        normalize(units) matches Ok(n) ==> normalized(n),
{
    lemma_merge_all_sorted(units);
    lemma_drop_zeros(merge_all(units));
}

/// Whether `a` comes before `b` in the order of the normal form.
pub fn unit_key_lt(a: &Unit, b: &Unit) -> (r: bool)
    ensures
        r == key_lt(a@, b@),
{
    if str_lt(a.atom.as_str(), b.atom.as_str()) {
        true
    } else if a.atom == b.atom {
        str_lt(a.prefix.as_str(), b.prefix.as_str())
    } else {
        false
    }
}

/// The units that stand at the places of `keys`, each with the exponent at
/// its place in `totals`.
pub open spec fn totals_view(keys: Seq<Unit>, totals: Seq<i128>) -> Seq<UnitView> {
    Seq::new(keys.len(), |i: int| with_exp(keys[i]@, totals[i] as int))
}

/// Takes the unit `u` into the sorted list that `keys` and `totals` hold.
fn take_in(keys: &mut Vec<Unit>, totals: &mut Vec<i128>, u: &Unit, Ghost(bound): Ghost<int>)
    requires
        old(keys).len() == old(totals).len(),
        0 <= bound < 0x1_0000_0000_0000_0000,
        forall|j: int|
            0 <= j < old(totals).len() ==> -128 * bound <= #[trigger] old(totals)[j] <= 128
                * bound,
    ensures
        final(keys).len() == final(totals).len(),
        totals_view(final(keys)@, final(totals)@) == merge_in(
            totals_view(old(keys)@, old(totals)@),
            u@,
        ),
        forall|j: int|
            0 <= j < final(totals).len() ==> -128 * (bound + 1) <= #[trigger] final(totals)[j]
                <= 128 * (bound + 1),
{
    let ghost acc = totals_view(keys@, totals@);
    let mut p: usize = 0;
    while p < keys.len() && unit_key_lt(&keys[p], u)
        invariant
            p <= keys.len(),
            keys.len() == totals.len(),
            acc == totals_view(keys@, totals@),
            slot(acc, u@, 0) == slot(acc, u@, p as int),
        decreases keys.len() - p,
    {
        p += 1;
    }
    if p < keys.len() && keys[p].has_same_unit(u) {
        let sum = totals[p] + u.exp as i128;
        totals.set(p, sum);
        proof {
            assert(totals_view(keys@, totals@) =~= merge_in(acc, u@));
        }
    } else {
        keys.insert(p, u.clone());
        totals.insert(p, u.exp as i128);
        proof {
            assert(with_exp(u@, u.exp as int) == u@);
            assert(totals_view(keys@, totals@) =~= merge_in(acc, u@));
        }
    }
}

/// Puts a list of units into normal form.
pub fn normalize_units(units: Vec<Unit>) -> (r: Result<Vec<Unit>, Error>)
    ensures
        match normalize(views(units@)) {
            Ok(n) => r matches Ok(v) && views(v@) == n && normalized(n),
            Err(e) => r == Err::<Vec<Unit>, Error>(e),
        },
{
    let mut keys: Vec<Unit> = Vec::new();
    let mut totals: Vec<i128> = Vec::new();
    let mut i: usize = 0;
    while i < units.len()
        invariant
            i <= units.len(),
            keys.len() == totals.len(),
            totals_view(keys@, totals@) == merge_all(views(units@).take(i as int)),
            forall|j: int| 0 <= j < totals.len() ==> -128 * i <= #[trigger] totals[j] <= 128 * i,
        decreases units.len() - i,
    {
        proof {
            let before = views(units@).take(i as int);
            let after = views(units@).take(i + 1);
            assert(after.drop_last() =~= before);
            assert(after.last() == units@[i as int]@);
        }
        take_in(&mut keys, &mut totals, &units[i], Ghost(i as int));
        i += 1;
    }
    let ghost merged = totals_view(keys@, totals@);
    proof {
        assert(views(units@).take(units.len() as int) =~= views(units@));
        lemma_normalize_normalized(views(units@));
    }
    let mut out: Vec<Unit> = Vec::new();
    let mut j: usize = 0;
    while j < keys.len()
        invariant
            j <= keys.len(),
            keys.len() == totals.len(),
            merged == totals_view(keys@, totals@),
            merged == merge_all(views(units@)),
            views(out@) == drop_zeros(merged.take(j as int)),
            all_fit(merged.take(j as int)),
        decreases keys.len() - j,
    {
        let ghost before = merged.take(j as int);
        let ghost after = merged.take(j + 1);
        proof {
            assert(after.drop_last() =~= before);
            assert(after.last() == merged[j as int]);
        }
        let total = totals[j];
        if total < -128 || total > 127 {
            proof {
                assert(!fits(merged[j as int].exp));
            }
            return Err(Error::Numeric);
        }
        if total != 0 {
            let key = &keys[j];
            let unit = Unit {
                prefix: key.prefix.clone(),
                atom: key.atom.clone(),
                exp: total as i8,
                annotation: match &key.annotation {
                    Some(a) => Some(a.clone()),
                    None => None,
                },
            };
            proof {
                assert(unit@ == merged[j as int]);
                assert(views(out@.push(unit)) =~= views(out@).push(unit@));
            }
            out.push(unit);
        }
        proof {
            assert forall|k: int| 0 <= k < after.len() implies fits(#[trigger] after[k].exp) by {
                if k < j {
                    assert(after[k] == before[k]);
                }
            }
        }
        j += 1;
    }
    proof {
        assert(merged.take(keys.len() as int) =~= merged);
    }
    Ok(out)
}

} // verus!
