//! Writing a unit term out and reading it back: the units that come back
//! are the units that were written, annotations aside.

use crate::error::Error;
use crate::laws::{law_normal_form, law_reduction_ignores_annotations};
use crate::lexer::{
    digits_end, ends_symbol, is_stray, lemma_lex_advances, lex, symbol_end, Lexed, TokenView,
};
use crate::magnitude::{mag_div, mag_int, mag_mul, mag_one, MagView};
use crate::normal::{all_fit, fits, normalize, normalized, same_key, same_units};
use crate::parser::{lemma_step_advances, parse_from, step, Parsed, Step};
use crate::sums::{lemma_normalize_by_sums, lemma_normalize_idempotent, lemma_same_units_sum};
use crate::term::{base_units, term_of, units_equal};
use crate::text::{i8_value, int_text, is_digit, is_sign, lemma_int_text};
use crate::unit::{factor_text, prefix_len, symbol, unit_of, units_text, UnitView};
use vstd::prelude::*;

verus! {

/// Whether `c` can start a unit symbol: it is no blank, does not end a
/// symbol and is no stray character.
pub open spec fn starts_symbol(c: char) -> bool {
    c != ' ' && !ends_symbol(c) && !is_stray(c)
}

/// Whether a unit is read back as it is written: its symbol is not empty,
/// starts as a symbol does, holds no character that ends a symbol, and
/// splits into the prefix and the atom of the unit.
pub open spec fn readable(u: UnitView) -> bool {
    &&& symbol(u).len() > 0
    &&& starts_symbol(symbol(u)[0])
    &&& forall|j: int| 0 <= j < symbol(u).len() ==> !ends_symbol(#[trigger] symbol(u)[j])
    &&& u.prefix.len() == prefix_len(symbol(u))
}

/// Whether every unit of the list is read back as it is written.
pub open spec fn all_readable(units: Seq<UnitView>) -> bool {
    forall|i: int| 0 <= i < units.len() ==> readable(#[trigger] units[i])
}

/// Whether a unit is one that reading gives: it has an empty symbol, or is
/// read back as it is written.
pub open spec fn lexed(u: UnitView) -> bool {
    symbol(u).len() == 0 || readable(u)
}

/// Whether every unit of the list is one that reading gives.
pub open spec fn all_lexed(units: Seq<UnitView>) -> bool {
    forall|i: int| 0 <= i < units.len() ==> lexed(#[trigger] units[i])
}

/// The unit as it is read back: without its annotation.
pub open spec fn read_back(u: UnitView) -> UnitView {
    unit_of(symbol(u), u.exp, None)
}

/// The units of the list as they are read back.
pub open spec fn all_read_back(units: Seq<UnitView>) -> Seq<UnitView> {
    Seq::new(units.len(), |i: int| read_back(units[i]))
}

/// A run of digits ends where the first other character stands.
pub proof fn lemma_digits_end_run(s: Seq<char>, i: int, j: int)
    requires
        0 <= i <= j <= s.len(),
        forall|k: int| i <= k < j ==> is_digit(#[trigger] s[k]),
        j == s.len() || !is_digit(s[j]),
    ensures
        digits_end(s, i) == j,
    decreases j - i,
{
    if i < j {
        assert(is_digit(s[i]));
        lemma_digits_end_run(s, i + 1, j);
    }
}

/// A symbol ends where the first character that ends a symbol stands.
pub proof fn lemma_symbol_end_run(s: Seq<char>, i: int, j: int)
    requires
        0 <= i <= j <= s.len(),
        forall|k: int| i <= k < j ==> !ends_symbol(#[trigger] s[k]),
        j == s.len() || ends_symbol(s[j]),
    ensures
        symbol_end(s, i) == j,
    decreases j - i,
{
    if i < j {
        assert(!ends_symbol(s[i]));
        lemma_symbol_end_run(s, i + 1, j);
    }
}

/// No character of a symbol ends a symbol.
pub proof fn lemma_symbol_end_chars(s: Seq<char>, i: int)
    requires
        0 <= i <= s.len(),
    ensures
        i <= symbol_end(s, i) <= s.len(),
        forall|k: int| i <= k < symbol_end(s, i) ==> !ends_symbol(#[trigger] s[k]),
    decreases s.len() - i,
{
    if i < s.len() && !ends_symbol(s[i]) {
        lemma_symbol_end_chars(s, i + 1);
    }
}

/// A unit that is written at position `p` of a text, with a period or the
/// end of the text behind it, is read from there as it is written.
pub proof fn lemma_lex_factor(s: Seq<char>, p: int, u: UnitView)
    requires
        readable(u),
        fits(u.exp),
        0 <= p,
        p + factor_text(u).len() <= s.len(),
        s.subrange(p, p + factor_text(u).len()) == factor_text(u),
        p + factor_text(u).len() == s.len() || s[p + factor_text(u).len()] == '.',
    ensures
        lex(s, p) == Lexed::Token(TokenView::Unit(read_back(u)), p + factor_text(u).len()),
{
    let sym = symbol(u);
    let ft = factor_text(u);
    let end = p + ft.len();
    let j = p + sym.len();
    assert forall|k: int| 0 <= k < ft.len() implies s[p + k] == #[trigger] ft[k] by {
        assert(s.subrange(p, end)[k] == s[p + k]);
    }
    assert forall|k: int| p <= k < j implies !ends_symbol(#[trigger] s[k]) by {
        assert(s[p + (k - p)] == ft[k - p]);
        assert(ft[k - p] == sym[k - p]);
    }
    assert(s[p + 0] == ft[0]);
    assert(s[p] == sym[0]);
    if u.exp == 1 {
        assert(ends_symbol('.'));
        lemma_symbol_end_run(s, p, j);
        assert(s.subrange(p, j) =~= sym);
    } else {
        let it = int_text(u.exp);
        lemma_int_text(u.exp);
        assert(ft =~= sym + it);
        assert forall|k: int| 0 <= k < it.len() implies s[j + k] == #[trigger] it[k] by {
            assert(s[p + (sym.len() + k)] == ft[sym.len() + k]);
        }
        assert(s[j + 0] == it[0]);
        assert(ends_symbol(s[j]));
        lemma_symbol_end_run(s, p, j);
        assert(s.subrange(p, j) =~= sym);
        assert forall|k: int| j + 1 <= k < end implies is_digit(#[trigger] s[k]) by {
            assert(s[j + (k - j)] == it[k - j]);
        }
        assert(!is_digit('.'));
        lemma_digits_end_run(s, j + 1, end);
        assert(s.subrange(j, end) =~= it);
        assert(s[j] != '{');
    }
}

/// The text of a list of units, from its first unit on: the first unit,
/// then, if more follow, a period and the text of the rest.
pub proof fn lemma_text_front(units: Seq<UnitView>)
    requires
        units.len() > 0,
        forall|i: int| 0 <= i < units.len() ==> factor_text(#[trigger] units[i]).len() > 0,
    ensures
        units_text(units).len() > 0,
        units_text(units) == factor_text(units[0]) + if units.len() == 1 {
            Seq::<char>::empty()
        } else {
            seq!['.'] + units_text(units.skip(1))
        },
    decreases units.len(),
{
    let front = units.drop_last();
    let last = units.last();
    assert(factor_text(units[units.len() - 1]).len() > 0);
    if units.len() == 1 {
        assert(units_text(front) =~= Seq::<char>::empty());
        assert(units_text(units) =~= factor_text(units[0]) + Seq::<char>::empty());
    } else {
        assert forall|i: int| 0 <= i < front.len() implies factor_text(#[trigger] front[i]).len()
            > 0 by {
            assert(front[i] == units[i]);
        }
        lemma_text_front(front);
        let tail = units.skip(1);
        assert(tail.drop_last() =~= front.skip(1));
        assert(tail.last() == last);
        assert(front[0] == units[0]);
        if front.len() == 1 {
            assert(units_text(tail.drop_last()) =~= Seq::<char>::empty());
            assert(units_text(units) =~= factor_text(units[0]) + (seq!['.'] + units_text(tail)));
        } else {
            let mid = front.skip(1);
            assert forall|i: int| 0 <= i < mid.len() implies factor_text(#[trigger] mid[i]).len()
                > 0 by {
                assert(mid[i] == units[i + 1]);
            }
            lemma_text_front(mid);
            assert(units_text(tail) == units_text(mid) + seq!['.'] + factor_text(last));
            assert(units_text(units) =~= factor_text(units[0]) + (seq!['.'] + units_text(tail)));
        }
    }
}

/// Reading on behind a unit: where the rest of the text is a period and the
/// text of a list of units, or nothing, those units are read.
pub proof fn lemma_parse_rest(s: Seq<char>, q: int, rest: Seq<UnitView>, acc: Seq<UnitView>)
    requires
        0 <= q <= s.len(),
        all_readable(rest),
        all_fit(rest),
        s.skip(q) == if rest.len() == 0 {
            Seq::<char>::empty()
        } else {
            seq!['.'] + units_text(rest)
        },
    ensures
        parse_from(s, q, mag_one(), acc) == Ok::<Parsed, Error>(
            Parsed { mag: mag_one(), units: acc + all_read_back(rest) },
        ),
    decreases rest.len(),
{
    if rest.len() == 0 {
        assert(s.skip(q).len() == 0);
        assert(acc + all_read_back(rest) =~= acc);
    } else {
        let text = units_text(rest);
        let u = rest[0];
        let ft = factor_text(u);
        assert forall|i: int| 0 <= i < rest.len() implies factor_text(#[trigger] rest[i]).len()
            > 0 by {
            assert(readable(rest[i]));
        }
        lemma_text_front(rest);
        let tail = rest.skip(1);
        let after = s.skip(q);
        assert(after.len() == 1 + text.len());
        assert(after[0] == '.');
        assert(s[q] == after[0]);
        let p = q + 1;
        let end = p + ft.len();
        assert forall|k: int| 0 <= k < text.len() implies s[p + k] == #[trigger] text[k] by {
            assert(after[1 + k] == s[q + (1 + k)]);
        }
        assert(s.subrange(p, end) =~= ft) by {
            assert forall|k: int| 0 <= k < ft.len() implies s.subrange(p, end)[k] == ft[k] by {
                assert(text[k] == ft[k]);
            }
        }
        if rest.len() > 1 {
            assert(text[ft.len() as int] == '.');
            assert(s[p + ft.len()] == text[ft.len() as int]);
        }
        assert(readable(u) && fits(u.exp));
        lemma_lex_factor(s, p, u);
        assert(lex(s, q) == Lexed::Token(TokenView::Mul, q + 1));
        assert(step(s, p, mag_one()) == Step::Unit(read_back(u), end, mag_one()));
        assert(step(s, q, mag_one()) == Step::Unit(read_back(u), end, mag_one()));
        assert(all_readable(tail) && all_fit(tail)) by {
            assert forall|i: int| 0 <= i < tail.len() implies readable(#[trigger] tail[i])
                && fits(tail[i].exp) by {
                assert(tail[i] == rest[i + 1]);
            }
        }
        assert(s.skip(end) =~= if tail.len() == 0 {
            Seq::<char>::empty()
        } else {
            seq!['.'] + units_text(tail)
        }) by {
            if tail.len() > 0 {
                assert forall|k: int| 0 <= k < s.skip(end).len() implies s.skip(end)[k] == (
                seq!['.'] + units_text(tail))[k] by {
                    assert(s[p + (ft.len() + k)] == text[ft.len() + k]);
                }
            }
        }
        lemma_parse_rest(s, end, tail, acc.push(read_back(u)));
        assert(acc.push(read_back(u)) + all_read_back(tail) =~= acc + all_read_back(rest));
    }
}

/// Reading the text of a list of units gives the units back, without their
/// annotations, and the magnitude one.
pub proof fn lemma_parse_text(units: Seq<UnitView>)
    requires
        all_readable(units),
        all_fit(units),
    ensures
        parse_from(units_text(units), 0, mag_one(), Seq::empty()) == Ok::<Parsed, Error>(
            Parsed { mag: mag_one(), units: all_read_back(units) },
        ),
{
    let s = units_text(units);
    if units.len() == 0 {
        assert(all_read_back(units) =~= Seq::<UnitView>::empty());
    } else {
        let u = units[0];
        let ft = factor_text(u);
        assert forall|i: int| 0 <= i < units.len() implies factor_text(
            #[trigger] units[i],
        ).len() > 0 by {
            assert(readable(units[i]));
        }
        lemma_text_front(units);
        let tail = units.skip(1);
        let end = ft.len() as int;
        assert(s.subrange(0, end) =~= ft);
        if units.len() > 1 {
            assert(s[end] == '.');
        }
        assert(readable(u) && fits(u.exp));
        lemma_lex_factor(s, 0, u);
        assert(step(s, 0, mag_one()) == Step::Unit(read_back(u), end, mag_one()));
        assert(all_readable(tail) && all_fit(tail)) by {
            assert forall|i: int| 0 <= i < tail.len() implies readable(#[trigger] tail[i])
                && fits(tail[i].exp) by {
                assert(tail[i] == units[i + 1]);
            }
        }
        assert(s.skip(end) =~= if tail.len() == 0 {
            Seq::<char>::empty()
        } else {
            seq!['.'] + units_text(tail)
        });
        let first = Seq::<UnitView>::empty().push(read_back(u));
        lemma_parse_rest(s, end, tail, first);
        assert(first + all_read_back(tail) =~= all_read_back(units));
    }
}

/// A unit that is read back has the prefix, the atom and the exponent of the
/// unit that was written.
pub proof fn lemma_read_back_same(units: Seq<UnitView>)
    requires
        all_readable(units),
    ensures
        same_units(all_read_back(units), units),
{
    assert forall|i: int| 0 <= i < units.len() implies same_key(
        #[trigger] all_read_back(units)[i],
        units[i],
    ) && all_read_back(units)[i].exp == units[i].exp by {
        let u = units[i];
        assert(readable(u));
        let sym = symbol(u);
        assert(sym.take(u.prefix.len() as int) =~= u.prefix);
        assert(sym.skip(u.prefix.len() as int) =~= u.atom);
    }
}

/// Holding the same units, annotations aside, goes over from one pair of
/// lists to the next.
pub proof fn lemma_same_units_transitive(a: Seq<UnitView>, b: Seq<UnitView>, c: Seq<UnitView>)
    requires
        same_units(a, b),
        same_units(b, c),
    ensures
        same_units(a, c),
{
    assert forall|i: int| 0 <= i < a.len() implies same_key(#[trigger] a[i], c[i]) && a[i].exp
        == c[i].exp by {
        assert(same_key(a[i], b[i]));
        assert(same_key(b[i], c[i]));
    }
}

/// A list of units in normal form, written out and read again, gives the
/// same units, annotations aside, and the magnitude one. Every unit of the
/// list must be one that is read back as it is written.
pub proof fn law_read_back(units: Seq<UnitView>)
    requires
        normalized(units),
        all_readable(units),
    ensures
        term_of(units_text(units)) matches Ok(r) && r.mag == mag_one() && same_units(
            r.units,
            units,
        ),
{
    lemma_parse_text(units);
    let back = all_read_back(units);
    lemma_read_back_same(units);
    assert forall|k: UnitView| #[trigger]
        crate::normal::exp_sum(back, k) == crate::normal::exp_sum(units, k) by {
        lemma_same_units_sum(back, units, k);
    }
    lemma_normalize_by_sums(back, units);
    lemma_normalize_idempotent(units);
    lemma_same_units_transitive(normalize(back)->Ok_0, normalize(units)->Ok_0, units);
}

/// A unit that is read from a text has an empty symbol or is read back as
/// it is written.
pub proof fn lemma_lex_lexed(s: Seq<char>, i: int)
    requires
        0 <= i,
    ensures
        lex(s, i) matches Lexed::Token(TokenView::Unit(u), _) ==> lexed(u),
    decreases s.len() - i,
{
    if i < s.len() {
        if s[i] == ' ' {
            lemma_lex_lexed(s, i + 1);
        } else if s[i] == '.' || s[i] == '*' || s[i] == '/' || is_sign(s[i]) || is_digit(s[i])
            || is_stray(s[i]) {
        } else {
            lemma_symbol_end_chars(s, i);
            let j = symbol_end(s, i);
            let name = s.subrange(i, j);
            match lex(s, i) {
                Lexed::Token(TokenView::Unit(u), _) => {
                    let k = prefix_len(name);
                    assert(0 <= k <= name.len());
                    assert(symbol(u) =~= name);
                    assert(u.prefix.len() == k);
                    if name.len() > 0 {
                        assert(name[0] == s[i]);
                        assert forall|x: int| 0 <= x < name.len() implies !ends_symbol(
                            #[trigger] symbol(u)[x],
                        ) by {
                            assert(name[x] == s[i + x]);
                        }
                    }
                },
                _ => {},
            }
        }
    }
}

/// A unit that a step gives has an empty symbol or is read back as it is
/// written.
pub proof fn lemma_step_lexed(s: Seq<char>, i: int, mag: MagView)
    requires
        0 <= i,
    ensures
        step(s, i, mag) matches Step::Unit(u, _, _) ==> lexed(u),
    decreases s.len() - i,
{
    lemma_lex_advances(s, i);
    lemma_lex_lexed(s, i);
    match lex(s, i) {
        Lexed::Token(t, p) => {
            match t {
                TokenView::Mul => {
                    lemma_step_lexed(s, p, mag);
                },
                TokenView::Unit(u) => {},
                TokenView::Int(v) => {
                    match mag_mul(mag, mag_int(v)) {
                        Some(m) => {
                            lemma_step_lexed(s, p, m);
                        },
                        None => {},
                    }
                },
                TokenView::Div => {
                    lemma_lex_advances(s, p);
                    lemma_lex_lexed(s, p);
                    match lex(s, p) {
                        Lexed::Token(TokenView::Int(v), q) => {
                            match mag_div(mag, mag_int(v)) {
                                Some(m) => {
                                    lemma_step_lexed(s, q, m);
                                },
                                None => {},
                            }
                        },
                        Lexed::Token(TokenView::Unit(u), q) => {
                            assert(symbol(crate::unit::inverted(u)) == symbol(u));
                        },
                        _ => {},
                    }
                },
            }
        },
        _ => {},
    }
}

/// The units that reading a text gives all have an empty symbol or are read
/// back as they are written.
pub proof fn lemma_parse_lexed(s: Seq<char>, i: int, mag: MagView, acc: Seq<UnitView>)
    requires
        0 <= i,
        all_lexed(acc),
    ensures
        parse_from(s, i, mag, acc) matches Ok(p) ==> all_lexed(p.units),
    decreases s.len() - i,
{
    lemma_step_advances(s, i, mag);
    lemma_step_lexed(s, i, mag);
    match step(s, i, mag) {
        Step::Unit(u, p, m) => {
            assert forall|k: int| 0 <= k < acc.push(u).len() implies lexed(
                #[trigger] acc.push(u)[k],
            ) by {
                if k < acc.len() {
                    assert(lexed(acc[k]));
                }
            }
            lemma_parse_lexed(s, p, m, acc.push(u));
        },
        _ => {},
    }
}

/// Writing a unit term out and reading it again gives the term: for every
/// text that is read as a term none of whose units has an empty symbol, the
/// text of that term is read as a term with the same units, annotations
/// aside. The two are equal as unit terms wherever the term can be reduced
/// to base units.
pub proof fn law_round_trip(s: Seq<char>)
    requires
        term_of(s) is Ok,
        forall|i: int|
            0 <= i < term_of(s)->Ok_0.units.len() ==> symbol(
                #[trigger] term_of(s)->Ok_0.units[i],
            ).len() > 0,
    ensures
        ({
            let t = term_of(s)->Ok_0;
            &&& term_of(units_text(t.units)) matches Ok(r) && same_units(r.units, t.units)
            &&& base_units(t.units) is Ok ==> units_equal(term_of(units_text(t.units))->Ok_0.units, t.units)
                == Ok::<bool, Error>(true)
        }),
{
    let t = term_of(s)->Ok_0;
    let parsed = parse_from(s, 0, mag_one(), Seq::empty())->Ok_0;
    lemma_parse_lexed(s, 0, mag_one(), Seq::empty());
    law_normal_form(parsed.units);
    assert(all_readable(t.units)) by {
        assert forall|i: int| 0 <= i < t.units.len() implies readable(#[trigger] t.units[i]) by {
            let n = t.units[i];
            crate::sums::lemma_sorted_sum(t.units, i);
            assert(n.exp == crate::normal::exp_sum(parsed.units, n));
            assert(n.exp != 0);
            crate::sums::lemma_exp_sum_present(parsed.units, n);
            let j = choose|j: int|
                0 <= j < parsed.units.len() && same_key(#[trigger] parsed.units[j], n);
            assert(lexed(parsed.units[j]));
            assert(symbol(parsed.units[j]) == symbol(n));
            assert(symbol(n).len() > 0);
        }
    }
    law_read_back(t.units);
    let r = term_of(units_text(t.units))->Ok_0;
    law_reduction_ignores_annotations(r.units, t.units);
    lemma_same_units_symmetric(r.units, t.units);
    law_reduction_ignores_annotations(t.units, r.units);
}

/// Holding the same units, annotations aside, does not depend on the order
/// of the two lists.
pub proof fn lemma_same_units_symmetric(a: Seq<UnitView>, b: Seq<UnitView>)
    requires
        same_units(a, b),
    ensures
        same_units(b, a),
{
    assert forall|i: int| 0 <= i < b.len() implies same_key(#[trigger] b[i], a[i]) && b[i].exp
        == a[i].exp by {
        assert(same_key(a[i], b[i]));
    }
}

} // verus!
