//! What `==` means on unit terms and on quantities.

use crate::expression::{term_or_empty, Quantity, QuantityView};
use crate::magnitude::mag_mul;
use crate::normal::same_units;
use crate::term::{reduced, units_equal, UnitTerm};
use vstd::prelude::*;
use vstd::std_specs::cmp::PartialEqSpecImpl;

verus! {

/// Whether two quantities are equal: their terms reduce to the same base
/// units, and their magnitudes, each times the magnitude of its reduced
/// term, are the same. Where a reduction or a product fails, they are not
/// equal.
pub open spec fn quantities_equal(a: QuantityView, b: QuantityView) -> bool {
    match (reduced(term_or_empty(a.term)), reduced(term_or_empty(b.term))) {
        (Ok(x), Ok(y)) => same_units(x.units, y.units) && match (
            mag_mul(a.mag, x.mag),
            mag_mul(b.mag, y.mag),
        ) {
            (Some(m), Some(n)) => m == n,
            _ => false,
        },
        _ => false,
    }
}

impl PartialEq for UnitTerm {
    /// Two unit terms are equal when they have the same base units. Where
    /// the reduction of one of them fails, they are not equal.
    fn eq(&self, other: &Self) -> (r: bool) {
        match self.equals(other) {
            Ok(same) => same,
            Err(_) => false,
        }
    }
}

impl PartialEqSpecImpl for UnitTerm {
    open spec fn obeys_eq_spec() -> bool {
        true
    }

    open spec fn eq_spec(&self, other: &Self) -> bool {
        units_equal(self@.units, other@.units) == Ok::<bool, crate::error::Error>(true)
    }
}

impl PartialEq for Quantity {
    fn eq(&self, other: &Self) -> (r: bool) {
        let x = match crate::expression::term_or_unit(&self.term).reduce() {
            Ok(x) => x,
            Err(_) => {
                return false;
            },
        };
        let y = match crate::expression::term_or_unit(&other.term).reduce() {
            Ok(y) => y,
            Err(_) => {
                return false;
            },
        };
        if !crate::term::same_unit_lists(&x.units, &y.units) {
            return false;
        }
        match (self.mag.checked_mul(&x.mag), other.mag.checked_mul(&y.mag)) {
            (Some(m), Some(n)) => m.same(&n),
            _ => false,
        }
    }
}

impl PartialEqSpecImpl for Quantity {
    open spec fn obeys_eq_spec() -> bool {
        true
    }

    open spec fn eq_spec(&self, other: &Self) -> bool {
        quantities_equal(self@, other@)
    }
}

} // verus!
