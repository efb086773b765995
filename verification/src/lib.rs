//! Units of measure in the Unified Code for Units of Measure (UCUM): unit
//! terms such as `kg.m/s2`, their algebra and reduction to base units, and
//! arithmetic on quantities that carry such terms.
//!
//! The code is written like this:
//! - `N = kg.m/s2` (newton)
//! - `[G] = m3.kg-1.s-2` (constant of gravitation)
//! - `[in_i'Hg] = m[Hg].[in_i]/m` (inch of mercury column)
//!
//! That is: `.` for multiplication, `/` for division, and a number right
//! behind a unit for its exponent. Customary units stand in square brackets,
//! and an annotation in curly braces, as in `kg{wet tis.}`, says what no
//! rule looks at.
//!
//! One thing is not as the code has it: `*` is read as a multiplication
//! sign, like `.`, and `^` is not read at all.
//!
//! # Vocabulary
//!
//! - `km` is a *unit*: a *prefix* (`k`) before a *unit atom* (`m`). Only
//!   metric atoms take a prefix.
//! - `kg.m/s2` is a *unit term*. Every `/` inverts the one unit behind it,
//!   so `m/s/s` and `m/s2` are the same term, and `/s` is `s-1`.
//! - `10 kg.m/s2` or `10kg.m/s2` is a *quantity*.
//! - `10 kg.m/s2 / 10 m/s2` is an *expression*. It is taken from left to
//!   right; no operator binds more than another.
//!
//! # Comparing
//!
//! - Two units are equal when they are the same unit.
//! - Two unit terms are equal when they have the same base units, as `N`
//!   and `kg.m/s2` have.
//! - Two unit terms are commensurable when their base units differ in
//!   prefixes at most, as those of `m/s` and `km/s` do.
//! - Two quantities are equal when their terms are equal and their
//!   magnitudes are, each times the factors that the reduction of its term
//!   brings.
//!
//! # Magnitudes
//!
//! Magnitudes are exact fractions of 128-bit integers. What does not fit is
//! a numeric error; nothing is rounded.

pub mod dimension;
pub mod equality;
pub mod error;
pub mod expression;
pub mod forms;
pub mod laws;
pub mod lexer;
pub mod magnitude;
pub mod normal;
pub mod parser;
pub mod roundtrip;
pub mod shapes;
pub mod sums;
pub mod tables;
pub mod term;
pub mod text;
pub mod unit;
