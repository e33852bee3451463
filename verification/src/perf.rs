//! Fixed-point performance values.
//!
//! A performance value is a non-negative quantity with four decimal digits
//! of precision: `units` counts ten-thousandths. Comparing two values by
//! their `units` gives a deterministic total order, free of the pitfalls of
//! raw floating comparison; the order agrees with the lexicographic order
//! on (whole part, fractional part) pairs. Every value the engine's other
//! modules take or return is such a count of ten-thousandths.

use vstd::prelude::*;

verus! {

/// Number of fixed-point units per whole performance point.
pub const FRAC_UNITS: u64 = 10_000;

/// A performance value, stored as a count of ten-thousandths.
#[derive(Clone, Copy, PartialEq, Eq, Structural, Debug)]
pub struct PerfValue {
    pub units: u64,
}

impl PerfValue {
    /// Builds a value from its whole part and its four-digit fractional part.
    pub fn from_parts(whole: u32, frac: u32) -> (r: PerfValue)
        requires
            frac < FRAC_UNITS,
        ensures
            r.units == whole * FRAC_UNITS + frac,
    {
        PerfValue { units: (whole as u64) * FRAC_UNITS + (frac as u64) }
    }

    /// The whole part of the value.
    pub fn whole(self) -> (r: u64)
        ensures
            r == self.units / FRAC_UNITS,
    {
        self.units / FRAC_UNITS
    }

    /// The four-digit fractional part of the value.
    pub fn frac(self) -> (r: u64)
        ensures
            r == self.units % FRAC_UNITS,
            r < FRAC_UNITS,
    {
        self.units % FRAC_UNITS
    }

    /// Compares two values; the comparison is the order on `units`.
    pub fn le(self, other: PerfValue) -> (r: bool)
        ensures
            r == (self.units <= other.units),
    {
        self.units <= other.units
    }
}

/// Law: keys order as the raw quantities do. Whenever one quantity's
/// four-decimal decomposition is lexicographically at most another's —
/// which holds of any two correctly decomposed raw values `a <= b` —
/// the fixed-point keys built from the decompositions compare the same way.
pub proof fn lemma_key_order_matches_part_order(w1: u32, f1: u32, w2: u32, f2: u32)
    requires
        f1 < FRAC_UNITS,
        f2 < FRAC_UNITS,
    ensures
        (w1 < w2 || (w1 == w2 && f1 <= f2)) <==> w1 * FRAC_UNITS + f1 <= w2 * FRAC_UNITS + f2,
{
    assert((w1 < w2 || (w1 == w2 && f1 <= f2)) <==> w1 * FRAC_UNITS + f1 <= w2 * FRAC_UNITS
        + f2) by (nonlinear_arith)
        requires
            f1 < FRAC_UNITS,
            f2 < FRAC_UNITS,
    ;
}

} // verus!
