//! Closed intervals of scalars.

use vstd::prelude::*;
use crate::fixed::{Q_INF, Q_NEG_INF};

verus! {

/// An interval from a start to an end, both inclusive.
#[derive(Debug, Clone, Copy, PartialEq, Eq, Structural)]
pub struct Interval {
    /// The start of the interval.
    pub start: i64,
    /// The end of the interval.
    pub end: i64,
}

pub open spec fn spec_contains(i: Interval, value: i64) -> bool {
    i.start <= value <= i.end
}

impl Interval {
    /// The empty interval: it starts at positive and ends at negative
    /// infinity, so it contains nothing and growing it is a no-op.
    pub fn empty() -> (r: Interval)
        ensures
            r.start == Q_INF,
            r.end == Q_NEG_INF,
    {
        Interval { start: Q_INF, end: Q_NEG_INF }
    }

    /// Checks if the interval contains a value, both ends included.
    pub fn contains(&self, value: i64) -> (r: bool)
        ensures
            r == spec_contains(*self, value),
            r == (self.start <= value && value <= self.end),
    {
        self.start <= value && value <= self.end
    }
}

/// The empty interval contains no value at all.
pub proof fn lemma_empty_contains_nothing(value: i64)
    ensures
        !spec_contains(Interval { start: Q_INF, end: Q_NEG_INF }, value),
{
}

} // verus!
