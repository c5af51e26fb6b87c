//! A vector of ternary readings, such as one reading from each sensor of an array.

use vstd::prelude::*;

use crate::ternary::Ternary;

verus! {

/// Ternary observation: a vector of ternary values.
#[derive(Clone, Debug, PartialEq, Eq)]
pub struct TernaryObservation {
    pub values: Vec<Ternary>,
}

impl View for TernaryObservation {
    type V = Seq<Ternary>;

    open spec fn view(&self) -> Seq<Ternary> {
        self.values@
    }
}

impl TernaryObservation {
    /// Wraps a vector of ternary values.
    pub fn new(values: Vec<Ternary>) -> (r: Self)
        ensures
            r@ == values@,
    {
        TernaryObservation { values }
    }

    /// Number of readings.
    pub fn len(&self) -> (r: usize)
        ensures
            r == self@.len(),
    {
        self.values.len()
    }

    /// Whether there are no readings.
    pub fn is_empty(&self) -> (r: bool)
        ensures
            r <==> self@.len() == 0,
    {
        self.values.is_empty()
    }
}

} // verus!
