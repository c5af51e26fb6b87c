//! A single ternary value: -1, 0 or +1.

use vstd::prelude::*;

verus! {

/// Ternary value: -1, 0, or +1.
#[derive(Clone, Copy, Debug, PartialEq, Eq, Structural)]
pub enum Ternary {
    Neg,
    Zero,
    Pos,
}

/// The integer that a ternary value stands for.
pub open spec fn ternary_value(t: Ternary) -> int {
    match t {
        Ternary::Neg => -1,
        Ternary::Zero => 0,
        Ternary::Pos => 1,
    }
}

/// The ternary value that stands for `v`, if there is one.
pub open spec fn ternary_of(v: int) -> Option<Ternary> {
    if v == -1 {
        Some(Ternary::Neg)
    } else if v == 0 {
        Some(Ternary::Zero)
    } else if v == 1 {
        Some(Ternary::Pos)
    } else {
        None
    }
}

impl Ternary {
    /// Converts -1, 0 and 1 to their ternary value; any other integer has none.
    pub fn from_i8(v: i8) -> (r: Option<Self>)
        ensures
            r == ternary_of(v as int),
            r is Some <==> (-1 <= v <= 1),
            r matches Some(t) ==> ternary_value(t) == v,
    {
        match v {
            -1 => Some(Ternary::Neg),
            0 => Some(Ternary::Zero),
            1 => Some(Ternary::Pos),
            _ => None,
        }
    }

    /// The integer this value stands for.
    pub fn to_i8(self) -> (r: i8)
        ensures
            r == ternary_value(self),
    {
        match self {
            Ternary::Neg => -1,
            Ternary::Zero => 0,
            Ternary::Pos => 1,
        }
    }
}

/// Converting a ternary value to its integer and back gives the value again.
pub proof fn lemma_from_to_roundtrip(t: Ternary)
    ensures
        ternary_of(ternary_value(t)) == Some(t),
{
}

/// An integer that has a ternary value is the integer of that value.
pub proof fn lemma_to_from_roundtrip(v: int)
    ensures
        ternary_of(v) matches Some(t) ==> ternary_value(t) == v,
        ternary_of(v) is Some <==> (-1 <= v <= 1),
{
}

} // verus!
