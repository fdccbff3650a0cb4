//! The error reported when an absent wrapper is converted to a primitive.

use vstd::prelude::*;

verus! {

/// The error type returned when a conversion from this crate's optional
/// time types to the standard primitive types finds no value to convert.
///
/// It carries no payload: all instances are equal.
#[derive(Clone, Copy, Debug, PartialEq, Eq, Structural)]
pub struct TryFromTimeError {}

impl TryFromTimeError {
    /// Creates the (only) conversion-error value.
    pub fn new() -> (r: Self)
        ensures
            r == (TryFromTimeError {  }),
    {
        TryFromTimeError {  }
    }

    /// A human-readable description of the error.
    pub fn message(&self) -> (r: &'static str)
        ensures
            r@ == "invalid arithmetic attempted on instants or durations"@,
    {
        "invalid arithmetic attempted on instants or durations"
    }
}

} // verus!
