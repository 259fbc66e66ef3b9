//! The one error of this crate.

use vstd::prelude::*;

verus! {

/// Error for an invalid chance: a chance less than zero, greater than one, or NaN.
#[derive(Debug, Clone, PartialEq, Eq, Hash, Structural)]
pub struct InvalidChance;

impl InvalidChance {
    /// What the error says to a reader.
    pub fn message(&self) -> (text: String)
        ensures
            text@ == "chance must be between 0.0 and 1.0"@,
    {
        "chance must be between 0.0 and 1.0".to_owned()
    }
}

} // verus!
