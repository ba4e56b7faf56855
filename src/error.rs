//! The error of a MatchSpec that does not parse.
use vstd::prelude::*;

verus! {

/// Why a MatchSpec did not parse: the input left where no alternative of the
/// grammar matched, or the message of a version that does not parse.
#[derive(Debug, PartialEq, Eq, Clone)]
pub struct MatchSpecError {
    pub message: String,
}

impl MatchSpecError {
    /// The message, as `Display` would give it.
    pub fn to_string(&self) -> (r: String)
        ensures
            r@ == self.message@,
    {
        self.message.clone()
    }
}

} // verus!
