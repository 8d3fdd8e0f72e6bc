//! The ways in which preparing a signed request can fail.

use vstd::prelude::*;

verus! {

/// Why no signed request came out.
#[derive(Clone, Copy, Debug, PartialEq, Eq, Structural)]
pub enum SignError {
    /// The system clock stands before the Unix epoch.
    Clock,
    /// A template parameter is neither a text, a number nor a boolean.
    UnsupportedValueType,
    /// The computation of the authentication code turned the signing key
    /// down.
    SigningKey,
}

impl SignError {
    /// The text of a message for this error.
    pub open spec fn message(self) -> Seq<char> {
        match self {
            SignError::Clock => "system clock is before the Unix epoch"@,
            SignError::UnsupportedValueType => "parameter value is not a string, number or boolean"@,
            SignError::SigningKey => "signing key was rejected"@,
        }
    }

    /// A message for this error.
    pub fn to_string(&self) -> (out: String)
        ensures
            out@ == self.message(),
    {
        match self {
            SignError::Clock => "system clock is before the Unix epoch".to_owned(),
            SignError::UnsupportedValueType => "parameter value is not a string, number or boolean".to_owned(),
            SignError::SigningKey => "signing key was rejected".to_owned(),
        }
    }
}

} // verus!
