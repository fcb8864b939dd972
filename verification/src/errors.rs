//! The error values the store and the validator return.

use vstd::prelude::*;

verus! {

/// Why a store operation failed: the id is absent, or the caller is not the
/// record's owner. Both are recoverable result values, never aborts.
#[derive(Clone, Copy, Debug, PartialEq, Eq, Structural)]
pub enum Error {
    NotFound,
    Unauthorized,
}

/// The first strength rule a candidate password violated, in the order the
/// validator checks them.
#[derive(Clone, Copy, Debug, PartialEq, Eq, Structural)]
pub enum ValidationError {
    TooShort,
    NoUppercase,
    NoLowercase,
    NoDigit,
    NoSpecial,
}

} // verus!
