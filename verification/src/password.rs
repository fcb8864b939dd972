//! Password records and their mathematical views.

use vstd::prelude::*;
use crate::principal::Principal;

verus! {

/// A stored password record: the secret text, the time it was created or last
/// updated, and the identity that created it.
#[derive(Debug)]
pub struct Password {
    pub value: String,
    pub created_at: u64,
    pub owner: Principal,
}

/// The input shape for create, update and validate calls: the secret text
/// alone, with no metadata.
pub struct PasswordPayload {
    pub value: String,
}

/// What a record is mathematically: its text as a sequence of characters, its
/// timestamp, and its owner's bytes.
#[verifier::ext_equal]
pub ghost struct PasswordView {
    pub value: Seq<char>,
    pub created_at: u64,
    pub owner: Seq<u8>,
}

impl View for Password {
    type V = PasswordView;

    open spec fn view(&self) -> PasswordView {
        PasswordView { value: self.value@, created_at: self.created_at, owner: self.owner@ }
    }
}

impl View for PasswordPayload {
    type V = Seq<char>;

    open spec fn view(&self) -> Seq<char> {
        self.value@
    }
}

impl Clone for Password {
    /// A copy whose view equals this record's.
    fn clone(&self) -> (r: Password)
        ensures
            r@ == self@,
    {
        Password {
            value: self.value.clone(),
            created_at: self.created_at,
            owner: self.owner.clone(),
        }
    }
}

impl Password {
    /// Builds a record from its parts.
    pub fn new(value: String, created_at: u64, owner: Principal) -> (r: Password)
        ensures
            r@ == (PasswordView { value: value@, created_at, owner: owner@ }),
    {
        Password { value, created_at, owner }
    }
}

impl PasswordPayload {
    /// Builds a payload from the secret text.
    pub fn new(value: String) -> (r: PasswordPayload)
        ensures
            r@ == value@,
    {
        PasswordPayload { value }
    }
}

} // verus!
