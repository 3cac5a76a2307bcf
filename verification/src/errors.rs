//! The error taxonomy of the record store.

use vstd::prelude::*;

verus! {

/// Every way a request can fail.  Each failure is reported with its
/// specific kind; no error is folded into a generic one.
#[derive(Clone, Copy, Debug, PartialEq, Eq, Structural)]
pub enum TodoError {
    /// A description longer than the 280-byte cap was supplied.
    DescriptionTooLong,
    /// The caller's identity does not equal the record's owner.
    Unauthorized,
    /// Create targeted a key whose slot is already occupied.
    AddressAlreadyInUse,
    /// A mutation or deletion targeted a key with no record.
    RecordNotFound,
}

impl TodoError {
    /// The failure's wording as reported to callers.
    pub fn message(&self) -> (r: &'static str)
        ensures
            r@ == match self {
                TodoError::DescriptionTooLong => "Description must be 280 characters or less"@,
                TodoError::Unauthorized => "Only the owner can modify this todo"@,
                TodoError::AddressAlreadyInUse => "A todo already exists at this address"@,
                TodoError::RecordNotFound => "No todo exists at this address"@,
            },
    {
        match self {
            TodoError::DescriptionTooLong => "Description must be 280 characters or less",
            TodoError::Unauthorized => "Only the owner can modify this todo",
            TodoError::AddressAlreadyInUse => "A todo already exists at this address",
            TodoError::RecordNotFound => "No todo exists at this address",
        }
    }
}

} // verus!
