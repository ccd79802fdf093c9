//! Strongly-typed identifiers.

use vstd::prelude::*;

verus! {

/// Relies on uuid::Uuid::new_v4: a fresh random version-4 UUID, taken as
/// its 128-bit value. Nothing can be promised of a random value.
#[verifier::external_body]
fn random_uuid_value() -> (r: u128) {
    uuid::Uuid::new_v4().as_u128()
}

/// Relies on uuid::Uuid::new_v4 and its hyphenated Display form: a fresh
/// random UUID rendered as its 36-character lowercase hyphenated text.
#[verifier::external_body]
pub fn new_uuid_string() -> (r: String)
    ensures
        r@.len() == 36,
{
    uuid::Uuid::new_v4().to_string()
}

/// Identifier of one terminal session, carrying the 128 bits of a UUID.
#[derive(Debug, Clone, Copy, PartialEq, Eq, Hash, Structural)]
pub struct TerminalId {
    pub value: u128,
}

impl TerminalId {
    /// A fresh random identifier.
    pub fn new() -> Self {
        TerminalId { value: random_uuid_value() }
    }

    /// The identifier holding the given UUID value.
    pub fn from_value(value: u128) -> (r: Self)
        ensures
            r.value == value,
    {
        TerminalId { value }
    }

    /// The raw 128-bit UUID value.
    pub fn as_value(&self) -> (r: u128)
        ensures
            r == self.value,
    {
        self.value
    }
}

impl Default for TerminalId {
    fn default() -> Self {
        Self::new()
    }
}

} // verus!
