//! Who is announced when a form submission is published.

use vstd::prelude::*;

verus! {

/// A role or user to announce in every published result, carried as the
/// plain numeric identifier the platform assigns it.
#[derive(Debug, Clone, Copy, PartialEq, Eq, Structural)]
pub enum SerializableMention {
    Role(u64),
    User(u64),
}

} // verus!
