//! Community form definitions with ordering and capacity invariants, a
//! cooldown-gated submission pipeline, and the per-workspace store the two
//! rely on.

pub mod errors;
pub mod field;
pub mod form;
pub mod mention;
pub mod pipeline;
pub mod store;

use vstd::prelude::*;

verus! {

/// Largest number of characters a field label may hold.
pub const LABEL_MAX_LENGTH: usize = 45;

/// Largest number of characters a field placeholder may hold.
pub const PLACEHOLDER_MAX_LENGTH: usize = 100;

/// Largest length of a single field response, used when a field sets no
/// explicit bound of its own.
pub const FIELD_RESPONSE_MAX_LENGTH: u16 = 1024;

} // verus!
