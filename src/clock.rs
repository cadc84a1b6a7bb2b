//! Units of time. Instants are read by the caller and handed in.

use vstd::prelude::*;

verus! {

/// Milliseconds in one day.
pub const DAY_MS: i64 = 86_400_000;

} // verus!
