pub mod chat;
pub mod model;
pub mod codec;
pub mod registry;

use vstd::prelude::*;

verus! {

/// Number of seconds after which a peer that has not re-announced itself is
/// treated as offline by registry reads.
pub const FRESHNESS_WINDOW_SECS: i64 = 30;

} // verus!
