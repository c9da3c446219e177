//! A small swarm simulation: autonomous agents explore a procedurally
//! generated grid, report resource discoveries to a shared claim registry,
//! and harvest them under a deterministic assignment policy.
//!
//! The simulation core is fully verified: terrain generation is a pure
//! function of the seed, every tick keeps agents on passable in-bounds
//! cells, inventories stay within their bound, and collection atomically
//! depletes the cell and releases the claim.

use vstd::prelude::*;

pub mod agent;
pub mod claims;
pub mod grid;
pub mod logbuf;
pub mod world;

verus! {

/// An agent's inventory never exceeds this many resource units.
pub const MAX_INVENTORY: u32 = 5;

/// The log buffer keeps at most this many events; the oldest is evicted.
pub const MAX_LOGS: usize = 10;

} // verus!
