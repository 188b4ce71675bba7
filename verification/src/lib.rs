//! A procedural level-generation pipeline: composable builder stages that
//! carve a tile grid, pick a starting position, prune unreachable terrain,
//! place an exit, and request entity spawns.

use vstd::prelude::*;

pub mod area_starting_point;
pub mod builder;
pub mod common;
pub mod cull_unreachable;
pub mod distant_exit;
pub mod drunkard;
pub mod geometry;
pub mod map;
pub mod reachability;
pub mod rng;
pub mod room_based_stairs;
pub mod room_corridor_spawner;
pub mod spawner;
pub mod voronoi_spawning;

verus! {

/// When true, every stage records a snapshot of the grid in the build
/// context's history list for step-by-step visualization; when false the
/// history stays empty.
pub const SHOW_MAPGEN_VISUALIZER: bool = false;

/// A precondition of the pipeline or of one of its stages was violated.
/// Generation is all-or-nothing: the run aborts on the first such error.
#[derive(Clone, Copy, Debug, PartialEq, Eq, Structural)]
pub enum BuildError {
    /// `start_with` was called twice on the same chain.
    StarterAlreadySet,
    /// `build_map` was called before any starting stage was set.
    NoStartingBuilder,
    /// A stage that seeds the starting position found no floor cell.
    NoFloorTiles,
    /// A stage that needs the starting position ran before one was set.
    NoStartingPosition,
    /// The recorded starting position is out of bounds or not on a floor cell.
    InvalidStartingPosition,
    /// A room-based stage ran although no room list exists or it is empty.
    NoRooms,
    /// The room a stage must use lies outside the grid.
    RoomOutOfBounds,
    /// A corridor-based stage ran although no corridor list exists.
    NoCorridors,
    /// The grid is too small for the excavator's border clamping.
    MapTooSmall,
}

} // verus!
