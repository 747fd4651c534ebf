//! The viewer, as far as the levels of detail care: the chunk it last
//! settled in, and the rule that decides when a move is worth a new round
//! of desired levels.

use vstd::prelude::*;
use crate::chunk::{world_to_coord, Chunk};

verus! {

/// A viewer moving at this speed or faster, in world units per frame,
/// triggers no new desired levels: a quarter of a chunk's side.
pub const SPEED_LIMIT: usize = 64;

/// The chunk a viewer starts out in before it has been seen anywhere.
pub const START_COORDS: (usize, usize) = (1, 1);

/// Tracks the chunk the viewer stands in.
#[derive(Debug, PartialEq, Eq)]
pub struct Viewer {
    column: usize,
    row: usize,
}

/// The chunk that holds the world position `(x, y)`.
pub open spec fn chunk_of(x: isize, y: isize) -> (usize, usize) {
    (world_to_coord(x as int) as usize, world_to_coord(y as int) as usize)
}

/// Whether a viewer last seen in `last`, now at `(x, y)` and moving at
/// `speed`, has settled in a new chunk: the chunk differs, and the speed is
/// below the limit.
pub open spec fn settles_in_new_chunk(last: (usize, usize), x: isize, y: isize, speed: usize) -> bool {
    last != chunk_of(x, y) && speed < SPEED_LIMIT
}

impl Viewer {
    /// The chunk the viewer was last seen to settle in.
    pub closed spec fn last(&self) -> (usize, usize) {
        (self.column, self.row)
    }

    /// A viewer that has not been seen yet. Where the start of the viewer is
    /// known, `at` is the constructor to use.
    pub fn new() -> (viewer: Viewer)
        ensures
            viewer.last() == START_COORDS,
    {
        Viewer { column: 1, row: 1 }
    }

    /// A viewer that starts out at the world position `(x, y)`: it has
    /// settled in the chunk that holds that position.
    pub fn at(x: isize, y: isize) -> (viewer: Viewer)
        ensures
            viewer.last() == chunk_of(x, y),
    {
        let coords: (usize, usize) = Chunk::pos_to_coords(x, y);
        Viewer { column: coords.0, row: coords.1 }
    }

    /// The chunk the viewer was last seen to settle in.
    pub fn last_coords(&self) -> (coords: (usize, usize))
        ensures
            coords == self.last(),
    {
        (self.column, self.row)
    }

    /// Takes note of the viewer at world position `(x, y)`, moving at
    /// `speed` world units per frame. Says whether the viewer has settled in
    /// a new chunk, and remembers that chunk if so; a viewer that rushes
    /// through stays where it was last seen.
    pub fn check_chunk_change(&mut self, x: isize, y: isize, speed: usize) -> (moved: bool)
        ensures
            moved == settles_in_new_chunk(old(self).last(), x, y, speed),
            moved ==> final(self).last() == chunk_of(x, y),
            !moved ==> final(self).last() == old(self).last(),
    {
        let coords: (usize, usize) = Chunk::pos_to_coords(x, y);
        if (self.column != coords.0 || self.row != coords.1) && speed < SPEED_LIMIT {
            self.column = coords.0;
            self.row = coords.1;
            return true;
        }
        false
    }
}

} // verus!
