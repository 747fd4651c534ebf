//! The tiles of one chunk: a fixed block of palette indices in row-major
//! order, set once and never changed.

use vstd::prelude::*;

verus! {

/// Tiles in one row of a chunk.
pub const ROW_LEN: usize = 16;

/// Tiles in a chunk: `ROW_LEN` rows of `ROW_LEN` tiles.
pub const TILES_PER_CHUNK: usize = 256;

/// Side, in pixels, of one tile at level 0.
pub const TILE_SIZE: u32 = 32;

/// Number of entries in the tile palette. A tile is an index below it.
pub const TILE_KINDS: u32 = 6;

/// Cells in one row of the palette image.
pub const PALETTE_COLUMNS: u32 = 16;

/// A full block of tiles, every one of them an entry of the palette.
pub open spec fn valid_tiles(tiles: Seq<u32>) -> bool {
    &&& tiles.len() == TILES_PER_CHUNK
    &&& forall|i: int| 0 <= i < tiles.len() ==> tiles[i] < TILE_KINDS
}

/// The tile a random word stands for.
pub open spec fn tile_of_word(word: u32) -> u32 {
    word % TILE_KINDS
}

/// The tiles of one chunk, in row-major order.
#[derive(Debug, Clone, PartialEq, Eq)]
pub struct TileGrid {
    tiles: Vec<u32>,
}

impl View for TileGrid {
    type V = Seq<u32>;

    closed spec fn view(&self) -> Seq<u32> {
        self.tiles@
    }
}

/// One word from the thread-local generator of the `rand` crate, reached
/// through `notan::random`: a call of `rand::random` for a `u32`. Nothing is
/// claimed of the word; whatever is built on it holds for every value.
#[verifier::external_body]
fn random_word() -> (word: u32) {
    notan::random::rand::random::<u32>()
}

/// Turns a random word into a tile of the palette.
pub fn tile_from_word(word: u32) -> (tile: u32)
    ensures
        tile == tile_of_word(word),
        tile < TILE_KINDS,
{
    word % TILE_KINDS
}

/// Where the palette image holds the picture of `tile`: the top-left corner
/// of its cell, in pixels. The cells are `TILE_SIZE` wide and start at the
/// left edge of the top row.
pub fn palette_cell(tile: u32) -> (origin: (u32, u32))
    requires
        tile < TILE_KINDS,
    ensures
        origin.0 == tile * TILE_SIZE,
        origin.1 == 0,
{
    ((tile % PALETTE_COLUMNS) * TILE_SIZE, tile / PALETTE_COLUMNS)
}

impl TileGrid {
    /// The invariant of the type: a full block of palette entries.
    pub open spec fn wf(&self) -> bool {
        valid_tiles(self@)
    }

    /// Takes `tiles` as the tiles of a chunk, if they are a full block of
    /// palette entries, and refuses them otherwise.
    pub fn from_vec(tiles: Vec<u32>) -> (grid: Option<TileGrid>)
        ensures
            grid is Some <==> valid_tiles(tiles@),
            grid matches Some(g) ==> g@ == tiles@ && g.wf(),
    {
        if tiles.len() != TILES_PER_CHUNK {
            return None;
        }
        let mut i: usize = 0;
        while i < TILES_PER_CHUNK
            invariant
                i <= TILES_PER_CHUNK,
                tiles.len() == TILES_PER_CHUNK,
                forall|j: int| 0 <= j < i ==> tiles[j] < TILE_KINDS,
            decreases TILES_PER_CHUNK - i,
        {
            if tiles[i] >= TILE_KINDS {
                return None;
            }
            i += 1;
        }
        Some(TileGrid { tiles })
    }

    /// A block of tiles drawn at random from the palette.
    pub fn random() -> (grid: TileGrid)
        ensures
            grid.wf(),
    {
        let mut tiles: Vec<u32> = Vec::with_capacity(TILES_PER_CHUNK);
        let mut i: usize = 0;
        while i < TILES_PER_CHUNK
            invariant
                i <= TILES_PER_CHUNK,
                tiles.len() == i,
                forall|j: int| 0 <= j < i ==> tiles[j] < TILE_KINDS,
            decreases TILES_PER_CHUNK - i,
        {
            tiles.push(tile_from_word(random_word()));
            i += 1;
        }
        TileGrid { tiles }
    }

    /// The tile at `index`, counting row by row.
    pub fn get(&self, index: usize) -> (tile: u32)
        requires
            self.wf(),
            index < TILES_PER_CHUNK,
        ensures
            tile == self@[index as int],
            tile < TILE_KINDS,
    {
        self.tiles[index]
    }

    /// All tiles, in row-major order.
    pub fn as_vec(&self) -> (tiles: &Vec<u32>)
        ensures
            tiles@ == self@,
    {
        &self.tiles
    }
}

} // verus!
