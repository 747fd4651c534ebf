//! The composite image of a chunk: every tile shrunk to fit the resolution
//! of a level of detail and laid out as a mosaic.

use vstd::prelude::*;
use vstd::bits::lemma_u32_shr_is_div;
use crate::lod::{lemma_resolution_values, lod_scale, resolution, resolution_at, MAX_LOD};
use crate::tiles::{TileGrid, ROW_LEN, TILES_PER_CHUNK, TILE_SIZE};

verus! {

/// One tile of a mosaic: the square of the image it covers, in pixels, and
/// the palette entry drawn into it.
#[derive(Clone, Copy, Debug, PartialEq, Eq, Structural)]
pub struct TileQuad {
    /// Left edge.
    pub x: u32,
    /// Top edge.
    pub y: u32,
    /// Side of the square.
    pub size: u32,
    /// The palette entry.
    pub tile: u32,
}

/// What an image is: its side in pixels and the quads drawn into it, in the
/// order of the tiles.
pub struct ImageView {
    pub size: nat,
    pub quads: Seq<TileQuad>,
}

/// The composite of one chunk at one level of detail.
#[derive(Debug, Clone, PartialEq, Eq)]
pub struct Image {
    size: u32,
    quads: Vec<TileQuad>,
}

impl View for Image {
    type V = ImageView;

    closed spec fn view(&self) -> ImageView {
        ImageView { size: self.size as nat, quads: self.quads@ }
    }
}

/// Where the tile at `index` is drawn at level `lod`: the corner of its quad.
pub open spec fn tile_pos(index: int, lod: nat) -> (int, int) {
    (
        ((index % ROW_LEN as int) * TILE_SIZE) / lod_scale(lod) as int,
        ((index / ROW_LEN as int) * TILE_SIZE) / lod_scale(lod) as int,
    )
}

/// Side of a tile's quad at level `lod`.
pub open spec fn tile_extent(lod: nat) -> int {
    TILE_SIZE as int / lod_scale(lod) as int
}

/// The quad of the tile at `index`, which holds the palette entry `tile`, at
/// level `lod`.
pub open spec fn quad_at(index: int, tile: u32, lod: nat) -> TileQuad {
    TileQuad {
        x: tile_pos(index, lod).0 as u32,
        y: tile_pos(index, lod).1 as u32,
        size: tile_extent(lod) as u32,
        tile,
    }
}

/// The image that baking `tiles` at level `lod` gives.
pub open spec fn bake_spec(tiles: Seq<u32>, lod: nat) -> ImageView {
    ImageView {
        size: resolution_at(lod),
        quads: Seq::new(tiles.len(), |i: int| quad_at(i, tiles[i], lod)),
    }
}

/// Where the tile at `index` is drawn at level `lod`.
pub fn index_to_pos(index: usize, lod: u32) -> (pos: (u32, u32))
    requires
        index < TILES_PER_CHUNK,
        lod <= MAX_LOD,
    ensures
        pos.0 == tile_pos(index as int, lod as nat).0,
        pos.1 == tile_pos(index as int, lod as nat).1,
{
    let column: u32 = (index % ROW_LEN) as u32;
    let row: u32 = (index / ROW_LEN) as u32;
    proof {
        lemma_u32_shr_is_div((column * TILE_SIZE) as u32, lod);
        lemma_u32_shr_is_div((row * TILE_SIZE) as u32, lod);
    }
    ((column * TILE_SIZE) >> lod, (row * TILE_SIZE) >> lod)
}

/// Side of a tile's quad at level `lod`.
pub fn tile_size_at(lod: u32) -> (side: u32)
    requires
        lod <= MAX_LOD,
    ensures
        side == tile_extent(lod as nat),
        0 < side <= TILE_SIZE,
{
    proof {
        lemma_u32_shr_is_div(TILE_SIZE, lod);
        lemma_tile_extent_values();
    }
    TILE_SIZE >> lod
}

/// Bakes `tiles` at level `lod`: an image of that level's resolution with
/// one quad for every tile, in the order of the tiles.
pub fn bake(tiles: &TileGrid, lod: u32) -> (image: Image)
    requires
        tiles.wf(),
        lod <= MAX_LOD,
    ensures
        image@ == bake_spec(tiles@, lod as nat),
{
    let size: u32 = resolution(lod);
    let extent: u32 = tile_size_at(lod);
    let mut quads: Vec<TileQuad> = Vec::with_capacity(TILES_PER_CHUNK);
    let mut i: usize = 0;
    while i < TILES_PER_CHUNK
        invariant
            i <= TILES_PER_CHUNK,
            tiles.wf(),
            lod <= MAX_LOD,
            extent == tile_extent(lod as nat),
            quads.len() == i,
            forall|j: int| 0 <= j < i ==> quads[j] == quad_at(j, tiles@[j], lod as nat),
        decreases TILES_PER_CHUNK - i,
    {
        let pos: (u32, u32) = index_to_pos(i, lod);
        quads.push(TileQuad { x: pos.0, y: pos.1, size: extent, tile: tiles.get(i) });
        i += 1;
    }
    let image = Image { size, quads };
    assert(image@.quads =~= bake_spec(tiles@, lod as nat).quads);
    image
}

impl Image {
    /// Side of the image, in pixels.
    pub fn size(&self) -> (side: u32)
        ensures
            side == self@.size,
    {
        self.size
    }

    /// The quads of the mosaic, in the order of the tiles.
    pub fn quads(&self) -> (quads: &Vec<TileQuad>)
        ensures
            quads@ == self@.quads,
    {
        &self.quads
    }
}

/// Side of a tile's quad at every valid level: it starts at `TILE_SIZE` and
/// halves with every level.
pub proof fn lemma_tile_extent_values()
    ensures
        tile_extent(0) == 32,
        tile_extent(1) == 16,
        tile_extent(2) == 8,
        tile_extent(3) == 4,
        tile_extent(4) == 2,
{
    lemma_resolution_values();
    assert(tile_extent(0) == 32int / 1);
    assert(tile_extent(1) == 32int / 2);
    assert(tile_extent(2) == 32int / 4);
    assert(tile_extent(3) == 32int / 8);
    assert(tile_extent(4) == 32int / 16);
}

/// The mosaic fits its image exactly: at every valid level the quads are
/// whole squares laid edge to edge, `ROW_LEN` of them span the image, and
/// none reaches beyond it.
pub proof fn lemma_mosaic_fits(index: int, tile: u32, lod: nat)
    requires
        0 <= index < TILES_PER_CHUNK,
        lod <= MAX_LOD,
    ensures
        tile_extent(lod) * ROW_LEN == resolution_at(lod),
        quad_at(index, tile, lod).size == tile_extent(lod),
        quad_at(index, tile, lod).x == (index % ROW_LEN as int) * tile_extent(lod),
        quad_at(index, tile, lod).y == (index / ROW_LEN as int) * tile_extent(lod),
        quad_at(index, tile, lod).x + tile_extent(lod) <= resolution_at(lod),
        quad_at(index, tile, lod).y + tile_extent(lod) <= resolution_at(lod),
{
    lemma_resolution_values();
    let column = index % ROW_LEN as int;
    let row = index / ROW_LEN as int;
    assert(0 <= column < 16 && 0 <= row < 16);
    if lod == 0 {
        assert(tile_extent(lod) == 32int / 1);
        assert(tile_pos(index, lod).0 == (column * 32) / 1);
        assert(tile_pos(index, lod).1 == (row * 32) / 1);
    } else if lod == 1 {
        assert(tile_extent(lod) == 32int / 2);
        assert(tile_pos(index, lod).0 == (column * 32) / 2);
        assert(tile_pos(index, lod).1 == (row * 32) / 2);
    } else if lod == 2 {
        assert(tile_extent(lod) == 32int / 4);
        assert(tile_pos(index, lod).0 == (column * 32) / 4);
        assert(tile_pos(index, lod).1 == (row * 32) / 4);
    } else if lod == 3 {
        assert(tile_extent(lod) == 32int / 8);
        assert(tile_pos(index, lod).0 == (column * 32) / 8);
        assert(tile_pos(index, lod).1 == (row * 32) / 8);
    } else {
        assert(tile_extent(lod) == 32int / 16);
        assert(tile_pos(index, lod).0 == (column * 32) / 16);
        assert(tile_pos(index, lod).1 == (row * 32) / 16);
    }
}

/// A coarser level never gives the larger image: baked from the same tiles,
/// the image of level `fine` is at least as large as that of a level
/// `coarse` above it.
pub proof fn lemma_bake_resolution_monotonic(tiles: Seq<u32>, fine: nat, coarse: nat)
    requires
        fine < coarse,
    ensures
        bake_spec(tiles, fine).size >= bake_spec(tiles, coarse).size,
        bake_spec(tiles, fine).quads.len() == bake_spec(tiles, coarse).quads.len(),
{
    crate::lod::lemma_resolution_monotonic(fine, coarse);
}

} // verus!
