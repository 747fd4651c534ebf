//! One chunk of the world: its tiles, the composite cached for its active
//! level of detail, the permanent coarse fallback, and the level it has been
//! asked to move to.

use vstd::prelude::*;
use crate::image::{bake, bake_spec, Image, ImageView};
use crate::lod::{
    clamp_level, clamp_lod, lemma_resolution_values, resolution_at, FALLBACK_LOD, FAR_LOD,
    INITIAL_DESIRED_LOD, INITIAL_LOD, MAX_LOD,
};
use crate::tiles::{valid_tiles, TileGrid};

verus! {

/// Side of a chunk, in world units.
pub const CHUNK_SIZE: usize = 256;

/// What to draw for a chunk in one frame. Positions and sizes are in world
/// units; every command but `Culled` stands for exactly one quad.
#[derive(Clone, Copy, Debug, PartialEq, Eq, Structural)]
pub enum DrawCommand {
    /// The chunk is off screen: nothing is drawn.
    Culled,
    /// A flat rectangle over the chunk's footprint, tinted by the active
    /// level and by the side of the detail image.
    DebugRect { x: isize, y: isize, size: usize, lod: u32, image_size: u32 },
    /// The fallback image, stretched over the chunk's footprint.
    Fallback { x: isize, y: isize, size: usize },
    /// The detail image, stretched over the chunk's footprint.
    Detail { x: isize, y: isize, size: usize },
}

/// What a chunk is.
pub struct ChunkView {
    /// Position in the grid.
    pub coords: (usize, usize),
    /// The tiles, in row-major order.
    pub tiles: Seq<u32>,
    /// The level the detail image was baked at.
    pub active_lod: u32,
    /// The level the chunk should be at.
    pub desired_lod: u32,
    /// The composite at the active level.
    pub detail: ImageView,
    /// The permanent coarse composite.
    pub fallback: ImageView,
}

/// A chunk of the world.
#[derive(Debug, PartialEq, Eq)]
pub struct Chunk {
    coords: (usize, usize),
    tiles: TileGrid,
    detail: Image,
    fallback: Image,
    desired_lod: u32,
    active_lod: u32,
}

impl View for Chunk {
    type V = ChunkView;

    closed spec fn view(&self) -> ChunkView {
        ChunkView {
            coords: self.coords,
            tiles: self.tiles@,
            active_lod: self.active_lod,
            desired_lod: self.desired_lod,
            detail: self.detail@,
            fallback: self.fallback@,
        }
    }
}

/// A grid coordinate whose chunk lies within the reach of world positions.
pub open spec fn coord_fits(c: usize) -> bool {
    (c + 1) * CHUNK_SIZE <= isize::MAX
}

/// The grid coordinate of a world coordinate. Everything left of or above
/// the world counts as its first column or row.
pub open spec fn world_to_coord(w: int) -> int {
    if w < 0 {
        0
    } else {
        w / CHUNK_SIZE as int
    }
}

/// Whether a chunk is entirely off screen, told from where the two corners
/// of its footprint fall on screen: `near` the top-left one, `far` the
/// bottom-right one. `viewport` is the extent of the screen.
pub open spec fn off_screen(near: (i64, i64), far: (i64, i64), viewport: (i64, i64)) -> bool {
    (far.0 < 0 && far.1 < 0) || near.0 > viewport.0 || near.1 > viewport.1
}

impl ChunkView {
    /// What holds of every chunk, whatever its fallback image: its tiles are
    /// a full block, both levels are valid, and the detail image is the
    /// composite of the tiles at the active level.
    pub open spec fn inv(self) -> bool {
        &&& valid_tiles(self.tiles)
        &&& coord_fits(self.coords.0)
        &&& coord_fits(self.coords.1)
        &&& self.active_lod <= MAX_LOD
        &&& self.desired_lod <= MAX_LOD
        &&& self.detail == bake_spec(self.tiles, self.active_lod as nat)
    }

    /// The invariant of a finished chunk: `inv`, and the fallback image is
    /// the composite of the tiles at the coarsest level.
    pub open spec fn wf(self) -> bool {
        &&& self.inv()
        &&& self.fallback == bake_spec(self.tiles, FALLBACK_LOD as nat)
    }

    /// Whether the detail image is out of date.
    pub open spec fn needs_redraw(self) -> bool {
        self.active_lod != self.desired_lod
    }

    /// The chunk once it has been asked for `level`.
    pub open spec fn with_desired(self, level: u32) -> ChunkView {
        ChunkView { desired_lod: clamp_lod(level as int) as u32, ..self }
    }

    /// The chunk once its detail image has been rebaked at the desired level.
    pub open spec fn redrawn(self) -> ChunkView {
        ChunkView {
            active_lod: self.desired_lod,
            detail: bake_spec(self.tiles, self.desired_lod as nat),
            ..self
        }
    }

    /// The chunk once its fallback image has been baked.
    pub open spec fn with_fallback(self) -> ChunkView {
        ChunkView { fallback: bake_spec(self.tiles, FALLBACK_LOD as nat), ..self }
    }

    /// The top-left corner of the chunk's footprint, in world units.
    pub open spec fn origin(self) -> (int, int) {
        (self.coords.0 * CHUNK_SIZE, self.coords.1 * CHUNK_SIZE)
    }

    /// What is drawn for the chunk: nothing when it is off screen; in debug
    /// mode a tinted rectangle; the fallback image when the active level is
    /// beyond `FAR_LOD`; the detail image otherwise.
    pub open spec fn render(
        self,
        near: (i64, i64),
        far: (i64, i64),
        viewport: (i64, i64),
        debug: bool,
    ) -> DrawCommand {
        let x = self.origin().0 as isize;
        let y = self.origin().1 as isize;
        if off_screen(near, far, viewport) {
            DrawCommand::Culled
        } else if debug {
            DrawCommand::DebugRect {
                x,
                y,
                size: CHUNK_SIZE,
                lod: self.active_lod,
                image_size: self.detail.size as u32,
            }
        } else if self.active_lod > FAR_LOD {
            DrawCommand::Fallback { x, y, size: CHUNK_SIZE }
        } else {
            DrawCommand::Detail { x, y, size: CHUNK_SIZE }
        }
    }
}

/// The chunk that `Chunk::with_tiles` makes of `tiles` at `(x, y)`.
pub open spec fn fresh_chunk(x: usize, y: usize, tiles: Seq<u32>) -> ChunkView {
    ChunkView {
        coords: (x, y),
        tiles,
        active_lod: INITIAL_LOD,
        desired_lod: INITIAL_DESIRED_LOD,
        detail: bake_spec(tiles, INITIAL_LOD as nat),
        fallback: bake_spec(tiles, FALLBACK_LOD as nat),
    }
}

/// Whether a chunk is entirely off screen; see `off_screen`.
pub fn is_off_screen(near: (i64, i64), far: (i64, i64), viewport: (i64, i64)) -> (culled: bool)
    ensures
        culled == off_screen(near, far, viewport),
        far.0 < 0 && far.1 < 0 ==> culled,
{
    (far.0 < 0 && far.1 < 0) || near.0 > viewport.0 || near.1 > viewport.1
}

impl Chunk {
    /// The invariant of a finished chunk.
    pub open spec fn wf(&self) -> bool {
        self@.wf()
    }

    /// A chunk at `(x, y)` with tiles drawn at random from the palette, a
    /// detail image baked at the coarse starting level and its fallback
    /// image baked.
    pub fn new(x: usize, y: usize) -> (chunk: Chunk)
        requires
            coord_fits(x),
            coord_fits(y),
        ensures
            chunk.wf(),
            chunk@ == fresh_chunk(x, y, chunk@.tiles),
    {
        Chunk::with_tiles(x, y, TileGrid::random())
    }

    /// A chunk at `(x, y)` with the given tiles, a detail image baked at the
    /// coarse starting level and its fallback image baked.
    pub fn with_tiles(x: usize, y: usize, tiles: TileGrid) -> (chunk: Chunk)
        requires
            tiles.wf(),
            coord_fits(x),
            coord_fits(y),
        ensures
            chunk.wf(),
            chunk@ == fresh_chunk(x, y, tiles@),
    {
        let detail = bake(&tiles, INITIAL_LOD);
        let fallback = bake(&tiles, FALLBACK_LOD);
        Chunk {
            coords: (x, y),
            tiles,
            detail,
            fallback,
            desired_lod: INITIAL_DESIRED_LOD,
            active_lod: INITIAL_LOD,
        }
    }

    /// Asks the chunk to move to `lod`, brought into the valid range.
    /// Nothing is rebaked.
    pub fn set_lod(&mut self, lod: u32)
        requires
            old(self).wf(),
        ensures
            final(self).wf(),
            final(self)@ == old(self)@.with_desired(lod),
            final(self)@.desired_lod == clamp_lod(lod as int),
    {
        self.desired_lod = clamp_level(lod);
    }

    /// Bakes the fallback image: the composite of the tiles at the coarsest
    /// level, whatever the active and the desired level are.
    pub fn render_low_res(&mut self)
        requires
            old(self)@.inv(),
        ensures
            final(self).wf(),
            final(self)@ == old(self)@.with_fallback(),
    {
        self.fallback = bake(&self.tiles, FALLBACK_LOD);
    }

    /// The composite of the tiles at the active level, baked anew.
    pub fn render_texture(&self) -> (image: Image)
        requires
            valid_tiles(self@.tiles),
            self@.active_lod <= MAX_LOD,
        ensures
            image@ == bake_spec(self@.tiles, self@.active_lod as nat),
            self@.inv() ==> image@ == self@.detail,
    {
        bake(&self.tiles, self.active_lod)
    }

    /// Whether the detail image is out of date: the active level is not the
    /// desired one.
    pub fn needs_redraw(&self) -> (stale: bool)
        ensures
            stale == self@.needs_redraw(),
    {
        self.active_lod != self.desired_lod
    }

    /// Rebakes the detail image at the desired level, which becomes the
    /// active one. The image it replaces is dropped.
    pub fn redraw(&mut self)
        requires
            old(self).wf(),
        ensures
            final(self).wf(),
            final(self)@ == old(self)@.redrawn(),
            final(self)@.active_lod == final(self)@.desired_lod,
            final(self)@.detail.size == resolution_at(final(self)@.active_lod as nat),
            !final(self)@.needs_redraw(),
    {
        self.active_lod = self.desired_lod;
        self.detail = self.render_texture();
    }

    /// The top-left corner, in world units, of the chunk at `coords`.
    pub fn coords_to_position(coords: (usize, usize)) -> (pos: (isize, isize))
        requires
            coord_fits(coords.0),
            coord_fits(coords.1),
        ensures
            pos.0 == coords.0 * CHUNK_SIZE,
            pos.1 == coords.1 * CHUNK_SIZE,
    {
        ((coords.0 * CHUNK_SIZE) as isize, (coords.1 * CHUNK_SIZE) as isize)
    }

    /// The grid coordinates of the chunk that holds the world position
    /// `(x, y)`. A position left of or above the world is taken into the
    /// first column or row.
    pub fn pos_to_coords(x: isize, y: isize) -> (coords: (usize, usize))
        ensures
            coords.0 == world_to_coord(x as int),
            coords.1 == world_to_coord(y as int),
    {
        let column: usize = if x < 0 {
            0
        } else {
            (x as usize) / CHUNK_SIZE
        };
        let row: usize = if y < 0 {
            0
        } else {
            (y as usize) / CHUNK_SIZE
        };
        (column, row)
    }

    /// Position in the grid.
    pub fn coords(&self) -> (coords: (usize, usize))
        ensures
            coords == self@.coords,
    {
        self.coords
    }

    /// Side of a chunk, in world units.
    pub fn size() -> (side: usize)
        ensures
            side == CHUNK_SIZE,
    {
        CHUNK_SIZE
    }

    /// The level the detail image was baked at.
    pub fn active_lod(&self) -> (lod: u32)
        ensures
            lod == self@.active_lod,
    {
        self.active_lod
    }

    /// The level the chunk should be at.
    pub fn desired_lod(&self) -> (lod: u32)
        ensures
            lod == self@.desired_lod,
    {
        self.desired_lod
    }

    /// The tiles.
    pub fn tiles(&self) -> (tiles: &TileGrid)
        ensures
            tiles@ == self@.tiles,
    {
        &self.tiles
    }

    /// The composite at the active level.
    pub fn detail_image(&self) -> (image: &Image)
        ensures
            image@ == self@.detail,
    {
        &self.detail
    }

    /// The permanent coarse composite.
    pub fn fallback_image(&self) -> (image: &Image)
        ensures
            image@ == self@.fallback,
    {
        &self.fallback
    }

    /// The two corners of the chunk's footprint, in world units: top-left
    /// first, bottom-right second. They are what a camera projects to get
    /// the `near` and `far` of `render`.
    pub fn world_bounds(&self) -> (corners: ((isize, isize), (isize, isize)))
        requires
            self.wf(),
        ensures
            corners.0.0 == self@.origin().0,
            corners.0.1 == self@.origin().1,
            corners.1.0 == self@.origin().0 + CHUNK_SIZE,
            corners.1.1 == self@.origin().1 + CHUNK_SIZE,
    {
        let origin: (isize, isize) = Chunk::coords_to_position(self.coords);
        (origin, (origin.0 + CHUNK_SIZE as isize, origin.1 + CHUNK_SIZE as isize))
    }

    /// Decides what is drawn for the chunk in one frame. `near` and `far`
    /// are where the top-left and the bottom-right corner of its footprint
    /// fall on screen, `viewport` is the extent of the screen. A chunk whose
    /// far corner is negative on both axes, or whose near corner lies beyond
    /// the viewport on either, is culled.
    pub fn render(
        &self,
        near: (i64, i64),
        far: (i64, i64),
        viewport: (i64, i64),
        debug: bool,
    ) -> (command: DrawCommand)
        requires
            self.wf(),
        ensures
            command == self@.render(near, far, viewport, debug),
            command is Culled <==> off_screen(near, far, viewport),
            far.0 < 0 && far.1 < 0 ==> command is Culled,
    {
        if is_off_screen(near, far, viewport) {
            return DrawCommand::Culled;
        }
        let origin: (isize, isize) = Chunk::coords_to_position(self.coords);
        if debug {
            DrawCommand::DebugRect {
                x: origin.0,
                y: origin.1,
                size: CHUNK_SIZE,
                lod: self.active_lod,
                image_size: self.detail.size(),
            }
        } else if self.active_lod > FAR_LOD {
            DrawCommand::Fallback { x: origin.0, y: origin.1, size: CHUNK_SIZE }
        } else {
            DrawCommand::Detail { x: origin.0, y: origin.1, size: CHUNK_SIZE }
        }
    }
}

/// Rebaking twice in a row is rebaking once: with the desired level left
/// alone in between, the second rebake changes neither the active level nor
/// the image.
pub proof fn lemma_redraw_idempotent(chunk: ChunkView)
    ensures
        chunk.redrawn().redrawn() == chunk.redrawn(),
        chunk.redrawn().redrawn().active_lod == chunk.redrawn().active_lod,
        chunk.redrawn().redrawn().detail == chunk.redrawn().detail,
{
}

/// A rebake leaves the active level equal to the desired one and the detail
/// image at the resolution of that level, and touches neither the tiles nor
/// the fallback image.
pub proof fn lemma_redraw_settles(chunk: ChunkView)
    requires
        chunk.wf(),
    ensures
        chunk.redrawn().wf(),
        !chunk.redrawn().needs_redraw(),
        chunk.redrawn().detail.size == resolution_at(chunk.redrawn().active_lod as nat),
        chunk.redrawn().tiles == chunk.tiles,
        chunk.redrawn().fallback == chunk.fallback,
        chunk.redrawn().desired_lod == chunk.desired_lod,
{
}

/// The detail image of every well-formed chunk has the resolution of the
/// active level, and the fallback image that of the coarsest level.
pub proof fn lemma_image_resolutions(chunk: ChunkView)
    requires
        chunk.wf(),
    ensures
        chunk.detail.size == resolution_at(chunk.active_lod as nat),
        chunk.fallback.size == resolution_at(FALLBACK_LOD as nat),
        chunk.fallback.size == 32,
        32 <= chunk.detail.size <= 512,
{
    lemma_resolution_values();
}

} // verus!
