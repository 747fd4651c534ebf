//! The grid: every chunk of the world in one dense row-major block, the
//! mapping between positions and chunks, the policy that hands each chunk
//! its desired level, and the rectangle of chunks a camera sees.

use vstd::prelude::*;
use vstd::arithmetic::div_mod::{lemma_fundamental_div_mod_converse, lemma_multiply_divide_lt};
use crate::chunk::{fresh_chunk, world_to_coord, Chunk, ChunkView, CHUNK_SIZE};
use crate::lod::{coords_int, desired_lod, desired_lod_at};
use crate::viewer::{chunk_of, settles_in_new_chunk, Viewer};

verus! {

/// A point of the world, in world units.
#[derive(Clone, Copy, Debug, PartialEq, Eq, Structural)]
pub struct WorldPoint {
    pub x: isize,
    pub y: isize,
}

/// The four corners of the screen, taken into the world.
#[derive(Clone, Copy, Debug, PartialEq, Eq, Structural)]
pub struct Viewport {
    pub top_left: WorldPoint,
    pub top_right: WorldPoint,
    pub bottom_left: WorldPoint,
    pub bottom_right: WorldPoint,
}

/// A rectangle of chunks: columns `x_start` up to but not `x_end`, rows
/// `y_start` up to but not `y_end`.
#[derive(Clone, Copy, Debug, PartialEq, Eq, Structural)]
pub struct ChunkRect {
    pub x_start: usize,
    pub y_start: usize,
    pub x_end: usize,
    pub y_end: usize,
}

/// What a grid is: its extent in chunks, and the chunks row by row.
pub struct GridView {
    pub width: usize,
    pub height: usize,
    pub chunks: Seq<ChunkView>,
}

/// The chunks of a world of fixed extent.
#[derive(Debug, PartialEq, Eq)]
pub struct ChunkGrid {
    width: usize,
    height: usize,
    chunks: Vec<Chunk>,
}

impl View for ChunkGrid {
    type V = GridView;

    closed spec fn view(&self) -> GridView {
        GridView {
            width: self.width,
            height: self.height,
            chunks: self.chunks@.map_values(|c: Chunk| c@),
        }
    }
}

/// An extent whose chunks can be counted and whose far edge lies within the
/// reach of world positions.
pub open spec fn dims_fit(width: usize, height: usize) -> bool {
    &&& width * height <= usize::MAX
    &&& width * CHUNK_SIZE <= isize::MAX
    &&& height * CHUNK_SIZE <= isize::MAX
}

/// The smallest of four.
pub open spec fn least4(a: int, b: int, c: int, d: int) -> int {
    let ab = if a <= b { a } else { b };
    let cd = if c <= d { c } else { d };
    if ab <= cd { ab } else { cd }
}

/// The greatest of four.
pub open spec fn greatest4(a: int, b: int, c: int, d: int) -> int {
    let ab = if a >= b { a } else { b };
    let cd = if c >= d { c } else { d };
    if ab >= cd { ab } else { cd }
}

/// The chunk once the policy has set its desired level for a viewer in the
/// chunk at `viewer`.
pub open spec fn aimed_at(chunk: ChunkView, viewer: (usize, usize)) -> ChunkView {
    chunk.with_desired(desired_lod_at(coords_int(viewer), coords_int(chunk.coords)) as u32)
}

impl ChunkRect {
    /// Whether the chunk at `(x, y)` lies in the rectangle.
    pub open spec fn contains(self, x: usize, y: usize) -> bool {
        self.x_start <= x < self.x_end && self.y_start <= y < self.y_end
    }

    /// Whether the chunk at `(x, y)` lies in the rectangle.
    pub fn holds(&self, x: usize, y: usize) -> (inside: bool)
        ensures
            inside == self.contains(x, y),
    {
        self.x_start <= x && x < self.x_end && self.y_start <= y && y < self.y_end
    }
}

impl Viewport {
    /// The first column of chunks that a corner falls into.
    pub open spec fn first_column(self) -> int {
        least4(
            world_to_coord(self.top_left.x as int),
            world_to_coord(self.top_right.x as int),
            world_to_coord(self.bottom_left.x as int),
            world_to_coord(self.bottom_right.x as int),
        )
    }

    /// The last column of chunks that a corner falls into.
    pub open spec fn last_column(self) -> int {
        greatest4(
            world_to_coord(self.top_left.x as int),
            world_to_coord(self.top_right.x as int),
            world_to_coord(self.bottom_left.x as int),
            world_to_coord(self.bottom_right.x as int),
        )
    }

    /// The first row of chunks that a corner falls into.
    pub open spec fn first_row(self) -> int {
        least4(
            world_to_coord(self.top_left.y as int),
            world_to_coord(self.top_right.y as int),
            world_to_coord(self.bottom_left.y as int),
            world_to_coord(self.bottom_right.y as int),
        )
    }

    /// The last row of chunks that a corner falls into.
    pub open spec fn last_row(self) -> int {
        greatest4(
            world_to_coord(self.top_left.y as int),
            world_to_coord(self.top_right.y as int),
            world_to_coord(self.bottom_left.y as int),
            world_to_coord(self.bottom_right.y as int),
        )
    }
}

impl GridView {
    /// Where the chunk at `index` stands in the grid.
    pub open spec fn coords_of(self, index: int) -> (usize, usize) {
        ((index % self.width as int) as usize, (index / self.width as int) as usize)
    }

    /// The index of the chunk at `(x, y)`.
    pub open spec fn index_of(self, x: usize, y: usize) -> int {
        x + y * self.width
    }

    /// The invariant of a grid: it holds one well-formed chunk for every
    /// position, row by row, and each chunk knows its position.
    pub open spec fn wf(self) -> bool {
        &&& dims_fit(self.width, self.height)
        &&& self.chunks.len() == self.width * self.height
        &&& forall|i: int|
            0 <= i < self.chunks.len() ==> (#[trigger] self.chunks[i]).wf() && self.chunks[i].coords
                == self.coords_of(i)
    }

    /// The grid once the policy has set every chunk's desired level for a
    /// viewer in the chunk at `viewer`.
    pub open spec fn with_viewer(self, viewer: (usize, usize)) -> GridView {
        GridView {
            chunks: Seq::new(self.chunks.len(), |i: int| aimed_at(self.chunks[i], viewer)),
            ..self
        }
    }

    /// The grid once the chunk at `index` has been asked for `lod`.
    pub open spec fn with_desired(self, index: int, lod: u32) -> GridView {
        GridView { chunks: self.chunks.update(index, self.chunks[index].with_desired(lod)), ..self }
    }

    /// The grid once the chunk at `index` has been rebaked.
    pub open spec fn with_redrawn(self, index: int) -> GridView {
        GridView { chunks: self.chunks.update(index, self.chunks[index].redrawn()), ..self }
    }

    /// The rectangle that holds every chunk of the grid.
    pub open spec fn bounds(self) -> ChunkRect {
        ChunkRect { x_start: 0, y_start: 0, x_end: self.width, y_end: self.height }
    }

    /// The rectangle of chunks a camera with the corners `view` sees: from
    /// the first to the last column and row that a corner falls into, as far
    /// as the grid has them. A camera that looks past the grid sees an empty
    /// rectangle.
    pub open spec fn visible_rect(self, view: Viewport) -> ChunkRect {
        let x_end = if view.last_column() >= self.width {
            self.width as int
        } else {
            view.last_column() + 1
        };
        let y_end = if view.last_row() >= self.height {
            self.height as int
        } else {
            view.last_row() + 1
        };
        ChunkRect {
            x_start: (if view.first_column() > x_end { x_end } else { view.first_column() }) as usize,
            y_start: (if view.first_row() > y_end { y_end } else { view.first_row() }) as usize,
            x_end: x_end as usize,
            y_end: y_end as usize,
        }
    }

    /// Whether the chunk at `(x, y)` is one a camera with the corners `view`
    /// sees: it lies in the grid, and between the chunks that the corners
    /// fall into.
    pub open spec fn visible(self, view: Viewport, x: usize, y: usize) -> bool {
        &&& x < self.width
        &&& y < self.height
        &&& view.first_column() <= x <= view.last_column()
        &&& view.first_row() <= y <= view.last_row()
    }
}

/// The smaller of two.
fn least(a: usize, b: usize) -> (m: usize)
    ensures
        m == (if a <= b { a } else { b }),
{
    if a <= b {
        a
    } else {
        b
    }
}

/// The greater of two.
fn greatest(a: usize, b: usize) -> (m: usize)
    ensures
        m == (if a >= b { a } else { b }),
{
    if a >= b {
        a
    } else {
        b
    }
}

/// The run of columns or rows, clipped to a grid of `limit` of them, that
/// lies between `first` and `last`: its start, and the end it stops before.
fn clip_run(first: usize, last: usize, limit: usize) -> (run: (usize, usize))
    ensures
        run.0 <= run.1 <= limit,
        run.1 == (if last >= limit { limit as int } else { last + 1 }),
        run.0 == (if first > run.1 { run.1 } else { first }),
{
    let end: usize = if last >= limit {
        limit
    } else {
        last + 1
    };
    let start: usize = if first > end {
        end
    } else {
        first
    };
    (start, end)
}

/// In a grid `width` wide, the chunk at `(x, y)` has the index
/// `x + y * width`, and that index leads back to `(x, y)`.
pub proof fn lemma_index_coords(width: int, height: int, x: int, y: int)
    requires
        0 <= x < width,
        0 <= y < height,
    ensures
        0 <= x + y * width < width * height,
        (x + y * width) % width == x,
        (x + y * width) / width == y,
{
    assert(0 <= y * width && y * width + width <= width * height) by (nonlinear_arith)
        requires
            0 <= y < height,
            0 < width,
    ;
    lemma_fundamental_div_mod_converse(x + y * width, width, y, x);
}

/// In a grid `width` wide and `height` high, every index below
/// `width * height` stands for a position inside the grid.
pub proof fn lemma_coords_in_grid(width: int, height: int, index: int)
    requires
        0 <= index < width * height,
        0 <= width,
        0 <= height,
    ensures
        0 < width,
        0 <= index % width < width,
        0 <= index / width < height,
{
    assert(0 < width) by (nonlinear_arith)
        requires
            0 <= index < width * height,
            0 <= width,
    ;
    lemma_multiply_divide_lt(index, width, height);
    assert(0 <= index / width) by (nonlinear_arith)
        requires
            0 <= index,
            0 < width,
    ;
}

impl ChunkGrid {
    /// The invariant of a grid.
    pub open spec fn wf(&self) -> bool {
        self@.wf()
    }

    /// A grid of `width` by `height` chunks, each with tiles drawn at random
    /// and both of its images baked. No viewer is known yet, so every chunk
    /// asks for the level a new chunk asks for; `new_around` sets a world up
    /// for a viewer.
    pub fn new(width: usize, height: usize) -> (grid: ChunkGrid)
        requires
            dims_fit(width, height),
        ensures
            grid.wf(),
            grid@.width == width,
            grid@.height == height,
            forall|i: int|
                0 <= i < grid@.chunks.len() ==> #[trigger] grid@.chunks[i] == fresh_chunk(
                    grid@.coords_of(i).0,
                    grid@.coords_of(i).1,
                    grid@.chunks[i].tiles,
                ),
    {
        let count: usize = width * height;
        let mut chunks: Vec<Chunk> = Vec::with_capacity(count);
        let mut i: usize = 0;
        while i < count
            invariant
                i <= count,
                count == width * height,
                dims_fit(width, height),
                chunks.len() == i,
                forall|j: int|
                    0 <= j < i ==> (#[trigger] chunks[j])@.wf() && chunks[j]@ == fresh_chunk(
                        (j % width as int) as usize,
                        (j / width as int) as usize,
                        chunks[j]@.tiles,
                    ),
            decreases count - i,
        {
            proof {
                lemma_coords_in_grid(width as int, height as int, i as int);
            }
            let x: usize = i % width;
            let y: usize = i / width;
            chunks.push(Chunk::new(x, y));
            i += 1;
        }
        ChunkGrid { width, height, chunks }
    }

    /// Sets a world up for a viewer that starts at the world position
    /// `(x, y)`: a grid of `width` by `height` chunks, each with tiles drawn
    /// at random and both of its images baked, and each asked for the level
    /// the policy gives it for a viewer in the chunk that holds `(x, y)`.
    pub fn new_around(width: usize, height: usize, x: isize, y: isize) -> (grid: ChunkGrid)
        requires
            dims_fit(width, height),
        ensures
            grid.wf(),
            grid@.width == width,
            grid@.height == height,
            forall|i: int|
                0 <= i < grid@.chunks.len() ==> #[trigger] grid@.chunks[i] == aimed_at(
                    fresh_chunk(
                        grid@.coords_of(i).0,
                        grid@.coords_of(i).1,
                        grid@.chunks[i].tiles,
                    ),
                    chunk_of(x, y),
                ),
            forall|i: int|
                0 <= i < grid@.chunks.len() ==> (#[trigger] grid@.chunks[i]).desired_lod
                    == desired_lod_at(
                    coords_int(chunk_of(x, y)),
                    coords_int(grid@.coords_of(i)),
                ),
    {
        let mut grid = ChunkGrid::new(width, height);
        let ghost blank = grid@;
        grid.update_lods(Chunk::pos_to_coords(x, y));
        proof {
            assert forall|i: int| 0 <= i < grid@.chunks.len() implies #[trigger] grid@.chunks[i]
                == aimed_at(
                fresh_chunk(grid@.coords_of(i).0, grid@.coords_of(i).1, grid@.chunks[i].tiles),
                chunk_of(x, y),
            ) by {
                assert(grid@.chunks[i] == aimed_at(blank.chunks[i], chunk_of(x, y)));
                assert(blank.chunks[i] == fresh_chunk(
                    blank.coords_of(i).0,
                    blank.coords_of(i).1,
                    blank.chunks[i].tiles,
                ));
            }
            assert forall|i: int| 0 <= i < grid@.chunks.len() implies (#[trigger] grid@.chunks[i]).desired_lod
                == desired_lod_at(coords_int(chunk_of(x, y)), coords_int(grid@.coords_of(i))) by {
                assert(blank.chunks[i].wf());
                assert(blank.chunks[i].coords == blank.coords_of(i));
            }
        }
        grid
    }

    /// Number of chunks in a row.
    pub fn width(&self) -> (width: usize)
        ensures
            width == self@.width,
    {
        self.width
    }

    /// Number of rows.
    pub fn height(&self) -> (height: usize)
        ensures
            height == self@.height,
    {
        self.height
    }

    /// Number of chunks.
    pub fn len(&self) -> (count: usize)
        ensures
            count == self@.chunks.len(),
    {
        self.chunks.len()
    }

    /// The index of the chunk at `(x, y)`, if the grid has one there.
    pub fn index_of(&self, x: usize, y: usize) -> (index: Option<usize>)
        requires
            self.wf(),
        ensures
            index is Some <==> x < self@.width && y < self@.height,
            index matches Some(i) ==> i == self@.index_of(x, y) && i < self@.chunks.len()
                && self@.coords_of(i as int) == (x, y),
    {
        if x < self.width && y < self.height {
            proof {
                lemma_index_coords(self.width as int, self.height as int, x as int, y as int);
            }
            Some(x + y * self.width)
        } else {
            None
        }
    }

    /// The chunk at `index`, counting row by row, if there is one.
    pub fn get_chunk(&self, index: usize) -> (chunk: Option<&Chunk>)
        ensures
            chunk is Some <==> index < self@.chunks.len(),
            chunk matches Some(c) ==> c@ == self@.chunks[index as int],
    {
        if index < self.chunks.len() {
            Some(&self.chunks[index])
        } else {
            None
        }
    }

    /// The chunk at `index`, counting row by row.
    pub fn chunk(&self, index: usize) -> (chunk: &Chunk)
        requires
            index < self@.chunks.len(),
        ensures
            chunk@ == self@.chunks[index as int],
    {
        &self.chunks[index]
    }

    /// The rectangle that holds every chunk of the grid.
    pub fn bounds(&self) -> (rect: ChunkRect)
        ensures
            rect == self@.bounds(),
    {
        ChunkRect { x_start: 0, y_start: 0, x_end: self.width, y_end: self.height }
    }

    /// The chunk at `(x, y)`, if the grid has one there.
    pub fn get(&self, x: usize, y: usize) -> (chunk: Option<&Chunk>)
        requires
            self.wf(),
        ensures
            chunk is Some <==> x < self@.width && y < self@.height,
            chunk matches Some(c) ==> c@ == self@.chunks[self@.index_of(x, y)] && c@.coords == (
                x,
                y,
            ),
    {
        match self.index_of(x, y) {
            Some(i) => Some(&self.chunks[i]),
            None => None,
        }
    }

    /// Asks the chunk at `index` to move to `lod`, brought into the valid
    /// range. Nothing is rebaked.
    pub fn set_lod(&mut self, index: usize, lod: u32)
        requires
            old(self).wf(),
            index < old(self)@.chunks.len(),
        ensures
            final(self).wf(),
            final(self)@ == old(self)@.with_desired(index as int, lod),
    {
        assert(self@.chunks[index as int].wf());
        self.chunks[index].set_lod(lod);
        assert(self@.chunks =~= old(self)@.with_desired(index as int, lod).chunks);
    }

    /// Rebakes the detail image of the chunk at `index` at its desired
    /// level.
    pub fn redraw(&mut self, index: usize)
        requires
            old(self).wf(),
            index < old(self)@.chunks.len(),
        ensures
            final(self).wf(),
            final(self)@ == old(self)@.with_redrawn(index as int),
    {
        assert(self@.chunks[index as int].wf());
        self.chunks[index].redraw();
        assert(self@.chunks =~= old(self)@.with_redrawn(index as int).chunks);
    }

    /// Hands every chunk the level the policy asks of it for a viewer in the
    /// chunk at `viewer`. Nothing is rebaked.
    pub fn update_lods(&mut self, viewer: (usize, usize))
        requires
            old(self).wf(),
        ensures
            final(self).wf(),
            final(self)@ == old(self)@.with_viewer(viewer),
            forall|i: int|
                0 <= i < final(self)@.chunks.len() ==> (#[trigger] final(self)@.chunks[i]).desired_lod
                    == desired_lod_at(coords_int(viewer), coords_int(old(self)@.chunks[i].coords)),
    {
        let count: usize = self.chunks.len();
        let mut i: usize = 0;
        while i < count
            invariant
                i <= count,
                count == self.chunks.len(),
                count == old(self).chunks.len(),
                self.width == old(self).width,
                self.height == old(self).height,
                old(self).wf(),
                forall|j: int| 0 <= j < i ==> (#[trigger] self.chunks[j])@ == aimed_at(old(self).chunks[j]@, viewer),
                forall|j: int| i <= j < count ==> (#[trigger] self.chunks[j])@ == old(self).chunks[j]@,
            decreases count - i,
        {
            assert(old(self)@.chunks[i as int].wf());
            let coords: (usize, usize) = self.chunks[i].coords();
            let lod: u32 = desired_lod(viewer, coords);
            self.chunks[i].set_lod(lod);
            i += 1;
        }
        assert(self@.chunks =~= old(self)@.with_viewer(viewer).chunks);
        assert forall|i: int| 0 <= i < self@.chunks.len() implies (#[trigger] self@.chunks[i]).wf()
            && self@.chunks[i].coords == self@.coords_of(i) by {
            assert(old(self)@.chunks[i].wf());
        }
    }

    /// Follows the viewer for one frame: it stands at world position
    /// `(x, y)` and moves at `speed` world units per frame. When it has
    /// settled in a new chunk, every chunk is handed its desired level anew;
    /// otherwise nothing changes.
    pub fn update(&mut self, viewer: &mut Viewer, x: isize, y: isize, speed: usize) -> (moved: bool)
        requires
            old(self).wf(),
        ensures
            final(self).wf(),
            moved == settles_in_new_chunk(old(viewer).last(), x, y, speed),
            moved ==> final(viewer).last() == chunk_of(x, y) && final(self)@ == old(self)@.with_viewer(
                chunk_of(x, y),
            ),
            !moved ==> final(viewer).last() == old(viewer).last() && final(self)@ == old(self)@,
    {
        if viewer.check_chunk_change(x, y, speed) {
            self.update_lods(Chunk::pos_to_coords(x, y));
            true
        } else {
            false
        }
    }

    /// The rectangle of chunks a camera sees whose screen corners fall on
    /// `view` in the world, clipped to the grid.
    pub fn visible_rect(&self, view: &Viewport) -> (rect: ChunkRect)
        ensures
            rect == self@.visible_rect(*view),
            rect.x_start <= rect.x_end <= self@.width,
            rect.y_start <= rect.y_end <= self@.height,
            forall|x: usize, y: usize| rect.contains(x, y) <==> self@.visible(*view, x, y),
    {
        let a: (usize, usize) = Chunk::pos_to_coords(view.top_left.x, view.top_left.y);
        let b: (usize, usize) = Chunk::pos_to_coords(view.top_right.x, view.top_right.y);
        let c: (usize, usize) = Chunk::pos_to_coords(view.bottom_left.x, view.bottom_left.y);
        let d: (usize, usize) = Chunk::pos_to_coords(view.bottom_right.x, view.bottom_right.y);
        let columns: (usize, usize) = clip_run(
            least(least(a.0, b.0), least(c.0, d.0)),
            greatest(greatest(a.0, b.0), greatest(c.0, d.0)),
            self.width,
        );
        let rows: (usize, usize) = clip_run(
            least(least(a.1, b.1), least(c.1, d.1)),
            greatest(greatest(a.1, b.1), greatest(c.1, d.1)),
            self.height,
        );
        ChunkRect { x_start: columns.0, y_start: rows.0, x_end: columns.1, y_end: rows.1 }
    }
}

} // verus!
