//! The redraw scheduler: every tick it rebakes at most one chunk whose
//! detail image is out of date, and it takes up the search where the last
//! tick left it, so that every such chunk gets its turn.

use vstd::prelude::*;
use crate::grid::{lemma_coords_in_grid, ChunkGrid, ChunkRect, GridView};

verus! {

/// Whether an offscreen image could be had for the chunk that is next in
/// line.
#[derive(Clone, Copy, Debug, PartialEq, Eq, Structural)]
pub enum BakeTarget {
    /// An image of the right size is there to bake into.
    Acquired,
    /// None could be allocated.
    Unavailable,
}

/// Picks the chunk to rebake, in round-robin order.
#[derive(Debug, PartialEq, Eq)]
pub struct RedrawScheduler {
    cursor: usize,
}

/// Whether the chunk at `index` is due for a rebake: its detail image is
/// out of date, and it lies in `region`.
pub open spec fn due(grid: GridView, region: ChunkRect, index: int) -> bool {
    &&& 0 <= index < grid.chunks.len()
    &&& grid.chunks[index].needs_redraw()
    &&& region.contains(grid.chunks[index].coords.0, grid.chunks[index].coords.1)
}

/// The indices of the chunks that are due for a rebake.
pub open spec fn due_set(grid: GridView, region: ChunkRect) -> Set<int> {
    Set::new(|i: int| due(grid, region, i))
}

/// Where a search over `count` chunks starts that was left at `cursor`.
pub open spec fn start_of(cursor: usize, count: int) -> int {
    if cursor < count {
        cursor as int
    } else {
        0
    }
}

/// The index that lies at `pos` when counting goes round after `count`.
pub open spec fn wrap(pos: int, count: int) -> int {
    if pos < count {
        pos
    } else {
        pos - count
    }
}

/// The first chunk that is due among those at `start + k`, `start + k + 1`
/// and so on, once round the grid at most.
pub open spec fn first_due(grid: GridView, region: ChunkRect, start: int, k: int) -> Option<usize>
    decreases grid.chunks.len() - k,
{
    if k < 0 || k >= grid.chunks.len() {
        None
    } else if due(grid, region, wrap(start + k, grid.chunks.len() as int)) {
        Some(wrap(start + k, grid.chunks.len() as int) as usize)
    } else {
        first_due(grid, region, start, k + 1)
    }
}

/// The chunk that is next in line: the first that is due, searching from
/// the cursor once round the grid.
pub open spec fn next_due(grid: GridView, region: ChunkRect, cursor: usize) -> Option<usize> {
    first_due(grid, region, start_of(cursor, grid.chunks.len() as int), 0)
}

/// The chunk one tick rebakes: the one next in line, if an image could be
/// had for it.
pub open spec fn serviced(grid: GridView, region: ChunkRect, cursor: usize, target: BakeTarget) -> Option<
    usize,
> {
    match target {
        BakeTarget::Acquired => next_due(grid, region, cursor),
        BakeTarget::Unavailable => None,
    }
}

/// The grid and the cursor after one tick. With a chunk to rebake, that
/// chunk is rebaked and the cursor moves behind it; with none, nothing
/// changes.
pub open spec fn tick_spec(grid: GridView, region: ChunkRect, cursor: usize, target: BakeTarget) -> (
    GridView,
    usize,
) {
    match serviced(grid, region, cursor, target) {
        Some(i) => (grid.with_redrawn(i as int), wrap(i + 1, grid.chunks.len() as int) as usize),
        None => (grid, cursor),
    }
}

/// The grid and the cursor after `n` ticks, an image to bake into being
/// there at every one of them.
pub open spec fn run_ticks(grid: GridView, region: ChunkRect, cursor: usize, n: nat) -> (
    GridView,
    usize,
)
    decreases n,
{
    if n == 0 {
        (grid, cursor)
    } else {
        let next = tick_spec(grid, region, cursor, BakeTarget::Acquired);
        run_ticks(next.0, region, next.1, (n - 1) as nat)
    }
}

/// What a search finds is due, and lies in the grid.
pub proof fn lemma_first_due_is_due(grid: GridView, region: ChunkRect, start: int, k: int)
    requires
        0 <= start < grid.chunks.len() <= usize::MAX,
        0 <= k,
    ensures
        first_due(grid, region, start, k) matches Some(i) ==> due(grid, region, i as int),
    decreases grid.chunks.len() - k,
{
    if k < grid.chunks.len() && !due(grid, region, wrap(start + k, grid.chunks.len() as int)) {
        lemma_first_due_is_due(grid, region, start, k + 1);
    }
}

/// A search that finds nothing has passed no chunk that is due.
pub proof fn lemma_first_due_none(grid: GridView, region: ChunkRect, start: int, k: int, j: int)
    requires
        0 <= start < grid.chunks.len(),
        0 <= k <= j < grid.chunks.len(),
        first_due(grid, region, start, k) is None,
    ensures
        !due(grid, region, wrap(start + j, grid.chunks.len() as int)),
    decreases grid.chunks.len() - k,
{
    if k < j {
        lemma_first_due_none(grid, region, start, k + 1, j);
    }
}

/// A chunk is next in line exactly when some chunk is due: the search
/// leaves none out, wherever the cursor stands.
pub proof fn lemma_next_due_complete(grid: GridView, region: ChunkRect, cursor: usize)
    requires
        grid.chunks.len() <= usize::MAX,
    ensures
        next_due(grid, region, cursor) is None <==> due_set(grid, region) =~= Set::<int>::empty(),
        next_due(grid, region, cursor) matches Some(i) ==> due(grid, region, i as int),
{
    let count = grid.chunks.len() as int;
    let start = start_of(cursor, count);
    if count > 0 {
        lemma_first_due_is_due(grid, region, start, 0);
        if next_due(grid, region, cursor) is None {
            assert forall|i: int| !due(grid, region, i) by {
                if 0 <= i < count {
                    let j = if i >= start {
                        i - start
                    } else {
                        i - start + count
                    };
                    lemma_first_due_none(grid, region, start, 0, j);
                }
            }
        } else {
            let i = next_due(grid, region, cursor)->0;
            assert(due_set(grid, region).contains(i as int));
        }
    }
}

/// How many chunks a search that starts at `start` passes before it comes
/// to the chunk at `index`.
pub open spec fn steps_to(start: int, index: int, count: int) -> int {
    if index >= start {
        index - start
    } else {
        index - start + count
    }
}

/// A search finds the first chunk that is due: no chunk that is due lies
/// before the one it finds.
pub proof fn lemma_first_due_is_first(
    grid: GridView,
    region: ChunkRect,
    start: int,
    k: int,
    index: int,
)
    requires
        0 <= start < grid.chunks.len() <= usize::MAX,
        0 <= k <= steps_to(start, index, grid.chunks.len() as int),
        due(grid, region, index),
    ensures
        first_due(grid, region, start, k) matches Some(found) && k <= steps_to(
            start,
            found as int,
            grid.chunks.len() as int,
        ) <= steps_to(start, index, grid.chunks.len() as int),
    decreases steps_to(start, index, grid.chunks.len() as int) - k,
{
    let count = grid.chunks.len() as int;
    assert(wrap(start + steps_to(start, index, count), count) == index);
    if !due(grid, region, wrap(start + k, count)) {
        lemma_first_due_is_first(grid, region, start, k + 1, index);
    }
}

/// No chunk waits for ever: as long as the chunk at `index` is due, every
/// tick that has an image to bake into either rebakes it or moves the
/// cursor closer to it, whatever happens to the other chunks in between.
/// So a chunk that stays due is rebaked within as many ticks as the grid
/// has chunks.
pub proof fn lemma_tick_approaches(grid: GridView, region: ChunkRect, cursor: usize, index: int)
    requires
        grid.chunks.len() <= usize::MAX,
        due(grid, region, index),
    ensures
        ({
            let count = grid.chunks.len() as int;
            let next = tick_spec(grid, region, cursor, BakeTarget::Acquired).1;
            ||| serviced(grid, region, cursor, BakeTarget::Acquired) == Some(index as usize)
            ||| 0 <= steps_to(start_of(next, count), index, count) < steps_to(
                start_of(cursor, count),
                index,
                count,
            ) < count
        }),
{
    let count = grid.chunks.len() as int;
    let start = start_of(cursor, count);
    lemma_first_due_is_first(grid, region, start, 0, index);
    lemma_first_due_is_due(grid, region, start, 0);
}

/// The chunks that are due are finitely many: no more than the grid holds.
pub proof fn lemma_due_set_finite(grid: GridView, region: ChunkRect)
    ensures
        due_set(grid, region).finite(),
        due_set(grid, region).len() <= grid.chunks.len(),
{
    let range = vstd::set_lib::set_int_range(0, grid.chunks.len() as int);
    vstd::set_lib::lemma_int_range(0, grid.chunks.len() as int);
    assert(due_set(grid, region).subset_of(range));
    vstd::set_lib::lemma_len_subset(due_set(grid, region), range);
}

/// Rebaking a chunk that is due takes it, and no other, out of the chunks
/// that are due.
pub proof fn lemma_redraw_clears_one(grid: GridView, region: ChunkRect, index: int)
    requires
        due(grid, region, index),
    ensures
        due_set(grid.with_redrawn(index), region) == due_set(grid, region).remove(index),
        due_set(grid.with_redrawn(index), region).len() == due_set(grid, region).len() - 1,
{
    let after = grid.with_redrawn(index);
    assert forall|i: int| due(after, region, i) <==> (due(grid, region, i) && i != index) by {
        if 0 <= i < grid.chunks.len() && i != index {
            assert(after.chunks[i] == grid.chunks[i]);
        }
    }
    assert(due_set(after, region) =~= due_set(grid, region).remove(index));
    lemma_due_set_finite(grid, region);
}

/// A tick never rebakes more than its budget of one chunk: every chunk but
/// the one it names is left as it was, and with no chunk named the grid is
/// left as it was.
pub proof fn lemma_tick_budget(grid: GridView, region: ChunkRect, cursor: usize, target: BakeTarget)
    requires
        grid.chunks.len() <= usize::MAX,
    ensures
        ({
            let after = tick_spec(grid, region, cursor, target).0;
            &&& after.chunks.len() == grid.chunks.len()
            &&& after.width == grid.width
            &&& after.height == grid.height
            &&& forall|i: int|
                0 <= i < grid.chunks.len() && Some(i as usize) != serviced(
                    grid,
                    region,
                    cursor,
                    target,
                ) ==> #[trigger] after.chunks[i] == grid.chunks[i]
            &&& serviced(grid, region, cursor, target) is None ==> after == grid
            &&& target is Unavailable ==> tick_spec(grid, region, cursor, target) == (grid, cursor)
        }),
{
    lemma_next_due_complete(grid, region, cursor);
}

/// With an image to bake into, a tick takes exactly one chunk out of those
/// that are due, as long as there is one, and keeps the grid well formed.
pub proof fn lemma_tick_services_one(grid: GridView, region: ChunkRect, cursor: usize)
    requires
        grid.wf(),
    ensures
        ({
            let after = tick_spec(grid, region, cursor, BakeTarget::Acquired).0;
            &&& after.wf()
            &&& due_set(grid, region).finite()
            &&& due_set(after, region).len() == (if due_set(grid, region).len() > 0 {
                due_set(grid, region).len() - 1
            } else {
                0
            })
        }),
{
    lemma_next_due_complete(grid, region, cursor);
    lemma_due_set_finite(grid, region);
    match next_due(grid, region, cursor) {
        Some(i) => {
            lemma_redraw_clears_one(grid, region, i as int);
            lemma_with_redrawn_wf(grid, i as int);
        },
        None => {},
    }
}

/// Rebaking one chunk keeps a grid well formed.
pub proof fn lemma_with_redrawn_wf(grid: GridView, index: int)
    requires
        grid.wf(),
        0 <= index < grid.chunks.len(),
    ensures
        grid.with_redrawn(index).wf(),
{
    let after = grid.with_redrawn(index);
    assert(grid.chunks[index].wf());
    assert forall|i: int| 0 <= i < after.chunks.len() implies (#[trigger] after.chunks[i]).wf()
        && after.chunks[i].coords == after.coords_of(i) by {
        assert(grid.chunks[i].wf());
    }
}

/// Every tick works off one chunk of the backlog: after `n` ticks, each
/// with an image to bake into, `n` fewer chunks are due, or none at all.
pub proof fn lemma_ticks_drain(grid: GridView, region: ChunkRect, cursor: usize, n: nat)
    requires
        grid.wf(),
    ensures
        run_ticks(grid, region, cursor, n).0.wf(),
        run_ticks(grid, region, cursor, n).0.chunks.len() == grid.chunks.len(),
        run_ticks(grid, region, cursor, n).0.width == grid.width,
        run_ticks(grid, region, cursor, n).0.height == grid.height,
        due_set(grid, region).finite(),
        due_set(run_ticks(grid, region, cursor, n).0, region).len() == (if due_set(
            grid,
            region,
        ).len() >= n {
            due_set(grid, region).len() - n
        } else {
            0
        }),
    decreases n,
{
    lemma_due_set_finite(grid, region);
    if n > 0 {
        let next = tick_spec(grid, region, cursor, BakeTarget::Acquired);
        lemma_tick_services_one(grid, region, cursor);
        lemma_tick_budget(grid, region, cursor, BakeTarget::Acquired);
        lemma_ticks_drain(next.0, region, next.1, (n - 1) as nat);
    }
}

/// The scheduler is bounded and leaves no chunk behind: in a grid of `N`
/// chunks, however many of them are out of date at once, `N` ticks or more,
/// each with an image to bake into, leave no chunk of the region due; over
/// the whole grid they leave no chunk in need of a redraw.
pub proof fn lemma_all_serviced(grid: GridView, region: ChunkRect, cursor: usize, n: nat)
    requires
        grid.wf(),
        n >= grid.chunks.len(),
    ensures
        forall|i: int| !due(run_ticks(grid, region, cursor, n).0, region, i),
        region == grid.bounds() ==> forall|i: int|
            0 <= i < grid.chunks.len() ==> !(#[trigger] run_ticks(
                grid,
                region,
                cursor,
                n,
            ).0.chunks[i]).needs_redraw(),
{
    let after = run_ticks(grid, region, cursor, n).0;
    lemma_ticks_drain(grid, region, cursor, n);
    lemma_due_set_finite(grid, region);
    lemma_due_set_finite(after, region);
    assert(due_set(after, region).len() == 0);
    assert forall|i: int| !due(after, region, i) by {
        if due(after, region, i) {
            assert(due_set(after, region).contains(i));
            assert(due_set(after, region).len() > 0) by {
                vstd::set_lib::lemma_set_empty_equivalency_len(due_set(after, region));
            }
        }
    }
    if region == grid.bounds() {
        assert forall|i: int| 0 <= i < grid.chunks.len() implies !(#[trigger] after.chunks[i]).needs_redraw() by {
            lemma_whole_grid_due(after, i);
        }
    }
}

/// Over the whole grid, a chunk is due exactly when its detail image is out
/// of date.
pub proof fn lemma_whole_grid_due(grid: GridView, index: int)
    requires
        grid.wf(),
        0 <= index < grid.chunks.len(),
    ensures
        due(grid, grid.bounds(), index) <==> grid.chunks[index].needs_redraw(),
{
    assert(grid.chunks[index].wf());
    lemma_coords_in_grid(grid.width as int, grid.height as int, index);
}

impl RedrawScheduler {
    /// Where the next search starts.
    pub closed spec fn position(&self) -> usize {
        self.cursor
    }

    /// A scheduler that starts its search at the first chunk.
    pub fn new() -> (scheduler: RedrawScheduler)
        ensures
            scheduler.position() == 0,
    {
        RedrawScheduler { cursor: 0 }
    }

    /// Where the next search starts.
    pub fn cursor(&self) -> (cursor: usize)
        ensures
            cursor == self.position(),
    {
        self.cursor
    }

    /// The chunk that is next in line for a rebake: the first one in
    /// `region` whose detail image is out of date, searching from the
    /// cursor once round the grid. Nothing changes.
    pub fn pending(&self, grid: &ChunkGrid, region: &ChunkRect) -> (index: Option<usize>)
        ensures
            index == next_due(grid@, *region, self.position()),
            index matches Some(i) ==> due(grid@, *region, i as int),
            index is None <==> forall|i: int| !due(grid@, *region, i),
    {
        let count: usize = grid.len();
        proof {
            lemma_next_due_complete(grid@, *region, self.cursor);
            if next_due(grid@, *region, self.cursor) is None {
                assert forall|i: int| !due(grid@, *region, i) by {
                    assert(!due_set(grid@, *region).contains(i));
                }
            }
        }
        if count == 0 {
            return None;
        }
        let start: usize = if self.cursor < count {
            self.cursor
        } else {
            0
        };
        let mut k: usize = 0;
        let mut i: usize = start;
        while k < count
            invariant
                count == grid@.chunks.len(),
                start < count,
                start == start_of(self.cursor, count as int),
                k <= count,
                i == wrap(start + k, count as int),
                i < count,
                first_due(grid@, *region, start as int, k as int) == next_due(
                    grid@,
                    *region,
                    self.cursor,
                ),
            decreases count - k,
        {
            let chunk = grid.chunk(i);
            let coords: (usize, usize) = chunk.coords();
            if chunk.needs_redraw() && region.holds(coords.0, coords.1) {
                return Some(i);
            }
            k += 1;
            i = if i + 1 == count {
                0
            } else {
                i + 1
            };
        }
        None
    }

    /// One tick: rebakes the chunk that is next in line, if there is one
    /// and an image could be had for it, and moves the cursor behind it.
    /// Names the chunk it has rebaked. No other chunk is touched; where no
    /// image could be had, nothing changes, and the chunk stays next in
    /// line for the tick that follows.
    pub fn tick(&mut self, grid: &mut ChunkGrid, region: &ChunkRect, target: BakeTarget) -> (index:
        Option<usize>)
        requires
            old(grid).wf(),
        ensures
            final(grid).wf(),
            index == serviced(old(grid)@, *region, old(self).position(), target),
            (final(grid)@, final(self).position()) == tick_spec(
                old(grid)@,
                *region,
                old(self).position(),
                target,
            ),
            index matches Some(i) ==> due(old(grid)@, *region, i as int),
            index matches Some(i) ==> !final(grid)@.chunks[i as int].needs_redraw(),
            target is Acquired ==> (index is None <==> forall|i: int| !due(old(grid)@, *region, i)),
    {
        match target {
            BakeTarget::Unavailable => None,
            BakeTarget::Acquired => {
                match self.pending(grid, region) {
                    None => None,
                    Some(i) => {
                        let count: usize = grid.len();
                        grid.redraw(i);
                        self.cursor = if i + 1 == count {
                            0
                        } else {
                            i + 1
                        };
                        Some(i)
                    },
                }
            },
        }
    }
}

} // verus!
