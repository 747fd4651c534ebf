use chunk_lod::grid::{ChunkGrid, ChunkRect};
use chunk_lod::scheduler::{BakeTarget, RedrawScheduler};

fn stale_count(grid: &ChunkGrid) -> usize {
    (0..grid.len()).filter(|i| grid.chunk(*i).needs_redraw()).count()
}

#[test]
fn scheduler_starts_at_the_first_chunk() {
    let scheduler = RedrawScheduler::new();
    assert_eq!(scheduler.cursor(), 0);
}

#[test]
fn tick_rebakes_exactly_one_chunk() {
    let mut grid = ChunkGrid::new(4, 4);
    let region = grid.bounds();
    let mut scheduler = RedrawScheduler::new();
    assert_eq!(stale_count(&grid), 16);
    assert_eq!(scheduler.tick(&mut grid, &region, BakeTarget::Acquired), Some(0));
    assert_eq!(stale_count(&grid), 15);
    assert!(!grid.chunk(0).needs_redraw());
    assert_eq!(grid.chunk(0).active_lod(), 3);
    assert_eq!(grid.chunk(0).detail_image().size(), 64);
    assert_eq!(scheduler.cursor(), 1);
    for index in 1..16usize {
        assert!(grid.chunk(index).needs_redraw());
        assert_eq!(grid.chunk(index).active_lod(), 4);
    }
}

#[test]
fn n_ticks_service_n_stale_chunks() {
    let mut grid = ChunkGrid::new(4, 4);
    let region = grid.bounds();
    let mut scheduler = RedrawScheduler::new();
    for served in 0..16usize {
        assert_eq!(stale_count(&grid), 16 - served);
        assert_eq!(scheduler.tick(&mut grid, &region, BakeTarget::Acquired), Some(served));
    }
    assert_eq!(stale_count(&grid), 0);
    for index in 0..16usize {
        assert!(!grid.chunk(index).needs_redraw());
    }
    assert_eq!(scheduler.tick(&mut grid, &region, BakeTarget::Acquired), None);
    assert_eq!(scheduler.cursor(), 0);
}

#[test]
fn tick_with_nothing_stale_changes_nothing() {
    let mut grid = ChunkGrid::new(3, 3);
    for index in 0..9usize {
        grid.set_lod(index, 4);
    }
    let region = grid.bounds();
    let mut scheduler = RedrawScheduler::new();
    assert_eq!(scheduler.pending(&grid, &region), None);
    assert_eq!(scheduler.tick(&mut grid, &region, BakeTarget::Acquired), None);
    assert_eq!(scheduler.cursor(), 0);
    for index in 0..9usize {
        assert_eq!(grid.chunk(index).active_lod(), 4);
    }
}

#[test]
fn tick_without_an_image_skips_and_retries() {
    let mut grid = ChunkGrid::new(3, 3);
    let region = grid.bounds();
    let mut scheduler = RedrawScheduler::new();
    assert_eq!(scheduler.pending(&grid, &region), Some(0));
    assert_eq!(scheduler.tick(&mut grid, &region, BakeTarget::Unavailable), None);
    assert_eq!(stale_count(&grid), 9);
    assert_eq!(scheduler.cursor(), 0);
    assert_eq!(grid.chunk(0).active_lod(), 4);
    assert_eq!(grid.chunk(0).detail_image().size(), 32);
    // The same chunk is next in line on the tick that follows.
    assert_eq!(scheduler.pending(&grid, &region), Some(0));
    assert_eq!(scheduler.tick(&mut grid, &region, BakeTarget::Acquired), Some(0));
    assert_eq!(stale_count(&grid), 8);
}

#[test]
fn pending_names_the_chunk_the_next_tick_rebakes() {
    let mut grid = ChunkGrid::new(4, 2);
    for index in 0..8usize {
        grid.set_lod(index, 4);
    }
    grid.set_lod(6, 2);
    grid.set_lod(3, 0);
    let region = grid.bounds();
    let mut scheduler = RedrawScheduler::new();
    assert_eq!(scheduler.pending(&grid, &region), Some(3));
    assert_eq!(scheduler.tick(&mut grid, &region, BakeTarget::Acquired), Some(3));
    assert_eq!(grid.chunk(3).active_lod(), 0);
    assert_eq!(grid.chunk(3).detail_image().size(), 512);
    assert_eq!(scheduler.pending(&grid, &region), Some(6));
    assert_eq!(scheduler.tick(&mut grid, &region, BakeTarget::Acquired), Some(6));
    assert_eq!(grid.chunk(6).detail_image().size(), 128);
    assert_eq!(scheduler.pending(&grid, &region), None);
}

#[test]
fn search_resumes_behind_the_last_rebake_and_goes_round() {
    let mut grid = ChunkGrid::new(4, 1);
    let region = grid.bounds();
    let mut scheduler = RedrawScheduler::new();
    assert_eq!(scheduler.tick(&mut grid, &region, BakeTarget::Acquired), Some(0));
    assert_eq!(scheduler.tick(&mut grid, &region, BakeTarget::Acquired), Some(1));
    assert_eq!(scheduler.cursor(), 2);
    // Chunk 0 falls out of date again; those behind the cursor come first.
    grid.set_lod(0, 1);
    assert_eq!(scheduler.tick(&mut grid, &region, BakeTarget::Acquired), Some(2));
    assert_eq!(scheduler.tick(&mut grid, &region, BakeTarget::Acquired), Some(3));
    assert_eq!(scheduler.cursor(), 0);
    assert_eq!(scheduler.tick(&mut grid, &region, BakeTarget::Acquired), Some(0));
    assert_eq!(scheduler.cursor(), 1);
    assert_eq!(scheduler.tick(&mut grid, &region, BakeTarget::Acquired), None);
    assert_eq!(stale_count(&grid), 0);
}

#[test]
fn tick_looks_at_the_region_only() {
    let mut grid = ChunkGrid::new(4, 4);
    let region = ChunkRect { x_start: 1, y_start: 1, x_end: 3, y_end: 3 };
    let mut scheduler = RedrawScheduler::new();
    let mut served = Vec::new();
    for _ in 0..4 {
        served.push(scheduler.tick(&mut grid, &region, BakeTarget::Acquired).unwrap());
    }
    assert_eq!(served, vec![5, 6, 9, 10]);
    assert_eq!(scheduler.tick(&mut grid, &region, BakeTarget::Acquired), None);
    assert_eq!(stale_count(&grid), 12);
    for index in 0..16usize {
        let inside = region.holds(index % 4, index / 4);
        assert_eq!(grid.chunk(index).needs_redraw(), !inside);
    }
}

#[test]
fn tick_on_an_empty_region_or_grid_does_nothing() {
    let mut grid = ChunkGrid::new(4, 4);
    let nowhere = ChunkRect { x_start: 2, y_start: 2, x_end: 2, y_end: 4 };
    let mut scheduler = RedrawScheduler::new();
    assert_eq!(scheduler.tick(&mut grid, &nowhere, BakeTarget::Acquired), None);
    assert_eq!(stale_count(&grid), 16);
    let mut empty = ChunkGrid::new(0, 0);
    let region = empty.bounds();
    assert_eq!(scheduler.tick(&mut empty, &region, BakeTarget::Acquired), None);
}

#[test]
fn a_cursor_beyond_a_smaller_grid_starts_over() {
    let mut large = ChunkGrid::new(4, 4);
    let region = large.bounds();
    let mut scheduler = RedrawScheduler::new();
    for _ in 0..10 {
        scheduler.tick(&mut large, &region, BakeTarget::Acquired);
    }
    assert_eq!(scheduler.cursor(), 10);
    let mut small = ChunkGrid::new(2, 2);
    let region = small.bounds();
    assert_eq!(scheduler.pending(&small, &region), Some(0));
    assert_eq!(scheduler.tick(&mut small, &region, BakeTarget::Acquired), Some(0));
    assert_eq!(scheduler.cursor(), 1);
}

#[test]
fn a_stale_chunk_is_reached_while_others_keep_falling_out_of_date() {
    let mut grid = ChunkGrid::new(4, 2);
    for index in 0..8usize {
        grid.set_lod(index, 4);
    }
    grid.set_lod(7, 0);
    let region = grid.bounds();
    let mut scheduler = RedrawScheduler::new();
    let mut ticks = 0;
    loop {
        // Every frame the chunks in front fall out of date again.
        let lod = if ticks % 2 == 0 { 1 } else { 2 };
        grid.set_lod(0, lod);
        grid.set_lod(1, lod);
        ticks += 1;
        let rebaked = scheduler.tick(&mut grid, &region, BakeTarget::Acquired);
        if rebaked == Some(7) {
            break;
        }
        assert!(ticks < 8);
    }
    assert_eq!(ticks, 3);
    assert_eq!(grid.chunk(7).active_lod(), 0);
}
