use chunk_lod::chunk::{is_off_screen, Chunk, DrawCommand, CHUNK_SIZE};
use chunk_lod::image::bake;
use chunk_lod::lod::{resolution, BASE_SIZE, MAX_LOD};
use chunk_lod::tiles::{TileGrid, TILE_KINDS};

fn chequered_tiles() -> TileGrid {
    let mut tiles = Vec::new();
    for i in 0..256usize {
        tiles.push(((i + i / 16) % 2) as u32);
    }
    TileGrid::from_vec(tiles).unwrap()
}

const ON_SCREEN_NEAR: (i64, i64) = (10, 10);
const ON_SCREEN_FAR: (i64, i64) = (138, 138);
const VIEWPORT: (i64, i64) = (800, 600);

#[test]
fn new_chunk_starts_coarse_with_both_images_baked() {
    let chunk = Chunk::with_tiles(3, 2, chequered_tiles());
    assert_eq!(chunk.coords(), (3, 2));
    assert_eq!(chunk.active_lod(), 4);
    assert_eq!(chunk.desired_lod(), 3);
    assert!(chunk.needs_redraw());
    assert_eq!(chunk.detail_image().size(), 32);
    assert_eq!(chunk.fallback_image().size(), 32);
    assert_eq!(*chunk.detail_image(), bake(&chequered_tiles(), 4));
    assert_eq!(*chunk.fallback_image(), bake(&chequered_tiles(), MAX_LOD));
    assert_eq!(*chunk.tiles(), chequered_tiles());
}

#[test]
fn new_chunk_draws_its_tiles_from_the_palette() {
    let chunk = Chunk::new(0, 0);
    assert_eq!(chunk.tiles().as_vec().len(), 256);
    assert!(chunk.tiles().as_vec().iter().all(|t| *t < TILE_KINDS));
    assert_eq!(*chunk.detail_image(), bake(chunk.tiles(), 4));
    assert_eq!(*chunk.fallback_image(), bake(chunk.tiles(), 4));
    assert_eq!(chunk.active_lod(), 4);
    assert_eq!(chunk.desired_lod(), 3);
}

#[test]
fn set_lod_clamps_and_does_not_rebake() {
    let mut chunk = Chunk::with_tiles(0, 0, chequered_tiles());
    chunk.set_lod(0);
    assert_eq!(chunk.desired_lod(), 0);
    assert_eq!(chunk.active_lod(), 4);
    assert_eq!(chunk.detail_image().size(), 32);
    chunk.set_lod(4);
    assert_eq!(chunk.desired_lod(), 4);
    assert!(!chunk.needs_redraw());
    chunk.set_lod(5);
    assert_eq!(chunk.desired_lod(), MAX_LOD);
    chunk.set_lod(7);
    assert_eq!(chunk.desired_lod(), MAX_LOD);
    chunk.set_lod(u32::MAX);
    assert_eq!(chunk.desired_lod(), MAX_LOD);
}

#[test]
fn needs_redraw_is_a_mismatch_of_the_two_levels() {
    let mut chunk = Chunk::with_tiles(0, 0, chequered_tiles());
    assert!(chunk.needs_redraw());
    chunk.redraw();
    assert!(!chunk.needs_redraw());
    chunk.set_lod(1);
    assert!(chunk.needs_redraw());
    chunk.set_lod(3);
    assert!(!chunk.needs_redraw());
}

#[test]
fn redraw_brings_the_active_level_and_the_image_to_the_desired_level() {
    for lod in 0..=MAX_LOD {
        let mut chunk = Chunk::with_tiles(1, 1, chequered_tiles());
        chunk.set_lod(lod);
        chunk.redraw();
        assert_eq!(chunk.active_lod(), chunk.desired_lod());
        assert_eq!(chunk.active_lod(), lod);
        assert_eq!(chunk.detail_image().size(), BASE_SIZE >> chunk.active_lod());
        assert_eq!(chunk.detail_image().size(), resolution(lod));
        assert_eq!(*chunk.detail_image(), bake(&chequered_tiles(), lod));
        assert_eq!(*chunk.fallback_image(), bake(&chequered_tiles(), MAX_LOD));
        assert_eq!(*chunk.tiles(), chequered_tiles());
    }
}

#[test]
fn redraw_twice_is_redraw_once() {
    let mut once = Chunk::with_tiles(4, 5, chequered_tiles());
    once.set_lod(1);
    once.redraw();
    let mut twice = Chunk::with_tiles(4, 5, chequered_tiles());
    twice.set_lod(1);
    twice.redraw();
    twice.redraw();
    assert_eq!(once, twice);
    assert_eq!(twice.active_lod(), 1);
    assert_eq!(twice.detail_image().size(), 256);
    assert_eq!(twice.detail_image(), once.detail_image());
}

#[test]
fn render_texture_bakes_at_the_active_level() {
    let mut chunk = Chunk::with_tiles(0, 0, chequered_tiles());
    assert_eq!(chunk.render_texture(), bake(&chequered_tiles(), 4));
    chunk.set_lod(2);
    assert_eq!(chunk.render_texture(), bake(&chequered_tiles(), 4));
    chunk.redraw();
    assert_eq!(chunk.render_texture(), bake(&chequered_tiles(), 2));
    assert_eq!(chunk.render_texture(), *chunk.detail_image());
}

#[test]
fn render_low_res_rebakes_the_fallback_whatever_the_levels() {
    let mut chunk = Chunk::with_tiles(0, 0, chequered_tiles());
    chunk.set_lod(0);
    chunk.redraw();
    chunk.set_lod(2);
    chunk.render_low_res();
    assert_eq!(*chunk.fallback_image(), bake(&chequered_tiles(), MAX_LOD));
    assert_eq!(chunk.fallback_image().size(), 32);
    assert_eq!(chunk.active_lod(), 0);
    assert_eq!(chunk.desired_lod(), 2);
    assert_eq!(*chunk.detail_image(), bake(&chequered_tiles(), 0));
}

#[test]
fn tiles_never_change() {
    let mut chunk = Chunk::with_tiles(0, 0, chequered_tiles());
    for lod in [0u32, 3, 9, 1, 4] {
        chunk.set_lod(lod);
        chunk.redraw();
        chunk.render_low_res();
        assert_eq!(*chunk.tiles(), chequered_tiles());
    }
}

#[test]
fn chunk_size_is_256_world_units() {
    assert_eq!(Chunk::size(), 256);
    assert_eq!(CHUNK_SIZE, 256);
}

#[test]
fn coords_to_position_scales_by_the_chunk_size() {
    assert_eq!(Chunk::coords_to_position((0, 0)), (0, 0));
    assert_eq!(Chunk::coords_to_position((1, 2)), (256, 512));
    assert_eq!(Chunk::coords_to_position((8, 8)), (2048, 2048));
    assert_eq!(Chunk::coords_to_position((15, 15)), (3840, 3840));
}

#[test]
fn pos_to_coords_divides_by_the_chunk_size() {
    assert_eq!(Chunk::pos_to_coords(0, 0), (0, 0));
    assert_eq!(Chunk::pos_to_coords(255, 255), (0, 0));
    assert_eq!(Chunk::pos_to_coords(256, 255), (1, 0));
    assert_eq!(Chunk::pos_to_coords(2048, 2048), (8, 8));
    assert_eq!(Chunk::pos_to_coords(2303, 2304), (8, 9));
    assert_eq!(Chunk::pos_to_coords(4095, 4096), (15, 16));
}

#[test]
fn pos_to_coords_takes_positions_before_the_world_into_the_first_chunk() {
    assert_eq!(Chunk::pos_to_coords(-1, -1), (0, 0));
    assert_eq!(Chunk::pos_to_coords(-300, 300), (0, 1));
    assert_eq!(Chunk::pos_to_coords(300, -300), (1, 0));
    assert_eq!(Chunk::pos_to_coords(isize::MIN, isize::MAX), (0, (isize::MAX as usize) / 256));
}

#[test]
fn world_bounds_are_the_corners_of_the_footprint() {
    let chunk = Chunk::with_tiles(3, 2, chequered_tiles());
    assert_eq!(chunk.world_bounds(), ((768, 512), (1024, 768)));
}

#[test]
fn render_draws_the_fallback_while_the_active_level_is_far() {
    let chunk = Chunk::with_tiles(3, 2, chequered_tiles());
    assert_eq!(chunk.active_lod(), 4);
    assert_eq!(
        chunk.render(ON_SCREEN_NEAR, ON_SCREEN_FAR, VIEWPORT, false),
        DrawCommand::Fallback { x: 768, y: 512, size: 256 }
    );
}

#[test]
fn render_draws_the_detail_image_up_to_the_far_level() {
    for lod in 0..=3u32 {
        let mut chunk = Chunk::with_tiles(3, 2, chequered_tiles());
        chunk.set_lod(lod);
        chunk.redraw();
        assert_eq!(
            chunk.render(ON_SCREEN_NEAR, ON_SCREEN_FAR, VIEWPORT, false),
            DrawCommand::Detail { x: 768, y: 512, size: 256 }
        );
    }
    let mut chunk = Chunk::with_tiles(3, 2, chequered_tiles());
    chunk.set_lod(4);
    chunk.redraw();
    assert_eq!(
        chunk.render(ON_SCREEN_NEAR, ON_SCREEN_FAR, VIEWPORT, false),
        DrawCommand::Fallback { x: 768, y: 512, size: 256 }
    );
}

#[test]
fn render_in_debug_mode_draws_a_rectangle_that_tells_the_level() {
    let mut chunk = Chunk::with_tiles(1, 0, chequered_tiles());
    assert_eq!(
        chunk.render(ON_SCREEN_NEAR, ON_SCREEN_FAR, VIEWPORT, true),
        DrawCommand::DebugRect { x: 256, y: 0, size: 256, lod: 4, image_size: 32 }
    );
    chunk.set_lod(0);
    chunk.redraw();
    assert_eq!(
        chunk.render(ON_SCREEN_NEAR, ON_SCREEN_FAR, VIEWPORT, true),
        DrawCommand::DebugRect { x: 256, y: 0, size: 256, lod: 0, image_size: 512 }
    );
}

#[test]
fn render_culls_a_chunk_whose_far_corner_is_negative_on_both_axes() {
    let chunk = Chunk::with_tiles(0, 0, chequered_tiles());
    assert_eq!(chunk.render((-200, -200), (-1, -1), VIEWPORT, false), DrawCommand::Culled);
    assert_eq!(chunk.render((-200, -200), (-1, -1), VIEWPORT, true), DrawCommand::Culled);
    assert_eq!(chunk.render((-200, -200), (-72, -1), VIEWPORT, false), DrawCommand::Culled);
}

#[test]
fn render_keeps_a_chunk_whose_far_corner_is_negative_on_one_axis_only() {
    let chunk = Chunk::with_tiles(0, 0, chequered_tiles());
    assert_ne!(chunk.render((-200, 10), (-1, 138), VIEWPORT, false), DrawCommand::Culled);
    assert_ne!(chunk.render((10, -200), (138, -1), VIEWPORT, false), DrawCommand::Culled);
    assert_ne!(chunk.render((-128, -128), (0, 0), VIEWPORT, false), DrawCommand::Culled);
}

#[test]
fn render_culls_a_chunk_whose_near_corner_is_beyond_the_viewport() {
    let chunk = Chunk::with_tiles(0, 0, chequered_tiles());
    assert_eq!(chunk.render((801, 10), (929, 138), VIEWPORT, false), DrawCommand::Culled);
    assert_eq!(chunk.render((10, 601), (138, 729), VIEWPORT, false), DrawCommand::Culled);
    assert_ne!(chunk.render((800, 600), (928, 728), VIEWPORT, false), DrawCommand::Culled);
}

#[test]
fn is_off_screen_agrees_with_render() {
    assert!(is_off_screen((-5, -5), (-1, -1), VIEWPORT));
    assert!(is_off_screen((801, 0), (900, 100), VIEWPORT));
    assert!(is_off_screen((0, 601), (100, 700), VIEWPORT));
    assert!(!is_off_screen((0, 0), (100, 100), VIEWPORT));
    assert!(!is_off_screen((-5, 0), (-1, 100), VIEWPORT));
}
