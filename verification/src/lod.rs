//! Levels of detail: the resolution each level is baked at, and the policy
//! that picks a level for a chunk from its distance to the viewer.

use vstd::prelude::*;
use vstd::arithmetic::div_mod::lemma_div_is_ordered_by_denominator;
use vstd::arithmetic::power2::{lemma2_to64, lemma_pow2_pos, lemma_pow2_strictly_increases, pow2};
use vstd::bits::lemma_u32_shr_is_div;

verus! {

/// Side, in pixels, of a chunk's image at level 0, the finest level.
pub const BASE_SIZE: u32 = 512;

/// The coarsest level of detail. Levels run from 0 to `MAX_LOD`.
pub const MAX_LOD: u32 = 4;

/// The level the permanent fallback image is baked at: the coarsest one.
pub const FALLBACK_LOD: u32 = 4;

/// The level a new chunk's detail image is baked at.
pub const INITIAL_LOD: u32 = 4;

/// The level a new chunk asks for before the viewer has been seen.
pub const INITIAL_DESIRED_LOD: u32 = 3;

/// A chunk whose active level is above this one is drawn from its fallback
/// image.
pub const FAR_LOD: u32 = 3;

/// The factor by which level `lod` shrinks every length: two to the `lod`.
pub open spec fn lod_scale(lod: nat) -> nat {
    pow2(lod)
}

/// Side, in pixels, of an image baked at level `lod`.
pub open spec fn resolution_at(lod: nat) -> nat {
    BASE_SIZE as nat / lod_scale(lod)
}

/// `level` brought into the valid range of levels.
pub open spec fn clamp_lod(level: int) -> nat {
    if level < 0 {
        0
    } else if level > MAX_LOD {
        MAX_LOD as nat
    } else {
        level as nat
    }
}

/// Distance between two coordinates on one axis.
pub open spec fn axis_gap(a: int, b: int) -> int {
    if a >= b {
        a - b
    } else {
        b - a
    }
}

/// The grid distance the policy measures between the viewer's chunk and
/// another chunk. It is deliberately lopsided: one column of slack more is
/// granted along x than along y.
pub open spec fn lod_distance(viewer: (int, int), chunk: (int, int)) -> int {
    let dx = axis_gap(viewer.0, chunk.0) - 1;
    let dy = axis_gap(viewer.1, chunk.1);
    (if dx >= dy { dx } else { dy }) - 1
}

/// The level the policy asks of `chunk` when the viewer stands in `viewer`.
pub open spec fn desired_lod_at(viewer: (int, int), chunk: (int, int)) -> nat {
    clamp_lod(lod_distance(viewer, chunk))
}

/// One step of brightness of the debug rectangle, out of 255.
pub const SHADE_STEP: u8 = 51;

/// How bright, out of 255, the debug rectangle of a chunk at level `lod`
/// is: full brightness at level 0, one step dimmer with every level.
pub open spec fn shade_at(lod: nat) -> int {
    SHADE_STEP * (MAX_LOD + 1 - lod)
}

/// The coordinates of an executable pair, as integers.
pub open spec fn coords_int(c: (usize, usize)) -> (int, int) {
    (c.0 as int, c.1 as int)
}

/// Side, in pixels, of an image baked at level `lod`.
pub fn resolution(lod: u32) -> (side: u32)
    requires
        lod <= MAX_LOD,
    ensures
        side == resolution_at(lod as nat),
        0 < side <= BASE_SIZE,
{
    proof {
        lemma_u32_shr_is_div(BASE_SIZE, lod);
        lemma_resolution_values();
    }
    BASE_SIZE >> lod
}

/// How bright, out of 255, the debug rectangle of a chunk at level `lod`
/// is.
pub fn debug_shade(lod: u32) -> (shade: u8)
    requires
        lod <= MAX_LOD,
    ensures
        shade == shade_at(lod as nat),
        SHADE_STEP <= shade <= 255,
{
    SHADE_STEP * ((MAX_LOD + 1 - lod) as u8)
}

/// Brings a requested level into the valid range.
pub fn clamp_level(level: u32) -> (lod: u32)
    ensures
        lod == clamp_lod(level as int),
        lod <= MAX_LOD,
{
    if level > MAX_LOD {
        MAX_LOD
    } else {
        level
    }
}

/// The level the policy asks of the chunk at `chunk` when the viewer stands
/// in the chunk at `viewer`.
pub fn desired_lod(viewer: (usize, usize), chunk: (usize, usize)) -> (lod: u32)
    ensures
        lod == desired_lod_at(coords_int(viewer), coords_int(chunk)),
        lod <= MAX_LOD,
{
    let gap_x: usize = if viewer.0 >= chunk.0 {
        viewer.0 - chunk.0
    } else {
        chunk.0 - viewer.0
    };
    let gap_y: usize = if viewer.1 >= chunk.1 {
        viewer.1 - chunk.1
    } else {
        chunk.1 - viewer.1
    };
    // With `gap_y` never negative, a `gap_x` of zero may count as one.
    let slack_x: usize = if gap_x >= 1 {
        gap_x - 1
    } else {
        0
    };
    let reach: usize = if slack_x >= gap_y {
        slack_x
    } else {
        gap_y
    };
    if reach <= 1 {
        0
    } else if reach - 1 >= 4 {
        MAX_LOD
    } else if reach == 2 {
        1
    } else if reach == 3 {
        2
    } else {
        3
    }
}

/// A coarser level never has the higher resolution: for levels
/// `fine < coarse`, the image baked at `fine` is at least as large as the one
/// baked at `coarse`.
pub proof fn lemma_resolution_monotonic(fine: nat, coarse: nat)
    requires
        fine < coarse,
    ensures
        resolution_at(fine) >= resolution_at(coarse),
{
    lemma_pow2_pos(fine);
    lemma_pow2_strictly_increases(fine, coarse);
    lemma_div_is_ordered_by_denominator(BASE_SIZE as int, pow2(fine) as int, pow2(coarse) as int);
}

/// The resolution of every valid level: it starts at `BASE_SIZE` and halves
/// with every level.
pub proof fn lemma_resolution_values()
    ensures
        resolution_at(0) == 512,
        resolution_at(1) == 256,
        resolution_at(2) == 128,
        resolution_at(3) == 64,
        resolution_at(4) == 32,
        lod_scale(0) == 1,
        lod_scale(1) == 2,
        lod_scale(2) == 4,
        lod_scale(3) == 8,
        lod_scale(4) == 16,
{
    lemma2_to64();
    assert(resolution_at(0) == 512nat / 1);
    assert(resolution_at(1) == 512nat / 2);
    assert(resolution_at(2) == 512nat / 4);
    assert(resolution_at(3) == 512nat / 8);
    assert(resolution_at(4) == 512nat / 16);
}

/// The debug rectangle tells the level by its brightness: a chunk at a
/// coarser level is drawn dimmer, and the finest level is drawn at full
/// brightness.
pub proof fn lemma_debug_shade_dims(fine: nat, coarse: nat)
    requires
        fine < coarse <= MAX_LOD,
    ensures
        shade_at(fine) > shade_at(coarse) > 0,
        shade_at(0) == 255,
{
}

/// For a fixed viewer, the level asked of a chunk never falls as the chunk's
/// distance from the viewer grows.
pub proof fn lemma_desired_lod_monotonic(viewer: (int, int), near: (int, int), far: (int, int))
    requires
        lod_distance(viewer, near) <= lod_distance(viewer, far),
    ensures
        desired_lod_at(viewer, near) <= desired_lod_at(viewer, far),
{
}

/// For a fixed viewer, a chunk that is no closer on either axis is asked for
/// a level that is no finer.
pub proof fn lemma_desired_lod_grows_outward(viewer: (int, int), near: (int, int), far: (int, int))
    requires
        axis_gap(viewer.0, near.0) <= axis_gap(viewer.0, far.0),
        axis_gap(viewer.1, near.1) <= axis_gap(viewer.1, far.1),
    ensures
        lod_distance(viewer, near) <= lod_distance(viewer, far),
        desired_lod_at(viewer, near) <= desired_lod_at(viewer, far),
{
}

/// At a distance of zero or less the policy asks for the finest level; the
/// viewer's own chunk and its immediate neighbours are at such a distance.
pub proof fn lemma_desired_lod_zero_nearby(viewer: (int, int), chunk: (int, int))
    ensures
        lod_distance(viewer, chunk) <= 0 ==> desired_lod_at(viewer, chunk) == 0,
        axis_gap(viewer.0, chunk.0) <= 2 && axis_gap(viewer.1, chunk.1) <= 1 ==> desired_lod_at(
            viewer,
            chunk,
        ) == 0,
        desired_lod_at(viewer, chunk) <= MAX_LOD,
{
}

} // verus!
