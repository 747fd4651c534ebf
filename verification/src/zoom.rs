//! The render scale: the power of two that says how many world units the
//! screen spans. It moves one step at a time and stays within fixed bounds.

use vstd::prelude::*;

verus! {

/// The scale a session starts at.
pub const DEFAULT_SCALE: u8 = 8;

/// The smallest scale: the closest view.
pub const MIN_SCALE: u8 = 6;

/// The greatest scale: the widest view.
pub const MAX_SCALE: u8 = 15;

/// The scale one step closer, or `scale` itself where it is at the closest.
pub open spec fn closer(scale: u8) -> u8 {
    if scale > MIN_SCALE {
        (scale - 1) as u8
    } else {
        scale
    }
}

/// The scale one step wider, or `scale` itself where it is at the widest.
pub open spec fn wider(scale: u8) -> u8 {
    if scale < MAX_SCALE {
        (scale + 1) as u8
    } else {
        scale
    }
}

/// The scale after one frame in which closer and wider views were asked
/// for or not: the step closer is taken first, the step wider after it.
pub open spec fn stepped(scale: u8, zoom_in: bool, zoom_out: bool) -> u8 {
    let after_in = if zoom_in { closer(scale) } else { scale };
    if zoom_out { wider(after_in) } else { after_in }
}

/// Moves the render scale for one frame.
pub fn step_scale(scale: u8, zoom_in: bool, zoom_out: bool) -> (next: u8)
    ensures
        next == stepped(scale, zoom_in, zoom_out),
        MIN_SCALE <= scale <= MAX_SCALE ==> MIN_SCALE <= next <= MAX_SCALE,
{
    let mut next: u8 = scale;
    if zoom_in && next >= 7 {
        next -= 1;
    }
    if zoom_out && next <= 14 {
        next += 1;
    }
    next
}

} // verus!
