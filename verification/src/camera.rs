//! Camera framing: the focus point the camera glides toward each frame.

use vstd::prelude::*;

use crate::fx::{Vec2Fx, s_abs, s_mulfx, mulfx, lemma_mulfx_bound};

verus! {

/// A linear step from `from` toward `to` by the fixed-point fraction `t`,
/// one component.
pub open spec fn s_lerp(from: int, to: int, t: int) -> int {
    from + s_mulfx(to - from, t)
}

/// The point the camera should focus on: one fifth of the way from the
/// player toward the point under the mouse.
pub fn update_camera_focus(player: Vec2Fx, mouse_world: Vec2Fx) -> (r: Vec2Fx)
    requires
        s_abs(player.x as int) <= 1_000_000_000_000_000,
        s_abs(player.y as int) <= 1_000_000_000_000_000,
        s_abs(mouse_world.x as int) <= 1_000_000_000_000_000,
        s_abs(mouse_world.y as int) <= 1_000_000_000_000_000,
    ensures
        r.x as int == s_lerp(player.x as int, mouse_world.x as int, 200),
        r.y as int == s_lerp(player.y as int, mouse_world.y as int, 200),
{
    proof {
        lemma_mulfx_bound(
            mouse_world.x - player.x,
            200,
            2_000_000_000_000_000,
            200,
        );
        lemma_mulfx_bound(
            mouse_world.y - player.y,
            200,
            2_000_000_000_000_000,
            200,
        );
    }
    Vec2Fx {
        x: player.x + mulfx(mouse_world.x - player.x, 200),
        y: player.y + mulfx(mouse_world.y - player.y, 200),
    }
}

} // verus!
