//! Player tags and the manual-control state machine.
//!
//! Each tick, a manually driven entity is placed into exactly one of two
//! locomotion states, recomputed in full from the current input: no
//! directional input means a brake intent, any directional input means a
//! directional-thrust intent along the normalized sum of the pressed axis
//! units. The two intents are mutually exclusive by this recomputation.

use vstd::prelude::*;

use crate::fx::{Vec2Fx, s_unit_x, s_unit_y, normalize_or_zero};
use crate::kinematic::{Decelerating, Mover, MovingIn, SelfMoving};
use crate::unit::UnitBundleWithFaction;

verus! {

/// Tags an entity as a player.
#[derive(Debug, Clone, Copy, PartialEq, Eq, Structural)]
pub struct Player;

/// Tags an entity as the local player. Prerequisite: `Player`.
#[derive(Debug, Clone, Copy, PartialEq, Eq, Structural)]
pub struct LocalPlayer;

/// Tags an entity as driven by local input. Prerequisite: `SelfMoving`.
#[derive(Debug, Clone, Copy, PartialEq, Eq, Structural)]
pub struct LocalPlayerControlled;

/// The component set of a player.
#[derive(Debug, Clone, Copy, PartialEq, Eq, Structural)]
pub struct PlayerBundle {
    pub player: Player,
    pub unit: UnitBundleWithFaction,
}

/// The component set of the local player.
#[derive(Debug, Clone, Copy, PartialEq, Eq, Structural)]
pub struct LocalPlayerBundle {
    pub local_player: LocalPlayer,
    pub local_player_controlled: LocalPlayerControlled,
    pub player: PlayerBundle,
}

impl LocalPlayerBundle {
    /// The local-player component set around an existing player set.
    pub fn new(player: PlayerBundle) -> (r: LocalPlayerBundle)
        ensures
            r.player == player,
    {
        LocalPlayerBundle {
            local_player: LocalPlayer,
            local_player_controlled: LocalPlayerControlled,
            player,
        }
    }
}

/// The raw direction the pressed keys sum to, one unit per pressed axis:
/// right minus left on x, up minus down on y.
pub open spec fn s_input_vec(w: bool, a: bool, s: bool, d: bool) -> Vec2Fx {
    Vec2Fx {
        x: ((if d {
            1000int
        } else {
            0int
        }) - (if a {
            1000int
        } else {
            0int
        })) as i64,
        y: ((if w {
            1000int
        } else {
            0int
        }) - (if s {
            1000int
        } else {
            0int
        })) as i64,
    }
}

/// Drive one manually controlled, self-moving entity from the current
/// directional input: with no key pressed the entity brakes and any thrust
/// intent is removed; with any key pressed it thrusts along the normalized
/// key direction and any brake intent is removed. The state is recomputed
/// in full every tick, so brake and thrust can never both be present.
pub fn update_local_player_controlled(m: &mut Mover, w: bool, a: bool, s: bool, d: bool)
    requires
        old(m).self_moving is Some,
    ensures
        !w && !a && !s && !d ==> *final(m) == (Mover {
            moving_in: None,
            decelerating: Some(Decelerating),
            ..*old(m)
        }),
        w || a || s || d ==> *final(m) == (Mover {
            decelerating: None,
            moving_in: Some(
                MovingIn {
                    dir: Vec2Fx {
                        x: s_unit_x(s_input_vec(w, a, s, d)) as i64,
                        y: s_unit_y(s_input_vec(w, a, s, d)) as i64,
                    },
                },
            ),
            ..*old(m)
        }),
{
    let none: bool = !w && !a && !s && !d;
    if none {
        m.moving_in = None;
        m.decelerating = Some(Decelerating);
    } else {
        let x: i64 = (if d {
            1000
        } else {
            0
        }) - (if a {
            1000
        } else {
            0
        });
        let y: i64 = (if w {
            1000
        } else {
            0
        }) - (if s {
            1000
        } else {
            0
        });
        let dir: Vec2Fx = normalize_or_zero(Vec2Fx { x, y });
        m.decelerating = None;
        m.moving_in = Some(MovingIn { dir });
    }
}

} // verus!
