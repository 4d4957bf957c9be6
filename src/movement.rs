//! Keeping the player on the floor plan.
use vstd::prelude::*;

use crate::hiding::PlayerHidden;
use crate::space::{hiding_spot, is_in_bound, is_in_hiding_spot, walkable, Position};

verus! {

/// Where a move from `from` towards `to` ends: each axis keeps its new value
/// only where that value, with the other axis as it was, may be walked on.
pub open spec fn confined(from: Position, to: Position) -> Position {
    Position {
        x: if walkable(to.x as int, from.z as int) {
            to.x
        } else {
            from.x
        },
        z: if walkable(from.x as int, to.z as int) {
            to.z
        } else {
            from.z
        },
    }
}

/// Moves the player from `from` towards `to`. A hidden player does not move
/// and nothing changes. Otherwise an axis that would leave the floor plan is
/// rolled back, and `can_hide` tells whether the place reached is a desk of
/// either room.
pub fn confine_move(hidden: &mut PlayerHidden, from: Position, to: Position) -> (r: Position)
    ensures
        old(hidden).hidden ==> r == from && *final(hidden) == *old(hidden),
        !old(hidden).hidden ==> r == confined(from, to) && *final(hidden) == (PlayerHidden {
            can_hide: hiding_spot(r.x as int, r.z as int),
            ..*old(hidden)
        }),
{
    if hidden.hidden {
        return from;
    }
    let x = if is_in_bound(to.x, from.z) {
        to.x
    } else {
        from.x
    };
    let z = if is_in_bound(from.x, to.z) {
        to.z
    } else {
        from.z
    };
    hidden.can_hide = is_in_hiding_spot(x, z);
    Position { x, z }
}

} // verus!
