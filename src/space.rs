//! Floor-plan geometry: which points can be walked on, where the player may
//! hide, and from where each computer can be reached.
use vstd::prelude::*;

verus! {

/// Distance along x between the right room and its mirror image, the left room.
pub const ROOM_OFFSET: i64 = 14000;

/// Number of computers; ids run from `0` to `COMPUTER_NUMBER - 1`.
pub const COMPUTER_NUMBER: i32 = 32;

/// Computers per row: the first half of a row stands on one side of a desk,
/// the second half on the other.
pub const COMPUTERS_PER_ROW: i32 = 8;

/// A point of the floor plan, in thousandths of a unit. Height plays no part.
#[derive(Clone, Copy, Debug, PartialEq, Eq, Structural)]
pub struct Position {
    pub x: i64,
    pub z: i64,
}

/// The open rectangle `(x_lo, x_hi) x (z_lo, z_hi)` holds `(x, z)`.
pub open spec fn inside(x: int, z: int, x_lo: int, z_lo: int, x_hi: int, z_hi: int) -> bool {
    x_lo < x < x_hi && z_lo < z < z_hi
}

/// The corridor that joins the two rooms.
pub open spec fn corridor(x: int, z: int) -> bool {
    inside(x, z, -25000, -2650, 650, 650)
}

/// The three desks of the right room, where the player can hide and reach computers.
pub open spec fn hiding_zone(x: int, z: int) -> bool {
    inside(x, z, -850, -22500, 550, -7000)
    || inside(x, z, -8800, -22500, -3100, -7000)
    || inside(x, z, -12750, -22500, -11250, -7000)
}

/// The right room: its two doors, its entrance and its desks.
pub open spec fn room(x: int, z: int) -> bool {
    inside(x, z, -2350, -3350, -1550, -2650)
    || inside(x, z, -10550, -3350, -9550, -2650)
    || inside(x, z, -12750, -7000, 550, -3350)
    || hiding_zone(x, z)
}

/// The left room is the right room moved by `-ROOM_OFFSET` along x.
pub open spec fn mirrored_room(x: int, z: int) -> bool {
    room(x + ROOM_OFFSET, z)
}

/// Where the player may stand.
pub open spec fn walkable(x: int, z: int) -> bool {
    corridor(x, z) || room(x, z) || mirrored_room(x, z)
}

/// Desks of either room.
pub open spec fn hiding_spot(x: int, z: int) -> bool {
    hiding_zone(x, z) || hiding_zone(x + ROOM_OFFSET, z)
}

/// Whether `(x, z)` may be walked on.
pub fn is_in_bound(x: i64, z: i64) -> (r: bool)
    ensures
        r == walkable(x as int, z as int),
{
    (x > -25000 && z > -2650 && x < 650 && z < 650) || is_in_room(x, z) || (x <= i64::MAX
        - ROOM_OFFSET && is_in_room(x + ROOM_OFFSET, z))
}

/// Whether `(x, z)` lies in the right room.
pub fn is_in_room(x: i64, z: i64) -> (r: bool)
    ensures
        r == room(x as int, z as int),
{
    (x > -2350 && z > -3350 && x < -1550 && z < -2650) || (x > -10550 && z > -3350 && x < -9550
        && z < -2650) || (x > -12750 && z > -7000 && x < 550 && z < -3350)
        || is_close_from_computer(x, z)
}

/// Whether `(x, z)` lies at one of the desks of the right room.
pub fn is_close_from_computer(x: i64, z: i64) -> (r: bool)
    ensures
        r == hiding_zone(x as int, z as int),
{
    (x > -850 && z > -22500 && x < 550 && z < -7000) || (x > -8800 && z > -22500 && x < -3100 && z
        < -7000) || (x > -12750 && z > -22500 && x < -11250 && z < -7000)
}

/// Whether `(x, z)` lies at a desk of either room.
pub fn is_in_hiding_spot(x: i64, z: i64) -> (r: bool)
    ensures
        r == hiding_spot(x as int, z as int),
{
    is_close_from_computer(x, z) || (x <= i64::MAX - ROOM_OFFSET && is_close_from_computer(
        x + ROOM_OFFSET,
        z,
    ))
}

/// Position along x of the computers of row `row`, before the side shift.
pub open spec fn row_x(row: int) -> int {
    if row == 0 {
        -500
    } else if row == 1 {
        -8200
    } else if row == 2 {
        -14300
    } else {
        -22384
    }
}

/// Corner of the reach window of computer `id` along x: its row's position,
/// moved by 2500 for the far side of the desk.
pub open spec fn anchor_x(id: int) -> int {
    row_x(id / COMPUTERS_PER_ROW as int) - if id % COMPUTERS_PER_ROW as int >= 4 {
        2500int
    } else {
        0int
    }
}

/// Corner of the reach window of computer `id` along z: one of four seats, 4100 apart.
pub open spec fn anchor_z(id: int) -> int {
    -7380 - (id % 4) * 4100
}

/// The player at `(x, z)` can use computer `id`: the point lies in the closed
/// window 350 wide and 1800 deep that ends at the computer's anchor.
pub open spec fn reaches(x: int, z: int, id: int) -> bool {
    anchor_x(id) - 350 <= x <= anchor_x(id) && anchor_z(id) - 1800 <= z <= anchor_z(id)
}

fn computer_row_x(row: i32) -> (r: i64)
    requires
        0 <= row < 4,
    ensures
        r == row_x(row as int),
{
    if row == 0 {
        -500
    } else if row == 1 {
        -8200
    } else if row == 2 {
        -14300
    } else {
        -22384
    }
}

/// Whether a player standing at `player` can use computer `computer_id`.
pub fn is_able_to_use_computer(player: &Position, computer_id: i32) -> (r: bool)
    requires
        0 <= computer_id < COMPUTER_NUMBER,
    ensures
        r == reaches(player.x as int, player.z as int, computer_id as int),
{
    let mut trigger_x = computer_row_x(computer_id / COMPUTERS_PER_ROW);
    if computer_id % COMPUTERS_PER_ROW >= 4 {
        trigger_x = trigger_x - 2500;
    }
    let trigger_z: i64 = -7380 - (computer_id % 4) as i64 * 4100;
    player.x >= trigger_x - 350 && player.z >= trigger_z - 1800 && player.x <= trigger_x
        && player.z <= trigger_z
}

/// The left room is the right room seen through the offset: a point belongs to
/// it exactly when the point moved by `ROOM_OFFSET` along x belongs to the right
/// room, and every point of the right room, moved back by `ROOM_OFFSET`, may be
/// walked on.
pub proof fn lemma_mirrored_room(x: int, z: int)
    ensures
        mirrored_room(x, z) == room(x + ROOM_OFFSET, z),
        walkable(x, z) == (corridor(x, z) || room(x, z) || room(x + ROOM_OFFSET, z)),
        room(x, z) ==> walkable(x - ROOM_OFFSET, z),
        hiding_spot(x, z) == (hiding_zone(x, z) || hiding_zone(x + ROOM_OFFSET, z)),
{
}

} // verus!
