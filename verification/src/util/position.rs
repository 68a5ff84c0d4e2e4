//! Counting the tiles around a position that a creep can stand on.

use vstd::prelude::*;
use crate::room::RoomRectangle;
use crate::world::Position;
use crate::world::Room;

verus! {

/// 1 where the tile at (`x`, `y`) cannot be stood on, because it holds wall
/// or lies outside the room; 0 where it can.
pub open spec fn blocked(grid: RoomRectangle, x: int, y: int) -> int {
    if 0 <= x < 50 && 0 <= y < 50 && !grid.has_wall(x, y) {
        0
    } else {
        1
    }
}

/// Number of the eight tiles around (`x`, `y`) that cannot be stood on.
pub open spec fn blocked_around(grid: RoomRectangle, x: int, y: int) -> int {
    blocked(grid, x - 1, y - 1) + blocked(grid, x - 1, y) + blocked(grid, x - 1, y + 1) + blocked(
        grid,
        x,
        y - 1,
    ) + blocked(grid, x, y + 1) + blocked(grid, x + 1, y - 1) + blocked(grid, x + 1, y) + blocked(
        grid,
        x + 1,
        y + 1,
    )
}

/// Number of the eight tiles around (`x`, `y`) that can be stood on.
pub open spec fn open_around(grid: RoomRectangle, x: int, y: int) -> int {
    8 - blocked_around(grid, x, y)
}

pub struct PositionCalculator;

impl PositionCalculator {
    fn blocked_at(grid: &RoomRectangle, x: i16, y: i16) -> (count: usize)
        requires
            -1 <= x <= 256,
            -1 <= y <= 256,
        ensures
            count == blocked(*grid, x as int, y as int),
    {
        if 0 <= x && x < 50 && 0 <= y && y < 50 {
            let index: usize = (x + y * 50) as usize;
            if grid.spaces[index] % 2 == 1 {
                1
            } else {
                0
            }
        } else {
            1
        }
    }

    /// Counts the tiles around `position` that a creep can stand on: eight,
    /// less one for each neighbour that holds wall or lies outside the room.
    pub fn spaces_around(room: &Room, position: Position) -> (space_limit: usize)
        ensures
            space_limit == open_around(room.terrain, position.x as int, position.y as int),
            space_limit <= 8,
    {
        let x: i16 = position.x as i16;
        let y: i16 = position.y as i16;
        let grid = &room.terrain;
        let walls: usize = Self::blocked_at(grid, x - 1, y - 1) + Self::blocked_at(grid, x - 1, y)
            + Self::blocked_at(grid, x - 1, y + 1) + Self::blocked_at(grid, x, y - 1)
            + Self::blocked_at(grid, x, y + 1) + Self::blocked_at(grid, x + 1, y - 1)
            + Self::blocked_at(grid, x + 1, y) + Self::blocked_at(grid, x + 1, y + 1);
        8 - walls
    }
}

} // verus!
