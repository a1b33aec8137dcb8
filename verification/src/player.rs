//! Player state: a position and a heading angle in fixed-point units.

use crate::fixed::{tdiv, SCALE, TWO_PI_FP};
use crate::map::{map_wf, wall_spec, MAP_HEIGHT, MAP_WIDTH};
use vstd::prelude::*;

verus! {

/// Position `(x, y)` in fixed-point map units and heading `a` in
/// fixed-point radians.
pub struct Player {
    pub x: i64,
    pub y: i64,
    pub a: i64,
}

/// The cell a coordinate falls in: truncation toward zero, which agrees
/// with plain array-index truncation for in-map coordinates.
pub open spec fn cell_of(v: int) -> int {
    tdiv(v, SCALE as int)
}

/// The player stands inside the map on an open cell, with a heading
/// wrapped into one turn.
pub open spec fn player_ok(p: Player, m: Seq<char>) -> bool {
    &&& 0 <= p.x < MAP_WIDTH * (SCALE as int)
    &&& 0 <= p.y < MAP_HEIGHT * (SCALE as int)
    &&& 0 <= p.a < TWO_PI_FP
    &&& m[cell_of(p.y as int) * MAP_WIDTH + cell_of(p.x as int)] != '#'
}

/// The fixed spawn point: cell `(8, 8)`, facing heading `0`.
pub fn spawn_player(map: &Vec<char>) -> (p: Player)
    requires
        map_wf(map@),
    ensures
        player_ok(p, map@),
        p.x == 8 * SCALE && p.y == 8 * SCALE && p.a == 0,
{
    let p = Player { x: 8 * SCALE, y: 8 * SCALE, a: 0 };
    proof {
        assert(cell_of(p.x as int) == 8);
        assert(!wall_spec(8, 8));
    }
    p
}

} // verus!
