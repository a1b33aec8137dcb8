//! The controller: turns the held state of the four logical keys and the
//! time since the previous frame into a player update.  Turning always
//! applies; a move whose target cell is a wall (or lies outside the map)
//! is reverted in full — collision means full stop, no sliding.

use crate::fixed::{
    cos_spec, div_trunc, lemma_tdiv_abs_bound, sin_spec, tdiv, SCALE, TWO_PI_FP,
};
use crate::fixed::{cos_fp, sin_fp, wrap_angle};
use crate::map::{is_wall, map_wf, wall_spec, MAP_HEIGHT, MAP_WIDTH};
use crate::player::{cell_of, player_ok, Player};
use vstd::prelude::*;

verus! {

/// Held state of the four logical inputs, polled once per frame.
pub struct KeyState {
    pub left: bool,
    pub right: bool,
    pub forward: bool,
    pub backward: bool,
}

/// Base move speed: five map units per second, in fixed point.
pub const MOVE_SPEED_FP: i64 = 5_000_000;

/// Turn rate: the move speed scaled by the rotation factor 0.75,
/// in fixed-point radians per second.
pub const ROT_RATE_FP: i64 = 3_750_000;

/// Largest frame interval accepted, in fixed-point seconds (1000 s);
/// a machine bound so scaled offsets stay inside `i64`.
pub const DT_MAX_FP: i64 = 1_000_000_000;

/// How far the heading turns in one frame of length `dt`.
pub open spec fn turn_delta(dt: int) -> int {
    tdiv(ROT_RATE_FP * dt, SCALE as int)
}

/// The heading after this frame's turning, wrapped into one turn.
pub open spec fn turned_heading(a: int, keys: KeyState, dt: int) -> int {
    let d = turn_delta(dt);
    let l: int = if keys.left {
        d
    } else {
        0
    };
    let r: int = if keys.right {
        d
    } else {
        0
    };
    (a - l + r) % (TWO_PI_FP as int)
}

/// The per-frame move offset along a heading: the unit direction
/// `(sin a, cos a)` scaled by the move speed and the frame time.
pub open spec fn move_offset(a: int, dt: int) -> (int, int) {
    (
        tdiv(tdiv(sin_spec(a) * MOVE_SPEED_FP, SCALE as int) * dt, SCALE as int),
        tdiv(tdiv(cos_spec(a) * MOVE_SPEED_FP, SCALE as int) * dt, SCALE as int),
    )
}

/// A position is blocked when its cell lies outside the map or is a wall.
pub open spec fn blocked(m: Seq<char>, x: int, y: int) -> bool {
    ||| cell_of(x) < 0
    ||| cell_of(x) >= MAP_WIDTH
    ||| cell_of(y) < 0
    ||| cell_of(y) >= MAP_HEIGHT
    ||| m[cell_of(y) * MAP_WIDTH + cell_of(x)] == '#'
}

/// One tentative move: the offset applies in full, or not at all when the
/// target is blocked.
pub open spec fn stepped(m: Seq<char>, x: int, y: int, ox: int, oy: int) -> (int, int) {
    if blocked(m, x + ox, y + oy) {
        (x, y)
    } else {
        (x + ox, y + oy)
    }
}

/// The whole frame update: turn, then the forward move, then the backward
/// move, each collision-checked on its own.
pub open spec fn controller_spec(p: Player, keys: KeyState, dt: int, m: Seq<char>) -> (int, int, int) {
    let a2 = turned_heading(p.a as int, keys, dt);
    let off = move_offset(a2, dt);
    let pos1 = if keys.forward {
        stepped(m, p.x as int, p.y as int, off.0, off.1)
    } else {
        (p.x as int, p.y as int)
    };
    let pos2 = if keys.backward {
        stepped(m, pos1.0, pos1.1, -off.0, -off.1)
    } else {
        pos1
    };
    (pos2.0, pos2.1, a2)
}

/// Applies one tentative move to the player, reverting it in full when the
/// target cell is a wall or lies outside the map.
fn try_move(player: &mut Player, map: &Vec<char>, ox: i64, oy: i64)
    requires
        map_wf(map@),
        -5_000_000_000 <= ox <= 5_000_000_000,
        -5_000_000_000 <= oy <= 5_000_000_000,
        0 <= old(player).x < MAP_WIDTH * (SCALE as int),
        0 <= old(player).y < MAP_HEIGHT * (SCALE as int),
    ensures
        (final(player).x as int, final(player).y as int) == stepped(
            map@,
            old(player).x as int,
            old(player).y as int,
            ox as int,
            oy as int,
        ),
        final(player).a == old(player).a,
        0 <= final(player).x < MAP_WIDTH * (SCALE as int),
        0 <= final(player).y < MAP_HEIGHT * (SCALE as int),
        !blocked(map@, final(player).x as int, final(player).y as int) || blocked(
            map@,
            old(player).x as int,
            old(player).y as int,
        ),
{
    let nx = player.x + ox;
    let ny = player.y + oy;
    let cx = div_trunc(nx, SCALE);
    let cy = div_trunc(ny, SCALE);
    proof {
        lemma_tdiv_abs_bound(nx as int, 5_016_000_000, SCALE as int);
        lemma_tdiv_abs_bound(ny as int, 5_016_000_000, SCALE as int);
    }
    let hit = cx < 0 || cx >= MAP_WIDTH as i64 || cy < 0 || cy >= MAP_HEIGHT as i64 || is_wall(
        map,
        cx as usize,
        cy as usize,
    );
    if !hit {
        proof {
            assert(!wall_spec(cx as int, cy as int));
            assert(cx >= 1 && cx <= 14 && cy >= 1 && cy <= 14);
            assert(nx >= SCALE && ny >= SCALE) by {
                lemma_cell_lower(nx as int, cx as int);
                lemma_cell_lower(ny as int, cy as int);
            }
            assert(nx < 15 * SCALE && ny < 15 * SCALE) by {
                lemma_cell_upper(nx as int, cx as int);
                lemma_cell_upper(ny as int, cy as int);
            }
        }
        player.x = nx;
        player.y = ny;
    }
}

/// A coordinate in a cell at column 1 or beyond is at least one map unit.
proof fn lemma_cell_lower(v: int, c: int)
    requires
        c == cell_of(v),
        c >= 1,
    ensures
        v >= c * SCALE,
{
    if v < 0 {
        vstd::arithmetic::div_mod::lemma_div_pos_is_pos(-v, SCALE as int);
    }
    vstd::arithmetic::div_mod::lemma_fundamental_div_mod(v, SCALE as int);
    vstd::arithmetic::div_mod::lemma_mod_bound(v, SCALE as int);
}

/// A coordinate in a cell before the last column stays under that bound.
proof fn lemma_cell_upper(v: int, c: int)
    requires
        c == cell_of(v),
        0 <= c,
    ensures
        v < (c + 1) * SCALE,
{
    if v >= 0 {
        vstd::arithmetic::div_mod::lemma_fundamental_div_mod(v, SCALE as int);
        vstd::arithmetic::div_mod::lemma_mod_bound(v, SCALE as int);
    } else {
        vstd::arithmetic::div_mod::lemma_div_pos_is_pos(-v, SCALE as int);
    }
}

/// The frame update for one set of held keys: the turn keys rotate the
/// heading, the forward key steps along it, the backward key steps
/// against it; each move is reverted when it would enter a wall cell.
pub fn handle_controls(player: &mut Player, delta_time: i64, map: &Vec<char>, keys: &KeyState)
    requires
        map_wf(map@),
        player_ok(*old(player), map@),
        0 <= delta_time <= DT_MAX_FP,
    ensures
        (final(player).x as int, final(player).y as int, final(player).a as int)
            == controller_spec(*old(player), *keys, delta_time as int, map@),
        player_ok(*final(player), map@),
{
    proof {
        assert(ROT_RATE_FP * delta_time <= 3_750_000_000_000_000int) by (nonlinear_arith)
            requires
                0 <= delta_time <= 1_000_000_000,
                ROT_RATE_FP == 3_750_000,
        ;
        lemma_tdiv_abs_bound(ROT_RATE_FP * delta_time, 3_750_000_000_000_000int, SCALE as int);
    }
    let delta = div_trunc(ROT_RATE_FP * delta_time, SCALE);
    let mut a = player.a;
    if keys.left {
        a = a - delta;
    }
    if keys.right {
        a = a + delta;
    }
    let a2 = wrap_angle(a);
    player.a = a2;
    if keys.forward || keys.backward {
        let sa = sin_fp(a2);
        let ca = cos_fp(a2);
        proof {
            assert(-5_000_000_000_000int <= sa * MOVE_SPEED_FP <= 5_000_000_000_000int)
                by (nonlinear_arith)
                requires
                    -1_000_000 <= sa <= 1_000_000,
                    MOVE_SPEED_FP == 5_000_000,
            ;
            assert(-5_000_000_000_000int <= ca * MOVE_SPEED_FP <= 5_000_000_000_000int)
                by (nonlinear_arith)
                requires
                    -1_000_000 <= ca <= 1_000_000,
                    MOVE_SPEED_FP == 5_000_000,
            ;
            lemma_tdiv_abs_bound(sa * MOVE_SPEED_FP, 5_000_000_000_000int, SCALE as int);
            lemma_tdiv_abs_bound(ca * MOVE_SPEED_FP, 5_000_000_000_000int, SCALE as int);
        }
        let vx = div_trunc(sa * MOVE_SPEED_FP, SCALE);
        let vy = div_trunc(ca * MOVE_SPEED_FP, SCALE);
        proof {
            assert(-5_000_000_000_000_000int <= vx * delta_time <= 5_000_000_000_000_000int)
                by (nonlinear_arith)
                requires
                    -5_000_000 <= vx <= 5_000_000,
                    0 <= delta_time <= 1_000_000_000,
            ;
            assert(-5_000_000_000_000_000int <= vy * delta_time <= 5_000_000_000_000_000int)
                by (nonlinear_arith)
                requires
                    -5_000_000 <= vy <= 5_000_000,
                    0 <= delta_time <= 1_000_000_000,
            ;
            lemma_tdiv_abs_bound(vx * delta_time, 5_000_000_000_000_000int, SCALE as int);
            lemma_tdiv_abs_bound(vy * delta_time, 5_000_000_000_000_000int, SCALE as int);
        }
        let ox = div_trunc(vx * delta_time, SCALE);
        let oy = div_trunc(vy * delta_time, SCALE);
        if keys.forward {
            try_move(player, map, ox, oy);
        }
        if keys.backward {
            try_move(player, map, -ox, -oy);
        }
    }
}

/// Collision rejection: when the forward move of a frame aims into a
/// blocked cell, the position after the update equals the position before
/// it, while the turning of the same frame still applies.
pub proof fn lemma_collision_rejection(p: Player, keys: KeyState, dt: int, m: Seq<char>)
    requires
        keys.forward,
        !keys.backward,
        blocked(
            m,
            p.x + move_offset(turned_heading(p.a as int, keys, dt), dt).0,
            p.y + move_offset(turned_heading(p.a as int, keys, dt), dt).1,
        ),
    ensures
        controller_spec(p, keys, dt, m).0 == p.x,
        controller_spec(p, keys, dt, m).1 == p.y,
        controller_spec(p, keys, dt, m).2 == turned_heading(p.a as int, keys, dt),
{
}

} // verus!
