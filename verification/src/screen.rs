//! The frame compositor.  Each column's ray sample is turned into a
//! vertical strip — sky above, a wall band shaded by distance, a floor
//! gradient below — and written into a flat character buffer of
//! `SCREEN_WIDTH x SCREEN_HEIGHT` UTF-16 code units.  A small top-left
//! minimap is then drawn over the view, and the buffer's last cell is set
//! to a NUL sentinel for hand-off to a text-mode presenter.
//!
//! The row exactly at the computed ceiling boundary is drawn as sky, so
//! the bands meet without a gap; rows strictly between the ceiling and
//! floor boundaries belong to the wall.

use crate::fixed::{div_trunc, sin_fp, cos_fp, sin_spec, cos_spec, tdiv, lemma_tdiv_abs_bound, SCALE, TWO_PI_FP};
use crate::map::{map_wf, wall_spec, MAP_HEIGHT, MAP_WIDTH};
use crate::player::{cell_of, Player};
use crate::raycast::{cast_ray, march_spec, DEPTH_FP, STEP_FP};
use vstd::prelude::*;

verus! {

/// Columns of the character buffer.
pub const SCREEN_WIDTH: usize = 120;

/// Rows of the character buffer.
pub const SCREEN_HEIGHT: usize = 40;

/// Cells of the character grid.
pub const SCREEN_SIZE: usize = SCREEN_WIDTH * SCREEN_HEIGHT;

/// Field of view: a quarter turn (pi / 4) in fixed-point radians.
pub const FOV_FP: i64 = 785_398;

/// Half the field of view.
pub const HALF_FOV_FP: i64 = 392_699;

/// Blank glyph: sky, a boundary seam, or anything past the far clip.
pub const GLYPH_BLANK: u16 = 32;

/// Full block, the densest wall shade (U+2588).
pub const GLYPH_WALL_NEAR: u16 = 0x2588;

/// Dark shade block (U+2593).
pub const GLYPH_WALL_MID: u16 = 0x2593;

/// Medium shade block (U+2592).
pub const GLYPH_WALL_FAR: u16 = 0x2592;

/// Light shade block (U+2591), the faintest wall shade.
pub const GLYPH_WALL_FAINT: u16 = 0x2591;

/// Nearest floor glyph `'#'`.
pub const GLYPH_FLOOR_NEAR: u16 = 35;

/// Floor glyph `'x'`.
pub const GLYPH_FLOOR_MID: u16 = 120;

/// Floor glyph `'-'`.
pub const GLYPH_FLOOR_FAR: u16 = 45;

/// Faintest floor glyph `'.'`.
pub const GLYPH_FLOOR_FAINT: u16 = 46;

/// Minimap glyph `'P'`: the player's cell.
pub const GLYPH_PLAYER: u16 = 80;

/// Wall glyph `'#'` on the minimap.
pub const GLYPH_MAP_WALL: u16 = 35;

/// Open glyph `'.'` on the minimap.
pub const GLYPH_MAP_OPEN: u16 = 46;

/// Wall shade threshold `DEPTH / 4`.
pub const SHADE_NEAR_FP: i64 = 4_000_000;

/// Wall shade threshold `DEPTH / 3`, truncated to fixed point.
pub const SHADE_MID_FP: i64 = 5_333_333;

/// Wall shade threshold `DEPTH / 2`.
pub const SHADE_FAR_FP: i64 = 8_000_000;

/// Half the screen height in fixed point.
pub const HALF_H_FP: i64 = 20_000_000;

/// The projection numerator `SCREEN_HEIGHT` in fixed point squared:
/// dividing it by a fixed-point distance gives `SCREEN_HEIGHT / distance`
/// in fixed point.
pub const PROJ_NUM_FP: i64 = 40 * 1_000_000 * 1_000_000;

/// Fixed-point floor-gradient step per row: `1 / (SCREEN_HEIGHT / 2)`.
pub const ROW_STEP_FP: i64 = 50_000;

/// The wall glyph for a column: blank on a boundary seam, else one of the
/// four shades by distance bucket, blank past the far clip.
pub open spec fn wall_glyph(dist: int, boundary: bool) -> u16 {
    if boundary {
        GLYPH_BLANK
    } else if dist <= SHADE_NEAR_FP {
        GLYPH_WALL_NEAR
    } else if dist < SHADE_MID_FP {
        GLYPH_WALL_MID
    } else if dist < SHADE_FAR_FP {
        GLYPH_WALL_FAR
    } else if dist < DEPTH_FP {
        GLYPH_WALL_FAINT
    } else {
        GLYPH_BLANK
    }
}

/// How dense a wall shade draws; the blank glyph is the least dense.
pub open spec fn shade_rank(g: u16) -> int {
    if g == GLYPH_WALL_NEAR {
        4
    } else if g == GLYPH_WALL_MID {
        3
    } else if g == GLYPH_WALL_FAR {
        2
    } else if g == GLYPH_WALL_FAINT {
        1
    } else {
        0
    }
}

/// Shading is monotonic in distance: on a non-seam column a farther wall
/// never draws denser than a nearer one.
pub proof fn lemma_shade_monotonic(d1: int, d2: int)
    requires
        d1 <= d2,
    ensures
        shade_rank(wall_glyph(d1, false)) >= shade_rank(wall_glyph(d2, false)),
{
}

/// The floor glyph for a row: the perspective gradient
/// `1 - (row - H/2) / (H/2)` in fixed point, bucketed from `'#'` near the
/// viewer to blank at the horizon.
pub open spec fn floor_glyph(y: int) -> u16 {
    let fd = (SCALE as int) - (y - 20) * ROW_STEP_FP;
    if fd < 250_000 {
        GLYPH_FLOOR_NEAR
    } else if fd < 500_000 {
        GLYPH_FLOOR_MID
    } else if fd < 750_000 {
        GLYPH_FLOOR_FAR
    } else if fd < 900_000 {
        GLYPH_FLOOR_FAINT
    } else {
        GLYPH_BLANK
    }
}

/// The screen row where a wall at `dist` starts: half the screen pushed
/// down by the projected wall height, truncated toward zero.
pub open spec fn ceiling_row(dist: int) -> int {
    tdiv(HALF_H_FP - tdiv(PROJ_NUM_FP as int, dist), SCALE as int)
}

/// The glyph of one cell of a column, given the column's ray sample: sky
/// down to and including the ceiling row, then the wall band, then the
/// floor gradient.
pub open spec fn column_glyph(dist: int, boundary: bool, y: int) -> u16 {
    let c = ceiling_row(dist);
    let f = SCREEN_HEIGHT - c;
    if y <= c {
        GLYPH_BLANK
    } else if y <= f {
        wall_glyph(dist, boundary)
    } else {
        floor_glyph(y)
    }
}

/// The ray angle of a screen column: the heading, swept from half the
/// field of view left of it to half right of it.
pub open spec fn column_angle(a: int, x: int) -> int {
    a - HALF_FOV_FP + tdiv(x * FOV_FP, SCREEN_WIDTH as int)
}

/// The ray sample of one screen column for a player and map.
pub open spec fn column_sample(m: Seq<char>, p: Player, x: int) -> (int, bool) {
    march_spec(
        m,
        p.x as int,
        p.y as int,
        sin_spec(column_angle(p.a as int, x)),
        cos_spec(column_angle(p.a as int, x)),
    )
}

/// The glyph the three-dimensional view puts at column `x`, row `y`.
pub open spec fn frame_glyph(m: Seq<char>, p: Player, x: int, y: int) -> u16 {
    column_glyph(column_sample(m, p, x).0, column_sample(m, p, x).1, y)
}

/// The ceiling row always lies strictly above the floor row, for every
/// distance the march can report: the wall band never collapses or flips.
pub proof fn lemma_bands_ordered(dist: int)
    requires
        STEP_FP <= dist <= DEPTH_FP,
    ensures
        ceiling_row(dist) < SCREEN_HEIGHT - ceiling_row(dist),
        ceiling_row(dist) <= 17,
{
    let q = tdiv(PROJ_NUM_FP as int, dist);
    assert(q == (PROJ_NUM_FP as int) / dist);
    vstd::arithmetic::div_mod::lemma_div_is_ordered_by_denominator(
        PROJ_NUM_FP as int,
        dist,
        DEPTH_FP as int,
    );
    assert(q >= 2_500_000);
    let c = HALF_H_FP - q;
    if c >= 0 {
        vstd::arithmetic::div_mod::lemma_div_is_ordered(c, 17_500_000, SCALE as int);
    }
}

/// In every rendered column the ceiling row lies strictly above the floor
/// row, whatever the map, the player state and the column: the sky, wall
/// and floor bands of a frame always stack in order.
pub proof fn lemma_frame_bands(m: Seq<char>, p: Player, x: int)
    ensures
        ceiling_row(column_sample(m, p, x).0) < SCREEN_HEIGHT - ceiling_row(
            column_sample(m, p, x).0,
        ),
{
    let ex = sin_spec(column_angle(p.a as int, x));
    let ey = cos_spec(column_angle(p.a as int, x));
    crate::raycast::lemma_first_hit_range(m, p.x as int, p.y as int, ex, ey, 1);
    lemma_bands_ordered(column_sample(m, p, x).0);
}

/// A fresh, all-blank (NUL) character buffer of exactly one grid.
pub fn init_screen() -> (screen: Vec<u16>)
    ensures
        screen@.len() == SCREEN_SIZE,
        forall|i: int| 0 <= i < screen@.len() ==> screen@[i] == 0,
{
    let mut screen: Vec<u16> = Vec::new();
    let mut i: usize = 0;
    while i < SCREEN_SIZE
        invariant
            i <= SCREEN_SIZE,
            screen@.len() == i,
            forall|k: int| 0 <= k < i ==> screen@[k] == 0,
        decreases SCREEN_SIZE - i,
    {
        screen.push(0);
        i = i + 1;
    }
    screen
}

/// Renders the three-dimensional view: for every screen column a ray is
/// cast and the column is filled per [`frame_glyph`].
pub fn update_screen(screen: &mut Vec<u16>, player: &Player, map: &Vec<char>)
    requires
        old(screen)@.len() == SCREEN_SIZE,
        map@.len() == MAP_WIDTH * MAP_HEIGHT,
        0 <= player.x <= 16_000_000,
        0 <= player.y <= 16_000_000,
        0 <= player.a < TWO_PI_FP,
    ensures
        final(screen)@.len() == SCREEN_SIZE,
        forall|x: int, y: int|
            0 <= x < SCREEN_WIDTH && 0 <= y < SCREEN_HEIGHT ==> final(screen)@[y * SCREEN_WIDTH
                + x] == frame_glyph(map@, *player, x, y),
{
    let mut x: usize = 0;
    while x < SCREEN_WIDTH
        invariant
            screen@.len() == SCREEN_SIZE,
            x <= SCREEN_WIDTH,
            map@.len() == MAP_WIDTH * MAP_HEIGHT,
            0 <= player.x <= 16_000_000,
            0 <= player.y <= 16_000_000,
            0 <= player.a < TWO_PI_FP,
            forall|xx: int, yy: int|
                0 <= xx < x && 0 <= yy < SCREEN_HEIGHT ==> screen@[yy * SCREEN_WIDTH + xx]
                    == frame_glyph(map@, *player, xx, yy),
        decreases SCREEN_WIDTH - x,
    {
        let angle = player.a - HALF_FOV_FP + div_trunc((x as i64) * FOV_FP, SCREEN_WIDTH as i64);
        let ex = sin_fp(angle);
        let ey = cos_fp(angle);
        let sample = cast_ray(map, player.x, player.y, ex, ey);
        proof {
            assert((sample.distance as int, sample.boundary) == column_sample(
                map@,
                *player,
                x as int,
            ));
        }
        proof {
            crate::fixed::lemma_tdiv_nonneg_bound(
                PROJ_NUM_FP as int,
                PROJ_NUM_FP as int,
                sample.distance as int,
            );
            vstd::arithmetic::div_mod::lemma_div_is_ordered_by_denominator(
                PROJ_NUM_FP as int,
                STEP_FP as int,
                sample.distance as int,
            );
        }
        let c_fp = HALF_H_FP - div_trunc(PROJ_NUM_FP, sample.distance);
        proof {
            lemma_tdiv_abs_bound(c_fp as int, 400_000_000int, SCALE as int);
        }
        let c_row = div_trunc(c_fp, SCALE);
        let f_row: i64 = SCREEN_HEIGHT as i64 - c_row;
        let mut y: usize = 0;
        while y < SCREEN_HEIGHT
            invariant
                screen@.len() == SCREEN_SIZE,
                x < SCREEN_WIDTH,
                y <= SCREEN_HEIGHT,
                (sample.distance as int, sample.boundary) == column_sample(map@, *player, x as int),
                c_row == ceiling_row(sample.distance as int),
                f_row == SCREEN_HEIGHT - c_row,
                STEP_FP <= sample.distance <= DEPTH_FP,
                forall|xx: int, yy: int|
                    0 <= xx < x && 0 <= yy < SCREEN_HEIGHT ==> screen@[yy * SCREEN_WIDTH + xx]
                        == frame_glyph(map@, *player, xx, yy),
                forall|yy: int|
                    0 <= yy < y ==> screen@[yy * SCREEN_WIDTH + x] == frame_glyph(
                        map@,
                        *player,
                        x as int,
                        yy,
                    ),
            decreases SCREEN_HEIGHT - y,
        {
            let yi = y as i64;
            let g: u16 = if yi <= c_row {
                GLYPH_BLANK
            } else if yi <= f_row {
                if sample.boundary {
                    GLYPH_BLANK
                } else if sample.distance <= SHADE_NEAR_FP {
                    GLYPH_WALL_NEAR
                } else if sample.distance < SHADE_MID_FP {
                    GLYPH_WALL_MID
                } else if sample.distance < SHADE_FAR_FP {
                    GLYPH_WALL_FAR
                } else if sample.distance < DEPTH_FP {
                    GLYPH_WALL_FAINT
                } else {
                    GLYPH_BLANK
                }
            } else {
                let fd = SCALE - (yi - 20) * ROW_STEP_FP;
                if fd < 250_000 {
                    GLYPH_FLOOR_NEAR
                } else if fd < 500_000 {
                    GLYPH_FLOOR_MID
                } else if fd < 750_000 {
                    GLYPH_FLOOR_FAR
                } else if fd < 900_000 {
                    GLYPH_FLOOR_FAINT
                } else {
                    GLYPH_BLANK
                }
            };
            proof {
                assert(g == frame_glyph(map@, *player, x as int, y as int));
            }
            screen.set(y * SCREEN_WIDTH + x, g);
            y = y + 1;
        }
        x = x + 1;
    }
}

/// The glyph of one minimap cell: `'P'` on the player's cell, else the
/// map's own wall or open glyph.
pub open spec fn minimap_glyph(p: Player, nx: int, ny: int) -> u16 {
    if cell_of(p.x as int) == nx && cell_of(p.y as int) == ny {
        GLYPH_PLAYER
    } else if wall_spec(nx, ny) {
        GLYPH_MAP_WALL
    } else {
        GLYPH_MAP_OPEN
    }
}

/// A buffer index belongs to the minimap overlay block: rows 1 through
/// `MAP_HEIGHT`, columns 0 through `MAP_WIDTH - 1`.
pub open spec fn in_minimap(i: int) -> bool {
    (SCREEN_WIDTH as int) <= i < (MAP_HEIGHT + 1) * SCREEN_WIDTH && i % (SCREEN_WIDTH as int)
        < MAP_WIDTH
}

/// Draws the minimap block at row offset 1, marking the player's cell
/// with `'P'`; every cell outside the block keeps its glyph.
pub fn draw_map(screen: &mut Vec<u16>, player: &Player, map: &Vec<char>)
    requires
        old(screen)@.len() == SCREEN_SIZE,
        map_wf(map@),
        0 <= player.x,
        0 <= player.y,
    ensures
        final(screen)@.len() == SCREEN_SIZE,
        forall|nx: int, ny: int|
            0 <= nx < MAP_WIDTH && 0 <= ny < MAP_HEIGHT ==> final(screen)@[(ny + 1) * SCREEN_WIDTH
                + nx] == minimap_glyph(*player, nx, ny),
        forall|i: int|
            0 <= i < final(screen)@.len() && !in_minimap(i) ==> final(screen)@[i] == old(
                screen,
            )@[i],
{
    let pcx = div_trunc(player.x, SCALE);
    let pcy = div_trunc(player.y, SCALE);
    let mut nx: usize = 0;
    while nx < MAP_WIDTH
        invariant
            screen@.len() == SCREEN_SIZE,
            nx <= MAP_WIDTH,
            map_wf(map@),
            pcx == cell_of(player.x as int),
            pcy == cell_of(player.y as int),
            forall|i: int, j: int|
                0 <= i < nx && 0 <= j < MAP_HEIGHT ==> screen@[(j + 1) * SCREEN_WIDTH + i]
                    == minimap_glyph(*player, i, j),
            forall|i: int|
                0 <= i < screen@.len() && !in_minimap(i) ==> screen@[i] == old(screen)@[i],
        decreases MAP_WIDTH - nx,
    {
        let mut ny: usize = 0;
        while ny < MAP_HEIGHT
            invariant
                screen@.len() == SCREEN_SIZE,
                nx < MAP_WIDTH,
                ny <= MAP_HEIGHT,
                map_wf(map@),
                pcx == cell_of(player.x as int),
                pcy == cell_of(player.y as int),
                forall|i: int, j: int|
                    0 <= i < nx && 0 <= j < MAP_HEIGHT ==> screen@[(j + 1) * SCREEN_WIDTH + i]
                        == minimap_glyph(*player, i, j),
                forall|j: int|
                    0 <= j < ny ==> screen@[(j + 1) * SCREEN_WIDTH + nx] == minimap_glyph(
                        *player,
                        nx as int,
                        j,
                    ),
                forall|i: int|
                    0 <= i < screen@.len() && !in_minimap(i) ==> screen@[i] == old(screen)@[i],
            decreases MAP_HEIGHT - ny,
        {
            let g: u16 = if pcx == nx as i64 && pcy == ny as i64 {
                GLYPH_PLAYER
            } else {
                if map[ny * MAP_WIDTH + nx] == '#' {
                    GLYPH_MAP_WALL
                } else {
                    GLYPH_MAP_OPEN
                }
            };
            let idx = (ny + 1) * SCREEN_WIDTH + nx;
            proof {
                assert(g == minimap_glyph(*player, nx as int, ny as int));
                vstd::arithmetic::div_mod::lemma_mod_multiples_vanish(
                    ny as int + 1,
                    nx as int,
                    SCREEN_WIDTH as int,
                );
                assert(in_minimap(idx as int));
            }
            screen.set(idx, g);
            ny = ny + 1;
        }
        nx = nx + 1;
    }
}

/// Composes one full frame: the three-dimensional view, then the minimap
/// over its top-left corner, then the NUL sentinel in the last grid cell.
/// Every cell of the grid is pinned: minimap block, sentinel, or the
/// column glyph of the view.
pub fn render_frame(screen: &mut Vec<u16>, player: &Player, map: &Vec<char>)
    requires
        old(screen)@.len() == SCREEN_SIZE,
        map_wf(map@),
        0 <= player.x <= 16_000_000,
        0 <= player.y <= 16_000_000,
        0 <= player.a < TWO_PI_FP,
    ensures
        final(screen)@.len() == SCREEN_SIZE,
        forall|nx: int, ny: int|
            0 <= nx < MAP_WIDTH && 0 <= ny < MAP_HEIGHT ==> final(screen)@[(ny + 1) * SCREEN_WIDTH
                + nx] == minimap_glyph(*player, nx, ny),
        forall|x: int, y: int|
            0 <= x < SCREEN_WIDTH && 0 <= y < SCREEN_HEIGHT && !in_minimap(y * SCREEN_WIDTH + x)
                && y * SCREEN_WIDTH + x != SCREEN_SIZE - 1 ==> final(screen)@[y * SCREEN_WIDTH + x]
                == frame_glyph(map@, *player, x, y),
        final(screen)@[SCREEN_SIZE - 1] == 0,
{
    update_screen(screen, player, map);
    draw_map(screen, player, map);
    screen.set(SCREEN_SIZE - 1, 0);
    proof {
        assert(!in_minimap(SCREEN_SIZE - 1));
    }
}

} // verus!
