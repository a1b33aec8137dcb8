//! The raycast engine.  For one screen column a ray leaves the player
//! along a unit direction and is marched in fixed steps until its sample
//! point leaves the map (far clip) or lands in a wall cell.  A wall hit is
//! then classified: when the ray passes close to one of the two nearest
//! corners of the hit cell, the column is a boundary seam and is drawn
//! dark, which outlines the wall grid.

use crate::fixed::{
    div_trunc, isqrt, lemma_sqrt_of_is, lemma_tdiv_abs_bound, sqrt_of, tdiv, SCALE,
};
use crate::map::{is_wall, MAP_HEIGHT, MAP_WIDTH};
use crate::player::cell_of;
use vstd::prelude::*;

verus! {

/// Far clip: a ray that leaves the map reports this distance (16 map
/// units, in fixed point).
pub const DEPTH_FP: i64 = 16_000_000;

/// March step: 0.1 map units, in fixed point.
pub const STEP_FP: i64 = 100_000;

/// Iteration cap of the march: `DEPTH / STEP + 1` samples; the march
/// cannot run longer whatever the map holds.
pub const MAX_MARCH_STEPS: i64 = 161;

/// Seam threshold: the cosine of the boundary angle (0.01 rad) in fixed
/// point; a corner counts as dead ahead when its direction's dot product
/// with the ray exceeds this.
pub const COS_BOUND_FP: i64 = 999_950;

/// Per-column result of the engine.
pub struct RaySample {
    pub distance: i64,
    pub boundary: bool,
}

/// The cell column (or row) in which a ray sample lies: the player
/// coordinate plus the scaled direction component, truncated to a cell.
pub open spec fn sample_cell(p: int, e: int, d: int) -> int {
    cell_of(p + tdiv(e * d, SCALE as int))
}

/// The sample at distance `d` lies outside the map.
pub open spec fn sample_oob(px: int, py: int, ex: int, ey: int, d: int) -> bool {
    ||| sample_cell(px, ex, d) < 0
    ||| sample_cell(px, ex, d) >= MAP_WIDTH
    ||| sample_cell(py, ey, d) < 0
    ||| sample_cell(py, ey, d) >= MAP_HEIGHT
}

/// The sample at distance `d` lies in a wall cell of the map.
pub open spec fn sample_wall(m: Seq<char>, px: int, py: int, ex: int, ey: int, d: int) -> bool {
    &&& !sample_oob(px, py, ex, ey, d)
    &&& m[sample_cell(py, ey, d) * MAP_WIDTH + sample_cell(px, ex, d)] == '#'
}

/// The march stops at step `i`: the sample has left the map or hit a wall.
pub open spec fn hit_at(m: Seq<char>, px: int, py: int, ex: int, ey: int, i: int) -> bool {
    ||| sample_oob(px, py, ex, ey, i * STEP_FP)
    ||| sample_wall(m, px, py, ex, ey, i * STEP_FP)
}

/// The first step at or after `i` where the march stops, or
/// `MAX_MARCH_STEPS + 1` when it runs into the iteration cap.
pub open spec fn first_hit_from(
    m: Seq<char>,
    px: int,
    py: int,
    ex: int,
    ey: int,
    i: int,
) -> int
    decreases MAX_MARCH_STEPS + 1 - i when i <= MAX_MARCH_STEPS + 1
{
    if i > MAX_MARCH_STEPS {
        MAX_MARCH_STEPS + 1
    } else if hit_at(m, px, py, ex, ey, i) {
        i
    } else {
        first_hit_from(m, px, py, ex, ey, i + 1)
    }
}

/// The march always stops within the iteration cap: the stopping step
/// counted from `i` stays between `i` and `MAX_MARCH_STEPS + 1`.
pub proof fn lemma_first_hit_range(m: Seq<char>, px: int, py: int, ex: int, ey: int, i: int)
    requires
        1 <= i <= MAX_MARCH_STEPS + 1,
    ensures
        i <= first_hit_from(m, px, py, ex, ey, i) <= MAX_MARCH_STEPS + 1,
    decreases MAX_MARCH_STEPS + 1 - i,
{
    if i <= MAX_MARCH_STEPS && !hit_at(m, px, py, ex, ey, i) {
        lemma_first_hit_range(m, px, py, ex, ey, i + 1);
    }
}

/// Distance and ray-angle cosine for one corner of a hit cell: the
/// corner's distance from the player, and the dot product of the ray with
/// the unit direction toward the corner.  A corner the player stands on
/// contributes a zero dot product (its direction is undefined).
pub open spec fn corner_pair(
    px: int,
    py: int,
    ex: int,
    ey: int,
    cx: int,
    cy: int,
    tx: int,
    ty: int,
) -> (int, int) {
    let vx = (cx + tx) * (SCALE as int) - px;
    let vy = (cy + ty) * (SCALE as int) - py;
    let dd = sqrt_of(vx * vx + vy * vy);
    let dot = if dd == 0 {
        0
    } else {
        tdiv(ex * vx, dd) + tdiv(ey * vy, dd)
    };
    (dd, dot)
}

/// The four corners of the cell `(cx, cy)`, in a fixed order.
pub open spec fn corner_seq(px: int, py: int, ex: int, ey: int, cx: int, cy: int) -> Seq<
    (int, int),
> {
    seq![
        corner_pair(px, py, ex, ey, cx, cy, 0, 0),
        corner_pair(px, py, ex, ey, cx, cy, 0, 1),
        corner_pair(px, py, ex, ey, cx, cy, 1, 0),
        corner_pair(px, py, ex, ey, cx, cy, 1, 1),
    ]
}

/// `i` is the earliest index of smallest distance in `s`.
pub open spec fn is_first_min(s: Seq<(int, int)>, i: int) -> bool {
    &&& 0 <= i < s.len()
    &&& forall|k: int| 0 <= k < s.len() ==> s[i].0 <= #[trigger] s[k].0
    &&& forall|k: int| 0 <= k < i ==> #[trigger] s[k].0 > s[i].0
}

/// `i1` is the earliest index of smallest distance in `s` leaving out
/// `i0`.
pub open spec fn is_second_min(s: Seq<(int, int)>, i0: int, i1: int) -> bool {
    &&& 0 <= i1 < s.len()
    &&& i1 != i0
    &&& forall|k: int| 0 <= k < s.len() && k != i0 ==> s[i1].0 <= #[trigger] s[k].0
    &&& forall|k: int| 0 <= k < i1 && k != i0 ==> #[trigger] s[k].0 > s[i1].0
}

/// There is only one earliest index of smallest distance.
pub proof fn lemma_first_min_unique(s: Seq<(int, int)>, i: int, j: int)
    requires
        is_first_min(s, i),
        is_first_min(s, j),
    ensures
        i == j,
{
    if i < j {
        assert(s[i].0 > s[j].0);
        assert(s[j].0 <= s[i].0);
    }
    if j < i {
        assert(s[j].0 > s[i].0);
        assert(s[i].0 <= s[j].0);
    }
}

/// There is only one earliest second-smallest index for a given first.
pub proof fn lemma_second_min_unique(s: Seq<(int, int)>, i0: int, i: int, j: int)
    requires
        is_second_min(s, i0, i),
        is_second_min(s, i0, j),
    ensures
        i == j,
{
    if i < j {
        assert(s[i].0 > s[j].0);
        assert(s[j].0 <= s[i].0);
    }
    if j < i {
        assert(s[j].0 > s[i].0);
        assert(s[i].0 <= s[j].0);
    }
}

/// A column is a boundary seam when either of the two nearest corners of
/// the hit cell lies dead ahead of the ray: its dot product exceeds
/// [`COS_BOUND_FP`].
pub open spec fn boundary_spec(s: Seq<(int, int)>) -> bool {
    let i0 = choose|i: int| is_first_min(s, i);
    let i1 = choose|i: int| is_second_min(s, i0, i);
    s[i0].1 > COS_BOUND_FP || s[i1].1 > COS_BOUND_FP
}

/// [`boundary_spec`] read off any pair of witnesses for the two nearest
/// corners.
pub proof fn lemma_boundary_char(s: Seq<(int, int)>, i0: int, i1: int)
    requires
        is_first_min(s, i0),
        is_second_min(s, i0, i1),
    ensures
        boundary_spec(s) == (s[i0].1 > COS_BOUND_FP || s[i1].1 > COS_BOUND_FP),
{
    let c0 = choose|i: int| is_first_min(s, i);
    assert(is_first_min(s, c0));
    lemma_first_min_unique(s, c0, i0);
    let c1 = choose|i: int| is_second_min(s, c0, i);
    assert(is_second_min(s, c0, c1));
    lemma_second_min_unique(s, c0, c1, i1);
}

/// Every four-corner sequence has an earliest minimal index.
pub proof fn lemma_first_min_exists4(s: Seq<(int, int)>)
    requires
        s.len() == 4,
    ensures
        exists|i: int| is_first_min(s, i),
{
    let a: int = if s[1].0 < s[0].0 {
        1
    } else {
        0
    };
    let b: int = if s[2].0 < s[a].0 {
        2
    } else {
        a
    };
    let c: int = if s[3].0 < s[b].0 {
        3
    } else {
        b
    };
    assert(is_first_min(s, c));
}

/// Every four-corner sequence has an earliest second-minimal index.
pub proof fn lemma_second_min_exists4(s: Seq<(int, int)>, i0: int)
    requires
        s.len() == 4,
        0 <= i0 < 4,
    ensures
        exists|i: int| is_second_min(s, i0, i),
{
    let a: int = if i0 == 0 {
        1
    } else {
        0
    };
    let b: int = if 1 != i0 && 1 > a && s[1].0 < s[a].0 {
        1
    } else {
        a
    };
    let c: int = if 2 != i0 && s[2].0 < s[b].0 {
        2
    } else {
        b
    };
    let d: int = if 3 != i0 && s[3].0 < s[c].0 {
        3
    } else {
        c
    };
    assert(is_second_min(s, i0, d));
}

/// Seam classification is positive when the nearest corner of the hit
/// cell lies dead ahead of the ray.
pub proof fn lemma_seam_near_corner(s: Seq<(int, int)>, i0: int)
    requires
        s.len() == 4,
        is_first_min(s, i0),
        s[i0].1 > COS_BOUND_FP,
    ensures
        boundary_spec(s),
{
    lemma_second_min_exists4(s, i0);
    let i1 = choose|i: int| is_second_min(s, i0, i);
    assert(is_second_min(s, i0, i1));
    lemma_boundary_char(s, i0, i1);
}

/// Seam classification is negative on a flat wall face: when no corner of
/// the hit cell lies near the ray, the column is no seam.
pub proof fn lemma_no_seam_far_from_corners(s: Seq<(int, int)>)
    requires
        s.len() == 4,
        forall|k: int| 0 <= k < 4 ==> #[trigger] s[k].1 <= COS_BOUND_FP,
    ensures
        !boundary_spec(s),
{
    lemma_first_min_exists4(s);
    let i0 = choose|i: int| is_first_min(s, i);
    assert(is_first_min(s, i0));
    lemma_second_min_exists4(s, i0);
    let i1 = choose|i: int| is_second_min(s, i0, i);
    assert(is_second_min(s, i0, i1));
    lemma_boundary_char(s, i0, i1);
}

/// Distance and dot product for one corner, exact per [`corner_pair`].
fn corner_metrics(px: i64, py: i64, ex: i64, ey: i64, cx: i64, cy: i64, tx: i64, ty: i64) -> (r: (
    i64,
    i64,
))
    requires
        0 <= px <= 16_000_000,
        0 <= py <= 16_000_000,
        -SCALE <= ex <= SCALE,
        -SCALE <= ey <= SCALE,
        0 <= cx < MAP_WIDTH,
        0 <= cy < MAP_HEIGHT,
        0 <= tx <= 1,
        0 <= ty <= 1,
    ensures
        (r.0 as int, r.1 as int) == corner_pair(
            px as int,
            py as int,
            ex as int,
            ey as int,
            cx as int,
            cy as int,
            tx as int,
            ty as int,
        ),
{
    let vx = (cx + tx) * SCALE - px;
    let vy = (cy + ty) * SCALE - py;
    proof {
        assert(0 <= vx * vx <= 16_000_000int * 16_000_000 && 0 <= vy * vy <= 16_000_000int
            * 16_000_000) by (nonlinear_arith)
            requires
                -16_000_000 <= vx <= 16_000_000,
                -16_000_000 <= vy <= 16_000_000,
        ;
    }
    let dsq = vx * vx + vy * vy;
    let dd = isqrt(dsq as u64) as i64;
    proof {
        lemma_sqrt_of_is(dsq as int, dd as int);
    }
    let dot = if dd == 0 {
        0
    } else {
        proof {
            assert(-16_000_000_000_000int <= ex * vx <= 16_000_000_000_000int && -16_000_000_000_000int
                <= ey * vy <= 16_000_000_000_000int) by (nonlinear_arith)
                requires
                    -1_000_000 <= ex <= 1_000_000,
                    -1_000_000 <= ey <= 1_000_000,
                    -16_000_000 <= vx <= 16_000_000,
                    -16_000_000 <= vy <= 16_000_000,
            ;
            lemma_tdiv_abs_bound(ex * vx, 16_000_000_000_000int, dd as int);
            lemma_tdiv_abs_bound(ey * vy, 16_000_000_000_000int, dd as int);
            vstd::arithmetic::div_mod::lemma_div_nonincreasing(16_000_000_000_000int, dd as int);
        }
        div_trunc(ex * vx, dd) + div_trunc(ey * vy, dd)
    };
    (dd, dot)
}

/// Seam classification for a wall hit at cell `(cx, cy)`, exact per
/// [`boundary_spec`] over the cell's four corners.
fn classify_boundary(px: i64, py: i64, ex: i64, ey: i64, cx: i64, cy: i64) -> (r: bool)
    requires
        0 <= px <= 16_000_000,
        0 <= py <= 16_000_000,
        -SCALE <= ex <= SCALE,
        -SCALE <= ey <= SCALE,
        0 <= cx < MAP_WIDTH,
        0 <= cy < MAP_HEIGHT,
    ensures
        r == boundary_spec(
            corner_seq(px as int, py as int, ex as int, ey as int, cx as int, cy as int),
        ),
{
    let c0 = corner_metrics(px, py, ex, ey, cx, cy, 0, 0);
    let c1 = corner_metrics(px, py, ex, ey, cx, cy, 0, 1);
    let c2 = corner_metrics(px, py, ex, ey, cx, cy, 1, 0);
    let c3 = corner_metrics(px, py, ex, ey, cx, cy, 1, 1);
    let ghost s = corner_seq(px as int, py as int, ex as int, ey as int, cx as int, cy as int);
    let mut b0: usize = 0;
    let mut d0: i64 = c0.0;
    if c1.0 < d0 {
        b0 = 1;
        d0 = c1.0;
    }
    if c2.0 < d0 {
        b0 = 2;
        d0 = c2.0;
    }
    if c3.0 < d0 {
        b0 = 3;
        d0 = c3.0;
    }
    let mut b1: usize = if b0 == 0 {
        1
    } else {
        0
    };
    let mut d1: i64 = if b0 == 0 {
        c1.0
    } else {
        c0.0
    };
    if 1 != b0 && c1.0 < d1 {
        b1 = 1;
        d1 = c1.0;
    }
    if 2 != b0 && c2.0 < d1 {
        b1 = 2;
        d1 = c2.0;
    }
    if 3 != b0 && c3.0 < d1 {
        b1 = 3;
        d1 = c3.0;
    }
    let dot0 = if b0 == 0 {
        c0.1
    } else if b0 == 1 {
        c1.1
    } else if b0 == 2 {
        c2.1
    } else {
        c3.1
    };
    let dot1 = if b1 == 0 {
        c0.1
    } else if b1 == 1 {
        c1.1
    } else if b1 == 2 {
        c2.1
    } else {
        c3.1
    };
    proof {
        assert(s.len() == 4);
        assert(is_first_min(s, b0 as int));
        assert(is_second_min(s, b0 as int, b1 as int));
        lemma_boundary_char(s, b0 as int, b1 as int);
    }
    dot0 > COS_BOUND_FP || dot1 > COS_BOUND_FP
}

/// What one cast reports: the far-clip distance for a capped or escaping
/// ray, else the march distance saturated at the far clip, with the seam
/// classification of the hit cell.
pub open spec fn march_spec(m: Seq<char>, px: int, py: int, ex: int, ey: int) -> (int, bool) {
    let n = first_hit_from(m, px, py, ex, ey, 1);
    if n > MAX_MARCH_STEPS {
        (DEPTH_FP as int, false)
    } else if sample_oob(px, py, ex, ey, n * STEP_FP) {
        (DEPTH_FP as int, false)
    } else {
        let d = if n * STEP_FP > DEPTH_FP {
            DEPTH_FP as int
        } else {
            n * STEP_FP
        };
        (
            d,
            boundary_spec(
                corner_seq(
                    px,
                    py,
                    ex,
                    ey,
                    sample_cell(px, ex, n * STEP_FP),
                    sample_cell(py, ey, n * STEP_FP),
                ),
            ),
        )
    }
}

/// Casts one ray: marches from the player along `(ex, ey)` in fixed steps
/// until the sample leaves the map or lands in a wall cell, within the
/// iteration cap.  The result is exactly [`march_spec`]; the distance
/// always lies between one step and the far clip.
pub fn cast_ray(map: &Vec<char>, px: i64, py: i64, ex: i64, ey: i64) -> (r: RaySample)
    requires
        map@.len() == MAP_WIDTH * MAP_HEIGHT,
        0 <= px <= 16_000_000,
        0 <= py <= 16_000_000,
        -SCALE <= ex <= SCALE,
        -SCALE <= ey <= SCALE,
    ensures
        (r.distance as int, r.boundary) == march_spec(
            map@,
            px as int,
            py as int,
            ex as int,
            ey as int,
        ),
        STEP_FP <= r.distance <= DEPTH_FP,
{
    let ghost m = map@;
    let ghost gpx = px as int;
    let ghost gpy = py as int;
    let ghost gex = ex as int;
    let ghost gey = ey as int;
    let mut i: i64 = 1;
    while i <= MAX_MARCH_STEPS
        invariant
            map@ == m,
            m.len() == MAP_WIDTH * MAP_HEIGHT,
            1 <= i <= MAX_MARCH_STEPS + 1,
            first_hit_from(m, gpx, gpy, gex, gey, 1) == first_hit_from(m, gpx, gpy, gex, gey, i as int),
            0 <= px <= 16_000_000,
            0 <= py <= 16_000_000,
            -SCALE <= ex <= SCALE,
            -SCALE <= ey <= SCALE,
            gpx == px as int && gpy == py as int && gex == ex as int && gey == ey as int,
        decreases MAX_MARCH_STEPS + 1 - i,
    {
        let d = i * STEP_FP;
        proof {
            assert(-16_100_000_000_000int <= ex * d <= 16_100_000_000_000int) by (nonlinear_arith)
                requires
                    -1_000_000 <= ex <= 1_000_000,
                    0 <= d <= 16_100_000,
            ;
            assert(-16_100_000_000_000int <= ey * d <= 16_100_000_000_000int) by (nonlinear_arith)
                requires
                    -1_000_000 <= ey <= 1_000_000,
                    0 <= d <= 16_100_000,
            ;
            lemma_tdiv_abs_bound(ex * d, 16_100_000_000_000int, SCALE as int);
            lemma_tdiv_abs_bound(ey * d, 16_100_000_000_000int, SCALE as int);
        }
        let sx = px + div_trunc(ex * d, SCALE);
        let sy = py + div_trunc(ey * d, SCALE);
        proof {
            lemma_tdiv_abs_bound(sx as int, 32_100_000int, SCALE as int);
            lemma_tdiv_abs_bound(sy as int, 32_100_000int, SCALE as int);
        }
        let cx = div_trunc(sx, SCALE);
        let cy = div_trunc(sy, SCALE);
        if cx < 0 || cx >= MAP_WIDTH as i64 || cy < 0 || cy >= MAP_HEIGHT as i64 {
            proof {
                assert(sample_oob(gpx, gpy, gex, gey, i as int * STEP_FP));
                assert(hit_at(m, gpx, gpy, gex, gey, i as int));
                assert(first_hit_from(m, gpx, gpy, gex, gey, i as int) == i as int);
            }
            return RaySample { distance: DEPTH_FP, boundary: false };
        }
        if is_wall(map, cx as usize, cy as usize) {
            proof {
                assert(sample_wall(m, gpx, gpy, gex, gey, i as int * STEP_FP));
                assert(hit_at(m, gpx, gpy, gex, gey, i as int));
                assert(first_hit_from(m, gpx, gpy, gex, gey, i as int) == i as int);
            }
            let boundary = classify_boundary(px, py, ex, ey, cx, cy);
            let dist = if d > DEPTH_FP {
                DEPTH_FP
            } else {
                d
            };
            return RaySample { distance: dist, boundary };
        }
        proof {
            assert(!hit_at(m, gpx, gpy, gex, gey, i as int));
            assert(first_hit_from(m, gpx, gpy, gex, gey, i as int) == first_hit_from(
                m,
                gpx,
                gpy,
                gex,
                gey,
                i as int + 1,
            ));
        }
        i = i + 1;
    }
    proof {
        assert(first_hit_from(m, gpx, gpy, gex, gey, i as int) == MAX_MARCH_STEPS + 1);
    }
    RaySample { distance: DEPTH_FP, boundary: false }
}

} // verus!
