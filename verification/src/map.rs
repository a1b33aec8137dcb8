//! The wall grid: a 16 x 16 field of cells, each a wall (`'#'`) or open
//! (`'.'`), stored row by row.  The grid is fully ringed by walls, with
//! two interior wall blocks.

use vstd::prelude::*;

verus! {

/// Cells per map row.
pub const MAP_WIDTH: usize = 16;

/// Map rows.
pub const MAP_HEIGHT: usize = 16;

/// The fixed wall layout: the outer ring plus a short pillar at column 11
/// and a long ledge on row 12.
pub open spec fn wall_spec(x: int, y: int) -> bool {
    ||| x == 0
    ||| x == MAP_WIDTH - 1
    ||| y == 0
    ||| y == MAP_HEIGHT - 1
    ||| (x == 11 && (y == 3 || y == 4))
    ||| (y == 12 && 8 <= x <= 14)
}

/// The grid holds exactly the fixed layout: a `'#'` where [`wall_spec`]
/// says wall, a `'.'` elsewhere.
pub open spec fn map_wf(m: Seq<char>) -> bool {
    &&& m.len() == MAP_WIDTH * MAP_HEIGHT
    &&& forall|x: int, y: int|
        0 <= x < MAP_WIDTH && 0 <= y < MAP_HEIGHT ==> m[y * MAP_WIDTH + x] == (if wall_spec(
            x,
            y,
        ) {
            '#'
        } else {
            '.'
        })
}

/// Builds the wall grid, row by row.
pub fn init_map() -> (map: Vec<char>)
    ensures
        map_wf(map@),
{
    let mut map: Vec<char> = Vec::new();
    let mut y: usize = 0;
    while y < MAP_HEIGHT
        invariant
            y <= MAP_HEIGHT,
            map@.len() == y * MAP_WIDTH,
            forall|i: int, j: int|
                0 <= i < MAP_WIDTH && 0 <= j < y ==> map@[j * MAP_WIDTH + i] == (if wall_spec(
                    i,
                    j,
                ) {
                    '#'
                } else {
                    '.'
                }),
        decreases MAP_HEIGHT - y,
    {
        let mut x: usize = 0;
        while x < MAP_WIDTH
            invariant
                y < MAP_HEIGHT,
                x <= MAP_WIDTH,
                map@.len() == y * MAP_WIDTH + x,
                forall|i: int, j: int|
                    0 <= i < MAP_WIDTH && 0 <= j < y ==> map@[j * MAP_WIDTH + i] == (if wall_spec(
                        i,
                        j,
                    ) {
                        '#'
                    } else {
                        '.'
                    }),
                forall|i: int|
                    0 <= i < x ==> map@[y * MAP_WIDTH + i] == (if wall_spec(i, y as int) {
                        '#'
                    } else {
                        '.'
                    }),
            decreases MAP_WIDTH - x,
        {
            let wall = x == 0 || x == MAP_WIDTH - 1 || y == 0 || y == MAP_HEIGHT - 1 || (x == 11
                && (y == 3 || y == 4)) || (y == 12 && 8 <= x && x <= 14);
            map.push(if wall {
                '#'
            } else {
                '.'
            });
            x = x + 1;
        }
        y = y + 1;
    }
    map
}

/// Wall test at a cell; callers pre-validate the coordinates.
pub fn is_wall(map: &Vec<char>, x: usize, y: usize) -> (r: bool)
    requires
        map@.len() == MAP_WIDTH * MAP_HEIGHT,
        x < MAP_WIDTH,
        y < MAP_HEIGHT,
    ensures
        r == (map@[y * MAP_WIDTH + x] == '#'),
{
    map[y * MAP_WIDTH + x] == '#'
}

/// The map invariant: every cell of the outer ring is a wall, and a cell
/// the layout leaves open is truly open in the built grid.
pub proof fn lemma_map_bounded(m: Seq<char>)
    requires
        map_wf(m),
    ensures
        forall|x: int, y: int|
            0 <= x < MAP_WIDTH && 0 <= y < MAP_HEIGHT && (x == 0 || x == MAP_WIDTH - 1 || y == 0
                || y == MAP_HEIGHT - 1) ==> #[trigger] m[y * MAP_WIDTH + x] == '#',
        forall|x: int, y: int|
            0 < x < MAP_WIDTH - 1 && 0 < y < MAP_HEIGHT - 1 && !wall_spec(x, y)
                ==> #[trigger] m[y * MAP_WIDTH + x] == '.',
{
    assert forall|x: int, y: int|
        0 <= x < MAP_WIDTH && 0 <= y < MAP_HEIGHT && (x == 0 || x == MAP_WIDTH - 1 || y == 0
            || y == MAP_HEIGHT - 1) implies #[trigger] m[y * MAP_WIDTH + x] == '#' by {
        assert(m[y * MAP_WIDTH + x] == (if wall_spec(x, y) {
            '#'
        } else {
            '.'
        }));
    }
    assert forall|x: int, y: int|
        0 < x < MAP_WIDTH - 1 && 0 < y < MAP_HEIGHT - 1 && !wall_spec(x, y) implies #[trigger] m[y
        * MAP_WIDTH + x] == '.' by {
        assert(m[y * MAP_WIDTH + x] == (if wall_spec(x, y) {
            '#'
        } else {
            '.'
        }));
    }
}

} // verus!
