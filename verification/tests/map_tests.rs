use raycaster::map::{init_map, is_wall, MAP_HEIGHT, MAP_WIDTH};

#[test]
fn map_has_full_grid() {
    let map = init_map();
    assert_eq!(map.len(), MAP_WIDTH * MAP_HEIGHT);
    assert_eq!(map.len(), 256);
}

#[test]
fn map_ring_is_walled() {
    let map = init_map();
    for x in 0..MAP_WIDTH {
        assert!(is_wall(&map, x, 0));
        assert!(is_wall(&map, x, MAP_HEIGHT - 1));
    }
    for y in 0..MAP_HEIGHT {
        assert!(is_wall(&map, 0, y));
        assert!(is_wall(&map, MAP_WIDTH - 1, y));
    }
}

#[test]
fn map_interior_features() {
    let map = init_map();
    assert!(!is_wall(&map, 8, 8));
    assert!(is_wall(&map, 11, 3));
    assert!(is_wall(&map, 11, 4));
    assert!(!is_wall(&map, 11, 5));
    assert!(is_wall(&map, 8, 12));
    assert!(is_wall(&map, 14, 12));
    assert!(!is_wall(&map, 7, 12));
    assert!(!is_wall(&map, 1, 1));
}

#[test]
fn map_cells_are_glyphs() {
    let map = init_map();
    assert_eq!(map[0], '#');
    assert_eq!(map[8 * 16 + 8], '.');
    assert_eq!(map[12 * 16 + 8], '#');
}
