use raycaster::map::init_map;
use raycaster::player::Player;
use raycaster::screen::{draw_map, init_screen, render_frame, update_screen, SCREEN_SIZE};

#[test]
fn fresh_screen_is_blank() {
    let screen = init_screen();
    assert_eq!(screen.len(), SCREEN_SIZE);
    assert_eq!(screen.len(), 4800);
    for &c in screen.iter() {
        assert_eq!(c, 0);
    }
}

#[test]
fn view_bands_for_center_player() {
    let map = init_map();
    let player = Player { x: 8_000_000, y: 8_000_000, a: 0 };
    let mut screen = init_screen();
    update_screen(&mut screen, &player, &map);
    // Top row: sky everywhere.
    for x in 0..120 {
        assert_eq!(screen[x], 32);
    }
    // Bottom row: the nearest floor glyph everywhere.
    for x in 0..120 {
        assert_eq!(screen[39 * 120 + x], 35);
    }
    // Row 20 always lies inside the wall band: a shade glyph, or blank on
    // a seam or past the far clip.
    for x in 0..120 {
        let g = screen[20 * 120 + x];
        assert!(g == 0x2588 || g == 0x2593 || g == 0x2592 || g == 0x2591 || g == 32);
    }
}

#[test]
fn view_exact_cells_for_center_player() {
    let map = init_map();
    let player = Player { x: 8_000_000, y: 8_000_000, a: 0 };
    let mut screen = init_screen();
    update_screen(&mut screen, &player, &map);
    // Leftmost column: the ray reaches the border at 7.6 units, a medium
    // shade.
    assert_eq!(screen[20 * 120], 0x2592);
    assert_eq!(screen[5 * 120], 32);
    // Center column: the seam hit of the ledge draws blank.
    assert_eq!(screen[20 * 120 + 60], 32);
    assert_eq!(screen[11 * 120 + 60], 32);
    // Center column floor gradient.
    assert_eq!(screen[31 * 120 + 60], 120);
    assert_eq!(screen[39 * 120 + 60], 35);
    // Columns right of center see the ledge off its corners: dark shade.
    assert_eq!(screen[20 * 120 + 90], 0x2593);
    assert_eq!(screen[20 * 120 + 119], 0x2593);
}

#[test]
fn shading_fades_with_distance() {
    // The same flat border face seen from four distances, nearest first:
    // the wall shade can only get lighter as the distance grows.
    let map = init_map();
    let cases = [
        (12_000_000, 0x2588),  // 3.0 units ahead: full block
        (10_500_000, 0x2593),  // 4.5 units: dark shade
        (7_500_000, 0x2592),   // 7.5 units: medium shade
        (3_500_000, 0x2591),   // 11.5 units: light shade
    ];
    for &(py, glyph) in cases.iter() {
        let player = Player { x: 7_500_000, y: py, a: 0 };
        let mut screen = init_screen();
        update_screen(&mut screen, &player, &map);
        assert_eq!(screen[20 * 120 + 60], glyph);
    }
}

#[test]
fn minimap_marks_player_and_walls() {
    let map = init_map();
    let player = Player { x: 8_000_000, y: 8_000_000, a: 0 };
    let mut screen = init_screen();
    draw_map(&mut screen, &player, &map);
    // Row offset 1: map cell (nx, ny) sits at (ny + 1) * 120 + nx.
    assert_eq!(screen[9 * 120 + 8], 80);
    assert_eq!(screen[120], 35);
    assert_eq!(screen[2 * 120 + 1], 46);
    assert_eq!(screen[16 * 120 + 15], 35);
    // A cell outside the minimap block keeps its glyph.
    assert_eq!(screen[120 + 16], 0);
}

#[test]
fn full_frame_composition() {
    let map = init_map();
    let player = Player { x: 8_000_000, y: 8_000_000, a: 0 };
    let mut screen = init_screen();
    render_frame(&mut screen, &player, &map);
    // Minimap over the view, with the player's cell marked.
    assert_eq!(screen[9 * 120 + 8], 80);
    assert_eq!(screen[120], 35);
    // The view outside the minimap block.
    assert_eq!(screen[20 * 120 + 60], 32);
    assert_eq!(screen[20 * 120 + 90], 0x2593);
    assert_eq!(screen[39 * 120], 35);
    // The last cell carries the NUL sentinel for the presenter.
    assert_eq!(screen[SCREEN_SIZE - 1], 0);
    assert_eq!(screen.len(), SCREEN_SIZE);
}
