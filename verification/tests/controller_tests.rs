use raycaster::controller::{handle_controls, KeyState};
use raycaster::map::init_map;
use raycaster::player::{spawn_player, Player};

fn keys(left: bool, right: bool, forward: bool, backward: bool) -> KeyState {
    KeyState { left, right, forward, backward }
}

#[test]
fn spawn_is_center() {
    let map = init_map();
    let p = spawn_player(&map);
    assert_eq!(p.x, 8_000_000);
    assert_eq!(p.y, 8_000_000);
    assert_eq!(p.a, 0);
}

#[test]
fn idle_frame_changes_nothing() {
    let map = init_map();
    let mut p = spawn_player(&map);
    handle_controls(&mut p, 100_000, &map, &keys(false, false, false, false));
    assert_eq!(p.x, 8_000_000);
    assert_eq!(p.y, 8_000_000);
    assert_eq!(p.a, 0);
}

#[test]
fn turning_left_wraps_below_zero() {
    let map = init_map();
    let mut p = spawn_player(&map);
    handle_controls(&mut p, 100_000, &map, &keys(true, false, false, false));
    assert_eq!(p.a, 5_908_185);
    assert_eq!(p.x, 8_000_000);
    assert_eq!(p.y, 8_000_000);
}

#[test]
fn turning_right_scales_with_frame_time() {
    let map = init_map();
    let mut p = spawn_player(&map);
    handle_controls(&mut p, 100_000, &map, &keys(false, true, false, false));
    assert_eq!(p.a, 375_000);
    let mut q = spawn_player(&map);
    handle_controls(&mut q, 200_000, &map, &keys(false, true, false, false));
    assert_eq!(q.a, 750_000);
}

#[test]
fn both_turn_keys_cancel() {
    let map = init_map();
    let mut p = spawn_player(&map);
    handle_controls(&mut p, 100_000, &map, &keys(true, true, false, false));
    assert_eq!(p.a, 0);
}

#[test]
fn forward_moves_along_heading() {
    let map = init_map();
    let mut p = spawn_player(&map);
    handle_controls(&mut p, 100_000, &map, &keys(false, false, true, false));
    assert_eq!(p.x, 8_000_000);
    assert_eq!(p.y, 8_500_000);
    assert_eq!(p.a, 0);
}

#[test]
fn backward_moves_against_heading() {
    let map = init_map();
    let mut p = spawn_player(&map);
    handle_controls(&mut p, 100_000, &map, &keys(false, false, false, true));
    assert_eq!(p.x, 8_000_000);
    assert_eq!(p.y, 7_500_000);
}

#[test]
fn move_into_wall_is_reverted() {
    let map = init_map();
    let mut p = Player { x: 8_000_000, y: 14_500_000, a: 0 };
    handle_controls(&mut p, 200_000, &map, &keys(false, false, true, false));
    assert_eq!(p.x, 8_000_000);
    assert_eq!(p.y, 14_500_000);
}

#[test]
fn blocked_move_still_turns() {
    let map = init_map();
    let mut p = Player { x: 8_000_000, y: 14_500_000, a: 0 };
    handle_controls(&mut p, 200_000, &map, &keys(false, true, true, false));
    assert_eq!(p.a, 750_000);
    assert_eq!(p.x, 8_000_000);
    assert_eq!(p.y, 14_500_000);
}
