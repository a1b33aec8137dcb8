use raycaster::fixed::{cos_fp, sin_fp};
use raycaster::map::init_map;
use raycaster::raycast::cast_ray;

#[test]
fn ray_ahead_hits_ledge_on_a_corner() {
    // Player at cell (8, 8) heading 0: the ray runs straight along +y,
    // meets the ledge cell (8, 12) after exactly 4 map units, and passes
    // dead through its corner (8, 12): a boundary seam.
    let map = init_map();
    let r = cast_ray(&map, 8_000_000, 8_000_000, sin_fp(0), cos_fp(0));
    assert_eq!(r.distance, 4_000_000);
    assert!(r.boundary);
}

#[test]
fn ray_off_center_hits_flat_face() {
    // Shifted half a cell sideways the same ray hits the middle of the
    // ledge face, away from every corner: no seam.
    let map = init_map();
    let r = cast_ray(&map, 8_500_000, 8_000_000, sin_fp(0), cos_fp(0));
    assert_eq!(r.distance, 4_000_000);
    assert!(!r.boundary);
}

#[test]
fn ray_east_reaches_border_wall() {
    // Heading a quarter turn: the ray runs along +x from (8, 8) and stops
    // in the border column x = 15 after 15 - 8 = 7 map units, through the
    // wall cell's corner.
    let map = init_map();
    let r = cast_ray(&map, 8_000_000, 8_000_000, sin_fp(1_570_796), cos_fp(1_570_796));
    assert_eq!(r.distance, 7_000_000);
    assert!(r.boundary);
}

#[test]
fn distance_is_always_clamped() {
    let map = init_map();
    let mut a: i64 = 0;
    while a < 6_283_185 {
        let r = cast_ray(&map, 8_000_000, 8_000_000, sin_fp(a), cos_fp(a));
        assert!(r.distance >= 100_000);
        assert!(r.distance <= 16_000_000);
        a += 97_000;
    }
}
