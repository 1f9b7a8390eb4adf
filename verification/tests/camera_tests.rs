use grav::camera::Camera;
use grav::sim::Simulation;
use grav::vec2::Vec2;

const SCALE_MIN: i128 = 1_000_000_000;
const SCALE_MAX: i128 = 1_000_000_000_000_000_000_000_000;
const POS_LIMIT: i128 = 1_000_000_000_000_000_000_000_000_000;

fn v(x: i128, y: i128) -> Vec2 {
    Vec2 { x, y }
}

#[test]
fn fresh_camera_defaults() {
    let cam = Camera::new(1000, 800);
    assert_eq!((cam.origin.x, cam.origin.y), (0, 0));
    assert_eq!(cam.scale, 1_000_000_000_000_000_000);
    assert_eq!((cam.width, cam.height), (1000, 800));
}

#[test]
fn centre_pixel_shows_the_origin() {
    let cam = Camera::new(1000, 800);
    let w = cam.view_to_world(v(500, 400));
    assert_eq!((w.x, w.y), (0, 0));
    let p = cam.world_to_view(v(0, 0));
    assert_eq!((p.x, p.y), (500, 400));
}

#[test]
fn view_to_world_scales_pixel_offsets() {
    let mut cam = Camera::new(1000, 800);
    cam.set_scale(SCALE_MIN);
    // One pixel right of centre is one metre right of the origin.
    let w = cam.view_to_world(v(501, 400));
    assert_eq!((w.x, w.y), (1_000_000_000, 0));
    let q = cam.world_to_view(v(1_500_000_000, 0));
    assert_eq!((q.x, q.y), (501, 400));
}

#[test]
fn round_trip_is_exact_for_a_thousand_random_cameras() {
    // A linear congruential generator stands in for the random source; the
    // round trip must return the very pixel for every combination.
    let mut state: u64 = 0x853c_49e6_748f_ea9b;
    let mut next = move || {
        state = state.wrapping_mul(6364136223846793005).wrapping_add(1442695040888963407);
        state
    };
    for _ in 0..1000 {
        let ox = ((next() % 2_000_000_001) as i128 - 1_000_000_000) * 10_000_000_000_000_000;
        let oy = ((next() % 2_000_000_001) as i128 - 1_000_000_000) * 10_000_000_000_000_000;
        let scale = SCALE_MIN
            + (next() % 1_000_000_000_000_000) as i128 * ((next() % 1_000_000_000) as i128 + 1);
        let width = (next() % 2001) as i128;
        let height = (next() % 2001) as i128;
        let px = (next() % 2_000_000_001) as i128 - 1_000_000_000;
        let py = (next() % 2_000_000_001) as i128 - 1_000_000_000;
        assert!(SCALE_MIN <= scale && scale <= SCALE_MAX);
        let cam = Camera { origin: v(ox, oy), scale, width, height };
        let w = cam.view_to_world(v(px, py));
        let p = cam.world_to_view(w);
        assert_eq!((p.x, p.y), (px, py));
    }
}

#[test]
fn pan_moves_the_origin_by_scaled_pixels() {
    let mut cam = Camera::new(1000, 800);
    cam.pan(v(10, -5));
    assert_eq!(cam.origin.x, 10_000_000_000_000_000_000);
    assert_eq!(cam.origin.y, -5_000_000_000_000_000_000);
    assert_eq!(cam.scale, 1_000_000_000_000_000_000);
}

#[test]
fn pan_is_pinned_at_the_world_edge() {
    let mut cam = Camera::new(1000, 800);
    cam.origin = v(POS_LIMIT, 0);
    cam.pan(v(1_000, 0));
    assert_eq!(cam.origin.x, POS_LIMIT);
    cam.pan(v(-1, 0));
    assert_eq!(cam.origin.x, POS_LIMIT - 1_000_000_000_000_000_000);
}

#[test]
fn zoom_multiplies_and_clamps_the_scale() {
    let mut cam = Camera::new(1000, 800);
    cam.zoom(2, 1);
    assert_eq!(cam.scale, 2_000_000_000_000_000_000);
    cam.zoom(1, 2);
    assert_eq!(cam.scale, 1_000_000_000_000_000_000);
    cam.zoom(3, 7);
    assert_eq!(cam.scale, 428_571_428_571_428_571);
}

#[test]
fn zoom_is_pinned_at_both_bounds() {
    let mut cam = Camera::new(1000, 800);
    cam.set_scale(SCALE_MAX);
    for _ in 0..5 {
        cam.zoom(2, 1);
        assert_eq!(cam.scale, SCALE_MAX);
    }
    cam.set_scale(SCALE_MIN);
    for _ in 0..5 {
        cam.zoom(1, 2);
        assert_eq!(cam.scale, SCALE_MIN);
    }
}

#[test]
fn set_scale_clamps_into_range() {
    let mut cam = Camera::new(1000, 800);
    cam.set_scale(0);
    assert_eq!(cam.scale, SCALE_MIN);
    cam.set_scale(SCALE_MAX + 12345);
    assert_eq!(cam.scale, SCALE_MAX);
    cam.set_scale(5_000_000_000);
    assert_eq!(cam.scale, 5_000_000_000);
}

#[test]
fn resize_touches_only_the_viewport() {
    let mut cam = Camera::new(1000, 800);
    cam.pan(v(3, 4));
    let (ox, oy, s) = (cam.origin.x, cam.origin.y, cam.scale);
    cam.resize(1920, 1080);
    assert_eq!((cam.width, cam.height), (1920, 1080));
    assert_eq!((cam.origin.x, cam.origin.y, cam.scale), (ox, oy, s));
}

#[test]
fn click_selects_the_youngest_body_near_the_pixel() {
    let mut sim = Simulation::new();
    let cam = Camera::new(1000, 800);
    // Shown at pixel (500, 400) and (501, 400) respectively.
    assert_eq!(sim.add_body(1, v(0, 0), v(0, 0)), Ok(()));
    assert_eq!(sim.add_body(1, v(1_000_000_000_000_000_000, 0), v(0, 0)), Ok(()));
    assert_eq!(sim.body_at_pixel(&cam, 502, 401), Some(1));
    assert_eq!(sim.body_at_pixel(&cam, 496, 400), Some(0));
    assert_eq!(sim.body_at_pixel(&cam, 506, 400), None);
    assert_eq!(sim.body_at_pixel(&cam, 500, 396), Some(1));
}
