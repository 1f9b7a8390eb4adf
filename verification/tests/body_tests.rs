use grav::body::{Body, Rgba};
use grav::vec2::Vec2;

fn body_at(mass: i128, x: i128, y: i128) -> Body {
    Body {
        mass,
        pos: Vec2 { x, y },
        vel: Vec2 { x: 0, y: 0 },
        color: Rgba { r: 255, g: 255, b: 255, a: 255 },
    }
}

const SUN_MASS: i128 = 1_989_000_000_000_000_000_000_000_000_000;
const EARTH_MASS: i128 = 5_970_000_000_000_000_000_000_000;

#[test]
fn coincident_bodies_attract_not_at_all() {
    let a = body_at(SUN_MASS, 123, -456);
    let b = body_at(SUN_MASS, 123, -456);
    let acc = a.accel_towards(&b);
    assert_eq!(acc.x, 0);
    assert_eq!(acc.y, 0);
}

#[test]
fn sub_metre_separation_counts_as_coincident() {
    // Half a metre apart: the metre-truncated displacement is zero.
    let a = body_at(SUN_MASS, 0, 0);
    let b = body_at(SUN_MASS, 500_000_000, 0);
    let acc = a.accel_towards(&b);
    assert_eq!(acc.x, 0);
    assert_eq!(acc.y, 0);
}

#[test]
fn solar_pull_at_one_astronomical_unit() {
    // A sun-mass attractor 1.5e11 m away along x pulls with
    // 1e9 * G * m / r^2 = 6674 * m / (1e5 * 2.25e22) = 5_899_816 nm/s^2.
    let probe = body_at(EARTH_MASS, 0, 0);
    let sun = body_at(SUN_MASS, 150_000_000_000_000_000_000, 0);
    let acc = probe.accel_towards(&sun);
    assert_eq!(acc.x, 5_899_816);
    assert_eq!(acc.y, 0);
}

#[test]
fn pull_points_toward_the_attractor() {
    let probe = body_at(EARTH_MASS, 0, 0);
    let sun = body_at(SUN_MASS, -150_000_000_000_000_000_000, -150_000_000_000_000_000_000);
    let acc = probe.accel_towards(&sun);
    assert!(acc.x < 0);
    assert!(acc.y < 0);
}

#[test]
fn equal_masses_feel_exactly_opposite_pulls() {
    let a = body_at(SUN_MASS, -7_000_000_000_000_000_000, 3_000_000_000_000_000);
    let b = body_at(SUN_MASS, 5_000_000_000_000_000_000, -9_000_000_000_000_000);
    let toward_b = a.accel_towards(&b);
    let toward_a = b.accel_towards(&a);
    assert_eq!(toward_b.x, -toward_a.x);
    assert_eq!(toward_b.y, -toward_a.y);
}

#[test]
fn unequal_masses_pull_in_opposite_directions() {
    let light = body_at(EARTH_MASS, 0, 0);
    let heavy = body_at(SUN_MASS, 150_000_000_000_000_000_000, 75_000_000_000_000_000_000);
    let on_light = light.accel_towards(&heavy);
    let on_heavy = heavy.accel_towards(&light);
    assert!(on_light.x > 0 && on_heavy.x < 0);
    assert!(on_light.y > 0 && on_heavy.y < 0);
}

#[test]
fn newtons_third_law_within_quantisation() {
    // |a_A| * m_A == |a_B| * m_B holds exactly for the unrounded values;
    // the stored nanometre resolution may cut each component by less than
    // one unit, so the products agree to within one mass of slack.
    let light = body_at(EARTH_MASS, 0, 0);
    let heavy = body_at(SUN_MASS, 150_000_000_000_000_000_000, 0);
    let on_light = light.accel_towards(&heavy);
    let on_heavy = heavy.accel_towards(&light);
    let lhs = on_light.x * EARTH_MASS;
    let rhs = -on_heavy.x * SUN_MASS;
    let diff = (lhs - rhs).abs();
    assert!(diff <= SUN_MASS);
}

#[test]
fn zero_mass_probe_exerts_nothing_but_is_pulled() {
    let probe = body_at(0, 0, 0);
    let sun = body_at(SUN_MASS, 150_000_000_000_000_000_000, 0);
    let on_sun = sun.accel_towards(&probe);
    assert_eq!(on_sun.x, 0);
    assert_eq!(on_sun.y, 0);
    let on_probe = probe.accel_towards(&sun);
    assert_eq!(on_probe.x, 5_899_816);
}

#[test]
fn white_is_the_default_body_colour() {
    let c = Rgba::white();
    assert_eq!((c.r, c.g, c.b, c.a), (255, 255, 255, 255));
}
