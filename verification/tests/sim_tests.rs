use grav::body::Rgba;
use grav::sim::{SimError, Simulation};
use grav::vec2::Vec2;

const SUN_MASS: i128 = 1_989_000_000_000_000_000_000_000_000_000;
const EARTH_MASS: i128 = 5_970_000_000_000_000_000_000_000;
const MASS_MAX: i128 = 1_000_000_000_000_000_000_000_000_000_000_000;
const POS_LIMIT: i128 = 1_000_000_000_000_000_000_000_000_000;

fn v(x: i128, y: i128) -> Vec2 {
    Vec2 { x, y }
}

#[test]
fn fresh_simulation_defaults() {
    let sim = Simulation::new();
    assert_eq!(sim.body_count(), 0);
    assert_eq!(sim.time_step(), 10_000);
    assert!(!sim.is_paused());
    assert!(!sim.is_reversed());
}

#[test]
fn added_body_keeps_its_values_and_gets_white() {
    let mut sim = Simulation::new();
    assert_eq!(sim.add_body(SUN_MASS, v(3, 4), v(5, 6)), Ok(()));
    let b = sim.body(0).unwrap();
    assert_eq!(b.mass, SUN_MASS);
    assert_eq!((b.pos.x, b.pos.y), (3, 4));
    assert_eq!((b.vel.x, b.vel.y), (5, 6));
    assert_eq!((b.color.r, b.color.g, b.color.b, b.color.a), (255, 255, 255, 255));
}

#[test]
fn add_body_rejects_out_of_range_values() {
    let mut sim = Simulation::new();
    assert_eq!(sim.add_body(-1, v(0, 0), v(0, 0)), Err(SimError::InvalidArgument));
    assert_eq!(sim.add_body(MASS_MAX + 1, v(0, 0), v(0, 0)), Err(SimError::InvalidArgument));
    assert_eq!(sim.add_body(1, v(POS_LIMIT + 1, 0), v(0, 0)), Err(SimError::InvalidArgument));
    assert_eq!(sim.body_count(), 0);
    assert_eq!(sim.add_body(MASS_MAX, v(POS_LIMIT, -POS_LIMIT), v(0, 0)), Ok(()));
    assert_eq!(sim.add_body(0, v(0, 0), v(0, 0)), Ok(()));
    assert_eq!(sim.body_count(), 2);
}

#[test]
fn removal_shifts_later_bodies_down_one() {
    let mut sim = Simulation::new();
    for i in 0..5 {
        assert_eq!(sim.add_body(i as i128 + 1, v(i as i128 * 10, 0), v(0, 0)), Ok(()));
    }
    assert_eq!(sim.remove_body(1), Ok(()));
    assert_eq!(sim.body_count(), 4);
    assert_eq!(sim.body(0).unwrap().mass, 1);
    assert_eq!(sim.body(1).unwrap().mass, 3);
    assert_eq!(sim.body(2).unwrap().mass, 4);
    assert_eq!(sim.body(3).unwrap().mass, 5);
    assert_eq!(sim.remove_body(4), Err(SimError::IndexOutOfRange));
}

#[test]
fn edit_body_replaces_only_what_is_supplied() {
    let mut sim = Simulation::new();
    assert_eq!(sim.add_body(SUN_MASS, v(1, 2), v(3, 4)), Ok(()));
    let red = Rgba { r: 255, g: 0, b: 0, a: 255 };
    assert_eq!(sim.edit_body(0, Some(EARTH_MASS), None, None, Some(red)), Ok(()));
    let b = sim.body(0).unwrap();
    assert_eq!(b.mass, EARTH_MASS);
    assert_eq!((b.pos.x, b.pos.y), (1, 2));
    assert_eq!((b.vel.x, b.vel.y), (3, 4));
    assert_eq!((b.color.r, b.color.g), (255, 0));
    assert_eq!(sim.edit_body(1, None, None, None, None), Err(SimError::IndexOutOfRange));
    assert_eq!(sim.edit_body(0, Some(-2), None, None, None), Err(SimError::InvalidArgument));
    assert_eq!(sim.body(0).unwrap().mass, EARTH_MASS);
}

#[test]
fn time_step_is_clamped_and_pinned_at_its_bounds() {
    let mut sim = Simulation::new();
    sim.set_time_step(0);
    assert_eq!(sim.time_step(), 1);
    sim.halve_time_step();
    assert_eq!(sim.time_step(), 1);
    sim.set_time_step(50_000_000_000);
    assert_eq!(sim.time_step(), 10_000_000_000);
    sim.double_time_step();
    assert_eq!(sim.time_step(), 10_000_000_000);
    sim.set_time_step(600);
    sim.double_time_step();
    assert_eq!(sim.time_step(), 1_200);
    sim.halve_time_step();
    assert_eq!(sim.time_step(), 600);
}

#[test]
fn step_on_empty_simulation_is_harmless() {
    let mut sim = Simulation::new();
    sim.step();
    assert_eq!(sim.body_count(), 0);
}

#[test]
fn single_resting_body_stays_put() {
    let mut sim = Simulation::new();
    assert_eq!(sim.add_body(SUN_MASS, v(42, -17), v(0, 0)), Ok(()));
    sim.step();
    let b = sim.body(0).unwrap();
    assert_eq!((b.pos.x, b.pos.y), (42, -17));
    assert_eq!((b.vel.x, b.vel.y), (0, 0));
}

#[test]
fn single_moving_body_coasts_unaccelerated() {
    let mut sim = Simulation::new();
    assert_eq!(sim.add_body(SUN_MASS, v(0, 0), v(7, -2)), Ok(()));
    let accs = sim.accelerations();
    assert_eq!((accs[0].x, accs[0].y), (0, 0));
    sim.step();
    let b = sim.body(0).unwrap();
    assert_eq!((b.pos.x, b.pos.y), (70_000, -20_000));
    assert_eq!((b.vel.x, b.vel.y), (7, -2));
}

#[test]
fn paused_simulation_never_moves() {
    let mut sim = Simulation::new();
    assert_eq!(sim.add_body(SUN_MASS, v(0, 0), v(9, 9)), Ok(()));
    assert_eq!(sim.add_body(SUN_MASS, v(100_000_000_000_000_000_000, 0), v(0, 0)), Ok(()));
    sim.pause();
    assert!(sim.is_paused());
    for _ in 0..10 {
        sim.step();
    }
    let a = sim.body(0).unwrap();
    let b = sim.body(1).unwrap();
    assert_eq!((a.pos.x, a.pos.y, a.vel.x, a.vel.y), (0, 0, 9, 9));
    assert_eq!((b.pos.x, b.pos.y, b.vel.x, b.vel.y), (100_000_000_000_000_000_000, 0, 0, 0));
    sim.resume();
    assert!(!sim.is_paused());
}

#[test]
fn two_equal_masses_at_rest_gain_opposite_velocities() {
    // Separated by 1e11 m along x: each is pulled with
    // 6674 * m / (1e5 * 1e22) = 13_274_586 nm/s^2, so one default step of
    // 10^4 s hands each a velocity of 132_745_860_000 nm/s toward the
    // other, and (positions advancing with the pre-update velocity) leaves
    // both exactly where they were.
    let mut sim = Simulation::new();
    assert_eq!(sim.add_body(SUN_MASS, v(0, 0), v(0, 0)), Ok(()));
    assert_eq!(sim.add_body(SUN_MASS, v(100_000_000_000_000_000_000, 0), v(0, 0)), Ok(()));
    let accs = sim.accelerations();
    assert_eq!((accs[0].x, accs[0].y), (13_274_586, 0));
    assert_eq!((accs[1].x, accs[1].y), (-13_274_586, 0));
    sim.step();
    let a = sim.body(0).unwrap();
    let b = sim.body(1).unwrap();
    assert_eq!((a.pos.x, a.pos.y), (0, 0));
    assert_eq!((b.pos.x, b.pos.y), (100_000_000_000_000_000_000, 0));
    assert_eq!((a.vel.x, a.vel.y), (132_745_860_000, 0));
    assert_eq!((b.vel.x, b.vel.y), (-132_745_860_000, 0));
}

#[test]
fn sun_and_earth_end_to_end() {
    // Earth-mass and sun-mass bodies 1.5e11 m apart, dt = 8192 s, running.
    // The lighter body's acceleration is 5_899_816 nm/s^2 (5.9e-3 m/s^2)
    // and one step hands it 5_899_816 * 8192 nm/s of velocity.
    let mut sim = Simulation::new();
    sim.set_time_step(8192);
    assert_eq!(sim.add_body(EARTH_MASS, v(0, 0), v(0, 0)), Ok(()));
    assert_eq!(sim.add_body(SUN_MASS, v(150_000_000_000_000_000_000, 0), v(0, 0)), Ok(()));
    assert!(!sim.is_paused());
    let accs = sim.accelerations();
    assert_eq!((accs[0].x, accs[0].y), (5_899_816, 0));
    assert_eq!((accs[1].x, accs[1].y), (-17, 0));
    sim.step();
    let earth = sim.body(0).unwrap();
    let sun = sim.body(1).unwrap();
    assert_eq!((earth.vel.x, earth.vel.y), (48_331_292_672, 0));
    assert_eq!((sun.vel.x, sun.vel.y), (-139_264, 0));
    assert_eq!((earth.pos.x, earth.pos.y), (0, 0));
    assert_eq!((sun.pos.x, sun.pos.y), (150_000_000_000_000_000_000, 0));
}

#[test]
fn reversed_time_subtracts_the_same_terms() {
    let mut sim = Simulation::new();
    assert_eq!(sim.add_body(SUN_MASS, v(0, 0), v(5, 0)), Ok(()));
    sim.set_reversed(true);
    assert!(sim.is_reversed());
    sim.step();
    let b = sim.body(0).unwrap();
    assert_eq!((b.pos.x, b.pos.y), (-50_000, 0));
    assert_eq!((b.vel.x, b.vel.y), (5, 0));
}

#[test]
fn forward_then_reversed_step_returns_a_lone_body_home() {
    let mut sim = Simulation::new();
    assert_eq!(sim.add_body(SUN_MASS, v(1_000, 2_000), v(30, -40)), Ok(()));
    sim.step();
    let moved = sim.body(0).unwrap();
    assert_eq!((moved.pos.x, moved.pos.y), (301_000, -398_000));
    sim.set_reversed(true);
    sim.step();
    let back = sim.body(0).unwrap();
    assert_eq!((back.pos.x, back.pos.y), (1_000, 2_000));
    assert_eq!((back.vel.x, back.vel.y), (30, -40));
}
