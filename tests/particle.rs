use nbody::particle::Particle;

fn body(mass: f64, position: Vec<f64>, velocity: Vec<f64>, force: Vec<f64>, force_old: Vec<f64>) -> Particle<f64> {
    Particle { mass, position, velocity, force, force_old }
}

#[test]
fn can_create_particle() {
    let particle = Particle {
        mass: 2.1,
        position: vec![1.0, 2.0, 3.0],
        velocity: vec![4.0, 5.0, 6.0],
        force: vec![7.0, 8.0, 9.0],
        force_old: vec![7.0, 8.0, 9.0],
    };

    assert_eq!(particle.mass, 2.1);
    assert_eq!(particle.position, [1.0, 2.0, 3.0]);
    assert_eq!(particle.velocity, [4.0, 5.0, 6.0]);
    assert_eq!(particle.force, [7.0, 8.0, 9.0]);
    assert_eq!(particle.force_old, [7.0, 8.0, 9.0]);
}

#[test]
fn can_store_old_force() {
    let mut particle = Particle {
        mass: 20.0,
        position: vec![0.0, 0.0, 0.0],
        velocity: vec![4.0, 5.0, 6.0],
        force: vec![7.0, 8.0, 9.0],
        force_old: vec![0.0, 0.0, 0.0],
    };

    particle.store_old_force();
    assert_eq!(particle.force_old, [7.0, 8.0, 9.0]);
}

#[test]
fn store_old_force_keeps_other_state() {
    let mut p = body(20.0, vec![0.0, 1.0, 2.0], vec![4.0, 5.0, 6.0], vec![1.0, 10.0, 100.0], vec![9.0, 9.0, 9.0]);
    p.store_old_force();
    assert_eq!(p.mass, 20.0);
    assert_eq!(p.position, [0.0, 1.0, 2.0]);
    assert_eq!(p.velocity, [4.0, 5.0, 6.0]);
    assert_eq!(p.force, [1.0, 10.0, 100.0]);
    assert_eq!(p.force_old, [1.0, 10.0, 100.0]);
}

#[test]
fn store_old_force_twice_is_same_as_once() {
    let mut once = body(20.0, vec![0.0, 0.0], vec![1.0, 2.0], vec![3.5, -4.25], vec![0.0, 0.0]);
    once.store_old_force();
    let mut twice = body(20.0, vec![0.0, 0.0], vec![1.0, 2.0], vec![3.5, -4.25], vec![0.0, 0.0]);
    twice.store_old_force();
    twice.store_old_force();
    assert_eq!(once.force_old, twice.force_old);
    assert_eq!(once.force, twice.force);
    assert_eq!(twice.force_old, [3.5, -4.25]);
}

#[test]
fn new_particle_is_two_dimensional_and_zero() {
    let p = Particle::new(0.0_f64);
    assert_eq!(p.mass, 0.0);
    assert_eq!(p.position, [0.0, 0.0]);
    assert_eq!(p.velocity, [0.0, 0.0]);
    assert_eq!(p.force, [0.0, 0.0]);
    assert_eq!(p.force_old, [0.0, 0.0]);
    assert_eq!(p.dimension(), Some(2));
}

#[test]
fn dimension_reports_mismatched_vectors() {
    let good = body(1.0, vec![0.0, 0.0, 0.0], vec![0.0, 0.0, 0.0], vec![0.0, 0.0, 0.0], vec![0.0, 0.0, 0.0]);
    assert_eq!(good.dimension(), Some(3));
    let short_velocity = body(1.0, vec![0.0, 0.0, 0.0], vec![0.0, 0.0], vec![0.0, 0.0, 0.0], vec![0.0, 0.0, 0.0]);
    assert_eq!(short_velocity.dimension(), None);
    let long_force_old = body(1.0, vec![0.0], vec![0.0], vec![0.0], vec![0.0, 1.0]);
    assert_eq!(long_force_old.dimension(), None);
}

#[test]
fn clear_force_zeroes_only_the_force() {
    let mut p = body(20.0, vec![0.0, 1.0, 2.0], vec![4.0, 5.0, 6.0], vec![7.0, 8.0, 9.0], vec![1.0, 2.0, 3.0]);
    p.clear_force(0.0);
    assert_eq!(p.force, [0.0, 0.0, 0.0]);
    assert_eq!(p.force_old, [1.0, 2.0, 3.0]);
    assert_eq!(p.position, [0.0, 1.0, 2.0]);
    assert_eq!(p.velocity, [4.0, 5.0, 6.0]);
    assert_eq!(p.mass, 20.0);
}
