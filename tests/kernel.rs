use particle_space::{
    advance, check_config, create_particles, detect_overlap, get_euclidean_distance,
    get_gravitational_force, get_gravitational_potential_energy, get_kinetic_energy, isqrt, kinetic_energy_doubled,
    offer_candidate, place_particles, resolve_collision, total_momentum, trunc_div, Arena, Boundary, Config, Mode, Particle,
    SimError, Simulation, Vec2,
};
use rand::rngs::StdRng;
use rand::SeedableRng;

fn particle(id: u64, mass: u64, radius: u64, x: i64, y: i64, vx: i64, vy: i64) -> Particle {
    Particle {
        id,
        mass,
        radius,
        position: Vec2 { x, y },
        velocity: Vec2 { x: vx, y: vy },
    }
}

fn square(half: i64) -> Arena {
    Arena { min_x: -half, max_x: half, min_y: -half, max_y: half }
}

fn collision_config(n: usize, radius: u64, attempts: u64) -> Config {
    Config {
        num_particles: n,
        min_mass: 1,
        max_mass: 1000,
        max_velocity: 50,
        radius,
        arena: square(10_000),
        mode: Mode::Collision,
        max_attempts: attempts,
    }
}

#[test]
fn head_on_equal_masses_exchange_velocities() {
    let p1 = particle(0, 1, 10, -15, 0, 1, 0);
    let p2 = particle(1, 1, 10, 15, 0, -1, 0);
    assert_eq!(resolve_collision(&p1, &p2), Vec2 { x: -1, y: 0 });
    assert_eq!(resolve_collision(&p2, &p1), Vec2 { x: 1, y: 0 });
}

#[test]
fn one_step_brings_pair_into_contact_and_exchanges() {
    let ps = vec![particle(0, 1, 10, -15, 0, 6, 0), particle(1, 1, 10, 15, 0, -6, 0)];
    let mut sim = Simulation::from_particles(ps, square(100), Mode::Collision).unwrap();
    sim.step();
    let after = sim.particles();
    assert_eq!(after[0].position, Vec2 { x: -9, y: 0 });
    assert_eq!(after[1].position, Vec2 { x: 9, y: 0 });
    assert_eq!(after[0].velocity, Vec2 { x: -6, y: 0 });
    assert_eq!(after[1].velocity, Vec2 { x: 6, y: 0 });
    assert_eq!(sim.time(), 1);
}

#[test]
fn touching_discs_do_not_overlap() {
    let a = particle(0, 1, 10, 0, 0, 0, 0);
    let b = particle(1, 1, 10, 20, 0, 0, 0);
    let c = particle(2, 1, 10, 19, 0, 0, 0);
    assert!(!detect_overlap(&a, &b));
    assert!(detect_overlap(&a, &c));
}

#[test]
fn zero_gravity_single_particle_moves_linearly() {
    let ps = vec![particle(0, 5, 0, 0, 0, 3, -2)];
    let mode = Mode::Gravity { g: 0, boundary: Boundary::Wrap };
    let mut sim = Simulation::from_particles(ps, square(1000), mode).unwrap();
    for t in 1..=5i64 {
        sim.step();
        let p = sim.particles()[0];
        assert_eq!(p.velocity, Vec2 { x: 3, y: -2 });
        assert_eq!(p.position, Vec2 { x: 3 * t, y: -2 * t });
    }
}

#[test]
fn lone_particle_feels_no_gravity() {
    let ps = vec![particle(0, 5, 0, 10, 10, 1, 1)];
    let mode = Mode::Gravity { g: 1000, boundary: Boundary::Reflect };
    let mut sim = Simulation::from_particles(ps, square(1000), mode).unwrap();
    sim.step();
    sim.step();
    assert_eq!(sim.particles()[0].position, Vec2 { x: 12, y: 12 });
    assert_eq!(sim.particles()[0].velocity, Vec2 { x: 1, y: 1 });
}

#[test]
fn gravitational_force_exact_and_opposite() {
    let ps = vec![particle(0, 1, 0, 0, 0, 0, 0), particle(1, 1, 0, 10, 0, 0, 0)];
    let f0 = get_gravitational_force(&ps, 0, 1000);
    let f1 = get_gravitational_force(&ps, 1, 1000);
    // 1000 * 1 * 1 * 10 / (100 * 10)
    assert_eq!((f0.x, f0.y), (10, 0));
    assert_eq!((f1.x, f1.y), (-10, 0));
}

#[test]
fn coincident_particles_exert_no_force() {
    let ps = vec![particle(0, 3, 0, 7, 7, 0, 0), particle(1, 4, 0, 7, 7, 0, 0)];
    let f = get_gravitational_force(&ps, 0, 1000);
    assert_eq!((f.x, f.y), (0, 0));
}

#[test]
fn gravity_step_attracts_pair() {
    let ps = vec![particle(0, 1, 0, 0, 0, 0, 0), particle(1, 1, 0, 10, 0, 0, 0)];
    let mode = Mode::Gravity { g: 1000, boundary: Boundary::Wrap };
    let mut sim = Simulation::from_particles(ps, square(1000), mode).unwrap();
    sim.step();
    let after = sim.particles();
    assert_eq!(after[0].velocity, Vec2 { x: 10, y: 0 });
    assert_eq!(after[1].velocity, Vec2 { x: -10, y: 0 });
    assert_eq!(after[0].position, Vec2 { x: 10, y: 0 });
    assert_eq!(after[1].position, Vec2 { x: 0, y: 0 });
}

#[test]
fn gravity_momentum_changes_at_most_by_total_mass() {
    let ps = vec![
        particle(0, 7, 0, 0, 0, 1, 2),
        particle(1, 3, 0, 40, 13, -2, 0),
        particle(2, 11, 0, -25, 31, 0, -1),
        particle(3, 5, 0, 17, -60, 3, 3),
    ];
    let total_mass: i128 = ps.iter().map(|p| p.mass as i128).sum();
    let mode = Mode::Gravity { g: 5000, boundary: Boundary::Wrap };
    let mut sim = Simulation::from_particles(ps, square(1000), mode).unwrap();
    for _ in 0..20 {
        let before = total_momentum(sim.particles());
        sim.step();
        let after = total_momentum(sim.particles());
        assert!((after.0 - before.0).abs() <= total_mass);
        assert!((after.1 - before.1).abs() <= total_mass);
    }
}

#[test]
fn unequal_masses_collision_conserves_momentum_and_energy_closely() {
    let p1 = particle(0, 3, 10, 0, 0, 40, 10);
    let p2 = particle(1, 1, 10, 12, 5, -20, 0);
    let v1 = resolve_collision(&p1, &p2);
    let v2 = resolve_collision(&p2, &p1);
    let before = (3 * 40 + -20, 3 * 10);
    let after = (3 * v1.x + v2.x, 3 * v1.y + v2.y);
    assert!((after.0 - before.0).abs() < 4);
    assert!((after.1 - before.1).abs() < 4);
    let e_before = 3.0 * (40.0f64 * 40.0 + 10.0 * 10.0) + 20.0 * 20.0;
    let e_after = 3.0 * ((v1.x * v1.x + v1.y * v1.y) as f64) + (v2.x * v2.x + v2.y * v2.y) as f64;
    assert!((e_after - e_before).abs() / e_before < 0.02);
    assert_ne!(v1, p1.velocity);
}

#[test]
fn generated_discs_do_not_overlap() {
    let mut rng = StdRng::seed_from_u64(7);
    let config = collision_config(60, 400, 10_000);
    let ps = create_particles(&config, &mut rng).unwrap();
    assert_eq!(ps.len(), 60);
    for i in 0..ps.len() {
        assert_eq!(ps[i].id, i as u64);
        for j in i + 1..ps.len() {
            assert!(!detect_overlap(&ps[i], &ps[j]));
        }
    }
}

#[test]
fn generated_values_stay_in_their_ranges() {
    let mut rng = StdRng::seed_from_u64(11);
    let config = collision_config(50, 100, 1000);
    let ps = create_particles(&config, &mut rng).unwrap();
    for p in &ps {
        assert!(1 <= p.mass && p.mass <= 1000);
        assert_eq!(p.radius, 100);
        assert!(-9_900 <= p.position.x && p.position.x <= 9_900);
        assert!(-9_900 <= p.position.y && p.position.y <= 9_900);
        assert!(-50 <= p.velocity.x && p.velocity.x <= 50);
    }
    let distinct_masses = ps.iter().filter(|p| p.mass != ps[0].mass).count();
    assert!(distinct_masses > 0);
    assert!(ps.iter().any(|p| p.mass != 1));
}

#[test]
fn walls_contain_every_disc_after_every_step() {
    let mut rng = StdRng::seed_from_u64(3);
    let config = Config { arena: square(2_000), max_velocity: 300, ..collision_config(25, 150, 10_000) };
    let mut sim = Simulation::new(&config, &mut rng).unwrap();
    for _ in 0..300 {
        sim.step();
        for p in sim.particles() {
            let r = p.radius as i64;
            assert!(p.position.x - r >= -2_000 && p.position.x + r <= 2_000);
            assert!(p.position.y - r >= -2_000 && p.position.y + r <= 2_000);
        }
    }
    assert_eq!(sim.time(), 300);
}

#[test]
fn wall_reflection_clamps_and_negates() {
    let arena = square(100);
    let mut p = particle(0, 1, 10, 95, 0, 10, -3);
    advance(&mut p);
    assert_eq!(p.position, Vec2 { x: 105, y: -3 });
    arena.detect_wall_collision(&mut p);
    assert_eq!(p.position, Vec2 { x: 90, y: -3 });
    assert_eq!(p.velocity, Vec2 { x: -10, y: -3 });
}

#[test]
fn wrap_boundary_reenters_opposite_edge() {
    let arena = square(1000);
    let mut p = particle(0, 1, 0, 995, -999, 10, -7);
    advance(&mut p);
    arena.wrap_position(&mut p);
    assert_eq!(p.position, Vec2 { x: -995, y: 994 });
    assert_eq!(p.velocity, Vec2 { x: 10, y: -7 });
}

#[test]
fn identical_runs_are_identical() {
    let config = Config {
        mode: Mode::Gravity { g: 2000, boundary: Boundary::Wrap },
        radius: 0,
        ..collision_config(30, 0, 10)
    };
    let mut a = Simulation::new(&config, &mut StdRng::seed_from_u64(42)).unwrap();
    let mut b = Simulation::new(&config, &mut StdRng::seed_from_u64(42)).unwrap();
    assert_eq!(a.particles(), b.particles());
    for _ in 0..50 {
        a.step();
        b.step();
    }
    assert_eq!(a.particles(), b.particles());
    let c = Simulation::from_particles(a.particles().clone(), a.arena(), a.mode()).unwrap();
    let mut c = c;
    let mut d = Simulation::from_particles(a.particles().clone(), a.arena(), a.mode()).unwrap();
    c.step();
    d.step();
    assert_eq!(c.particles(), d.particles());
}

#[test]
fn collision_run_is_deterministic() {
    let config = collision_config(20, 200, 1000);
    let mut a = Simulation::new(&config, &mut StdRng::seed_from_u64(5)).unwrap();
    let mut b = Simulation::new(&config, &mut StdRng::seed_from_u64(5)).unwrap();
    for _ in 0..100 {
        a.step();
        b.step();
    }
    assert_eq!(a.particles(), b.particles());
}

#[test]
fn configuration_errors() {
    let base = collision_config(10, 10, 100);
    assert_eq!(check_config(&base), None);
    assert_eq!(check_config(&Config { num_particles: 0, ..base }), Some(SimError::EmptyPopulation));
    assert_eq!(check_config(&Config { num_particles: 2_000_000, ..base }), Some(SimError::TooManyParticles));
    assert_eq!(check_config(&Config { min_mass: 0, ..base }), Some(SimError::InvalidMass));
    assert_eq!(check_config(&Config { min_mass: 5, max_mass: 4, ..base }), Some(SimError::InvalidMass));
    assert_eq!(check_config(&Config { max_velocity: -1, ..base }), Some(SimError::InvalidVelocity));
    let bad_arena = Arena { min_x: 10, max_x: 10, min_y: 0, max_y: 5 };
    assert_eq!(check_config(&Config { arena: bad_arena, ..base }), Some(SimError::InvalidArena));
    assert_eq!(check_config(&Config { radius: 0, ..base }), Some(SimError::InvalidRadius));
    assert_eq!(check_config(&Config { radius: 10_001, ..base }), Some(SimError::InvalidRadius));
    let strong = Mode::Gravity { g: 2_000_000, boundary: Boundary::Wrap };
    assert_eq!(check_config(&Config { mode: strong, radius: 0, ..base }), Some(SimError::InvalidGravity));
    let mut rng = StdRng::seed_from_u64(1);
    assert_eq!(
        create_particles(&Config { num_particles: 0, ..base }, &mut rng),
        Err(SimError::EmptyPopulation)
    );
}

#[test]
fn crowded_arena_exhausts_placement() {
    let mut rng = StdRng::seed_from_u64(9);
    let config = Config { arena: square(100), ..collision_config(5, 90, 50) };
    assert_eq!(create_particles(&config, &mut rng), Err(SimError::PlacementExhausted));
    let mut rng = StdRng::seed_from_u64(9);
    assert!(matches!(Simulation::new(&config, &mut rng), Err(SimError::PlacementExhausted)));
}

#[test]
fn invalid_states_are_rejected() {
    let outside = vec![particle(0, 1, 10, 95, 0, 0, 0)];
    assert!(matches!(
        Simulation::from_particles(outside, square(100), Mode::Collision),
        Err(SimError::InvalidParticle)
    ));
    let massless = vec![particle(0, 0, 0, 0, 0, 0, 0)];
    assert!(matches!(
        Simulation::from_particles(massless, square(100), Mode::Collision),
        Err(SimError::InvalidParticle)
    ));
    assert!(matches!(
        Simulation::from_particles(Vec::new(), square(100), Mode::Collision),
        Err(SimError::EmptyPopulation)
    ));
    let ok = vec![particle(0, 1, 0, 0, 0, 0, 0)];
    assert!(matches!(
        Simulation::from_particles(ok.clone(), Arena { min_x: 5, max_x: 0, min_y: 0, max_y: 5 }, Mode::Collision),
        Err(SimError::InvalidArena)
    ));
    assert!(matches!(
        Simulation::from_particles(ok, square(100), Mode::Gravity { g: 2_000_000, boundary: Boundary::Wrap }),
        Err(SimError::InvalidGravity)
    ));
}

#[test]
fn distances_energies_and_division() {
    let o = Vec2 { x: 0, y: 0 };
    assert_eq!(get_euclidean_distance(&o, &Vec2 { x: 3, y: 4 }), 5);
    assert_eq!(get_euclidean_distance(&o, &Vec2 { x: 1, y: 1 }), 1);
    assert_eq!(get_euclidean_distance(&Vec2 { x: -5, y: 2 }, &Vec2 { x: 7, y: -3 }), 13);
    assert_eq!(isqrt(0), 0);
    assert_eq!(isqrt(99), 9);
    assert_eq!(isqrt(100), 10);
    assert_eq!(isqrt(u64::MAX), 4294967295);
    assert_eq!(trunc_div(-7, 2), -3);
    assert_eq!(trunc_div(7, 2), 3);
    let ps = vec![particle(0, 2, 0, 0, 0, 3, 4), particle(1, 3, 0, 3, 4, -1, 0)];
    assert_eq!(get_kinetic_energy(&ps), (2 * 25 + 3) / 2);
    assert_eq!(kinetic_energy_doubled(&ps), 2 * 25 + 3);
    let pair = vec![particle(0, 2, 0, 0, 0, 3, 4), particle(1, 1, 0, 1, 1, 0, -2)];
    assert_eq!(get_kinetic_energy(&pair), 27);
    assert_eq!(get_kinetic_energy(&vec![particle(0, 2, 0, 0, 0, 1, 0)]), 1);
    assert_eq!(get_gravitational_potential_energy(&ps, 100), 100 * 2 * 3 / 5);
    assert_eq!(total_momentum(&ps), (3, 8));
    let coincident = vec![particle(0, 2, 0, 1, 1, 0, 0), particle(1, 3, 0, 1, 1, 0, 0)];
    assert_eq!(get_gravitational_potential_energy(&coincident, 100), 0);
}

#[test]
fn multi_particle_pass_uses_updated_velocities() {
    // Three equal discs in a row, the outer two closing in: pair (0, 1)
    // resolves first, then (1, 2) sees particle 1's new velocity.
    let ps = vec![
        particle(0, 1, 10, -18, 0, 4, 0),
        particle(1, 1, 10, 0, 0, 0, 0),
        particle(2, 1, 10, 18, 0, -4, 0),
    ];
    let mut v = ps.clone();
    particle_space::detect_particle_collisions(&mut v);
    assert_eq!(v[0].velocity, Vec2 { x: 0, y: 0 });
    assert_eq!(v[1].velocity, Vec2 { x: -4, y: 0 });
    assert_eq!(v[2].velocity, Vec2 { x: 4, y: 0 });
}

#[test]
fn placement_gives_up_after_refused_attempts() {
    let config = Config { num_particles: 2, max_attempts: 2, arena: square(1000), ..collision_config(2, 100, 2) };
    let a = particle(9, 10, 100, 0, 0, 1, 1);
    let near1 = particle(9, 10, 100, 150, 0, 0, 0);
    let near2 = particle(9, 10, 100, 0, -199, 0, 0);
    let far = particle(9, 20, 100, 500, 500, -3, 2);
    assert_eq!(place_particles(&config, &vec![a, near1, near2, far]), Some(Err(SimError::PlacementExhausted)));
    let placed = place_particles(&config, &vec![a, near1, far]).unwrap().unwrap();
    assert_eq!(placed.len(), 2);
    assert_eq!(placed[0], Particle { id: 0, ..a });
    assert_eq!(placed[1], Particle { id: 1, ..far });
    assert_eq!(place_particles(&config, &vec![a, near1]), None);
    assert_eq!(place_particles(&config, &vec![]), None);
    let touching = particle(9, 10, 100, 200, 0, 0, 0);
    assert_eq!(place_particles(&config, &vec![a, touching]).unwrap().unwrap()[1].position, Vec2 { x: 200, y: 0 });
}

#[test]
fn placement_reports_configuration_errors_and_zero_budget() {
    let config = collision_config(0, 100, 5);
    assert_eq!(place_particles(&config, &vec![]), Some(Err(SimError::EmptyPopulation)));
    let config = collision_config(1, 100, 0);
    let a = particle(0, 10, 100, 0, 0, 0, 0);
    assert_eq!(place_particles(&config, &vec![a]), Some(Err(SimError::PlacementExhausted)));
    let mut rng = StdRng::seed_from_u64(4);
    assert_eq!(create_particles(&config, &mut rng), Err(SimError::PlacementExhausted));
}

#[test]
fn gravity_mode_accepts_overlapping_candidates() {
    let config = Config { mode: Mode::Gravity { g: 10, boundary: Boundary::Reflect }, ..collision_config(2, 100, 1) };
    let a = particle(0, 10, 100, 0, 0, 0, 0);
    let b = particle(0, 10, 100, 10, 0, 0, 0);
    let placed = place_particles(&config, &vec![a, b]).unwrap().unwrap();
    assert_eq!(placed[1].id, 1);
    assert_eq!(placed[1].position, Vec2 { x: 10, y: 0 });
}

#[test]
fn offered_candidates_count_attempts() {
    let config = collision_config(3, 100, 5);
    let mut accepted = Vec::new();
    let mut tries = 0u64;
    offer_candidate(&config, &mut accepted, &mut tries, particle(7, 10, 100, 0, 0, 0, 0));
    assert_eq!((accepted.len(), tries, accepted[0].id), (1, 0, 0));
    offer_candidate(&config, &mut accepted, &mut tries, particle(7, 10, 100, 50, 0, 0, 0));
    assert_eq!((accepted.len(), tries), (1, 1));
    offer_candidate(&config, &mut accepted, &mut tries, particle(7, 10, 100, 300, 0, 0, 0));
    assert_eq!((accepted.len(), tries, accepted[1].id), (2, 0, 1));
}

#[test]
fn single_disc_is_always_placed() {
    for seed in 0..20 {
        let mut rng = StdRng::seed_from_u64(seed);
        let config = Config { arena: square(500), ..collision_config(1, 400, 1) };
        assert_eq!(create_particles(&config, &mut rng).unwrap().len(), 1);
    }
}

#[test]
fn coordinate_on_the_upper_bound_is_not_wrapped() {
    let arena = Arena { min_x: 0, max_x: 10, min_y: 0, max_y: 10 };
    let mut p = particle(0, 1, 0, 8, 3, 2, -3);
    advance(&mut p);
    arena.wrap_position(&mut p);
    assert_eq!(p.position, Vec2 { x: 10, y: 0 });
    let mut q = particle(0, 1, 0, 9, 1, 2, -2);
    advance(&mut q);
    arena.wrap_position(&mut q);
    assert_eq!(q.position, Vec2 { x: 1, y: 9 });
}

#[test]
fn zero_force_update_reaches_the_bound() {
    let arena = Arena { min_x: 0, max_x: 10, min_y: 0, max_y: 10 };
    let mut p = particle(0, 4, 0, 8, 5, 2, 0);
    p.update(&arena, Boundary::Wrap, particle_space::Force { x: 0, y: 0 });
    assert_eq!(p.position, Vec2 { x: 10, y: 5 });
    assert_eq!(p.velocity, Vec2 { x: 2, y: 0 });
}
