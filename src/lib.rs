//! A particle-space physics kernel on an integer lattice.
//!
//! Particles are point masses (or discs) in a rectangular arena. All
//! quantities are integers in units the caller chooses (for example one
//! length unit = one micrometre of arena), so every operation is exact or
//! rounds in a way the contracts spell out.
//!
//! Two strategies advance the population one tick at a time:
//! N-body gravitation with a wrapping or reflecting boundary, and ballistic
//! motion with wall reflection and elastic pairwise collisions.

pub mod arith;
pub mod vector;
pub mod particle;
pub mod arena;
pub mod collision;
pub mod gravity;
pub mod simulation;
pub mod factory;
pub mod energy;
pub mod laws;

pub use arith::{trunc_div, clamp_speed};
pub use vector::{Vec2, get_euclidean_distance, isqrt};
pub use particle::{Particle, COORD_LIMIT, SPEED_LIMIT, MASS_LIMIT};
pub use arena::{Arena, Boundary, advance};
pub use collision::{detect_overlap, resolve_collision, detect_particle_collisions};
pub use gravity::{Force, G_LIMIT, POPULATION_LIMIT, get_gravitational_force, step_gravity};
pub use simulation::{Mode, Simulation, step_collision};
pub use factory::{Config, SimError, check_config, create_particles, overlaps_any, offer_candidate, place_particles};
pub use energy::{total_momentum, get_kinetic_energy, kinetic_energy_doubled, get_gravitational_potential_energy};
