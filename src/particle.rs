use vstd::prelude::*;
use crate::vector::Vec2;

verus! {

/// Largest magnitude of a position coordinate (2^30).
pub const COORD_LIMIT: i64 = 1073741824;

/// Largest magnitude of a velocity component, in length units per tick (2^30).
pub const SPEED_LIMIT: i64 = 1073741824;

/// Largest mass of a particle (2^20).
pub const MASS_LIMIT: u64 = 1048576;

/// A body of the population: a disc of fixed mass and radius that moves.
#[derive(Clone, Copy, Debug, PartialEq, Eq, Structural)]
pub struct Particle {
    /// Stable identifier, assigned at creation.
    pub id: u64,
    /// Mass, at least 1.
    pub mass: u64,
    /// Contact radius; 0 makes a point mass.
    pub radius: u64,
    pub position: Vec2,
    /// Displacement per tick.
    pub velocity: Vec2,
}

/// `v` lies in `[-limit, limit]`.
pub open spec fn within(v: int, limit: int) -> bool {
    -limit <= v <= limit
}

impl Particle {
    /// The particle's quantities lie within the kernel's limits.
    pub open spec fn wf(&self) -> bool {
        &&& 1 <= self.mass <= MASS_LIMIT
        &&& self.radius <= COORD_LIMIT
        &&& within(self.position.x as int, COORD_LIMIT as int)
        &&& within(self.position.y as int, COORD_LIMIT as int)
        &&& within(self.velocity.x as int, SPEED_LIMIT as int)
        &&& within(self.velocity.y as int, SPEED_LIMIT as int)
    }

    /// The same particle with another velocity.
    pub open spec fn with_velocity(self, vx: int, vy: int) -> Particle {
        Particle { velocity: Vec2 { x: vx as i64, y: vy as i64 }, ..self }
    }

    /// The same particle at another position.
    pub open spec fn with_position(self, x: int, y: int) -> Particle {
        Particle { position: Vec2 { x: x as i64, y: y as i64 }, ..self }
    }

    /// Momentum along x: `m * vx`.
    pub open spec fn momentum_x(self) -> int {
        self.mass * self.velocity.x
    }

    /// Momentum along y: `m * vy`.
    pub open spec fn momentum_y(self) -> int {
        self.mass * self.velocity.y
    }

    /// Twice the kinetic energy: `m * |v|^2`.
    pub open spec fn energy2(self) -> int {
        self.mass * (self.velocity.x * self.velocity.x + self.velocity.y * self.velocity.y)
    }
}

/// All particles of `ps` are well formed.
pub open spec fn all_wf(ps: Seq<Particle>) -> bool {
    forall|i: int| 0 <= i < ps.len() ==> (#[trigger] ps[i]).wf()
}

} // verus!
