use vstd::prelude::*;
use crate::particle::{Particle, COORD_LIMIT, SPEED_LIMIT, MASS_LIMIT, within};
use crate::vector::Vec2;

verus! {

/// The rectangle `[min_x, max_x] x [min_y, max_y]` that holds the particles.
#[derive(Clone, Copy, Debug, PartialEq, Eq, Structural)]
pub struct Arena {
    pub min_x: i64,
    pub max_x: i64,
    pub min_y: i64,
    pub max_y: i64,
}

/// What happens to a particle that leaves the arena.
#[derive(Clone, Copy, Debug, PartialEq, Eq, Structural)]
pub enum Boundary {
    /// Leaving one edge re-enters at the opposite edge (a torus).
    Wrap,
    /// The disc is put back against the wall and its velocity component negated.
    Reflect,
}

/// Reflection on one axis: a disc of radius `r` at `p` with velocity `v`
/// that crosses `lo` or `hi` is set against that wall and `v` is negated.
pub open spec fn reflect_axis(p: int, v: int, r: int, lo: int, hi: int) -> (int, int) {
    if p - r < lo {
        (lo + r, -v)
    } else if p + r > hi {
        (hi - r, -v)
    } else {
        (p, v)
    }
}

/// Wrap-around on one axis: a `p` beyond `[lo, hi]` is translated by a
/// multiple of `hi - lo` back into it; a `p` inside, bounds included, stays.
pub open spec fn wrap_axis(p: int, lo: int, hi: int) -> int {
    if p < lo {
        lo + (p - lo) % (hi - lo)
    } else if p > hi {
        hi - (hi - p) % (hi - lo)
    } else {
        p
    }
}

/// The particle after one tick of ballistic motion: `position += velocity`.
pub open spec fn moved(p: Particle) -> Particle {
    p.with_position(p.position.x + p.velocity.x, p.position.y + p.velocity.y)
}

/// A particle whose position and velocity may exceed the limits by one tick of motion.
pub open spec fn in_flight(p: Particle) -> bool {
    &&& 1 <= p.mass <= MASS_LIMIT
    &&& p.radius <= COORD_LIMIT
    &&& within(p.position.x as int, 2 * COORD_LIMIT)
    &&& within(p.position.y as int, 2 * COORD_LIMIT)
    &&& within(p.velocity.x as int, SPEED_LIMIT as int)
    &&& within(p.velocity.y as int, SPEED_LIMIT as int)
}

impl Arena {
    /// The bounds are ordered and within the coordinate limit.
    pub open spec fn wf(&self) -> bool {
        &&& -COORD_LIMIT <= self.min_x < self.max_x <= COORD_LIMIT
        &&& -COORD_LIMIT <= self.min_y < self.max_y <= COORD_LIMIT
    }

    /// A disc of radius `r` fits between the walls on both axes.
    pub open spec fn fits(&self, r: int) -> bool {
        &&& 2 * r <= self.max_x - self.min_x
        &&& 2 * r <= self.max_y - self.min_y
    }

    /// The whole disc of `p` lies inside the arena.
    pub open spec fn contains(&self, p: Particle) -> bool {
        &&& self.min_x <= p.position.x - p.radius
        &&& p.position.x + p.radius <= self.max_x
        &&& self.min_y <= p.position.y - p.radius
        &&& p.position.y + p.radius <= self.max_y
    }

    /// The centre of `p` lies in the arena `[min, max]` on both axes.
    pub open spec fn holds_centre(&self, p: Particle) -> bool {
        &&& self.min_x <= p.position.x <= self.max_x
        &&& self.min_y <= p.position.y <= self.max_y
    }

    /// `p` after wall reflection on both axes.
    pub open spec fn bounced(self, p: Particle) -> Particle {
        let (x, vx) = reflect_axis(p.position.x as int, p.velocity.x as int, p.radius as int,
            self.min_x as int, self.max_x as int);
        let (y, vy) = reflect_axis(p.position.y as int, p.velocity.y as int, p.radius as int,
            self.min_y as int, self.max_y as int);
        Particle { position: Vec2 { x: x as i64, y: y as i64 },
            velocity: Vec2 { x: vx as i64, y: vy as i64 }, ..p }
    }

    /// `p` with its centre wrapped into the arena.
    pub open spec fn wrapped(self, p: Particle) -> Particle {
        p.with_position(wrap_axis(p.position.x as int, self.min_x as int, self.max_x as int),
            wrap_axis(p.position.y as int, self.min_y as int, self.max_y as int))
    }

    /// `p` after the boundary policy `b`.
    pub open spec fn confined(self, b: Boundary, p: Particle) -> Particle {
        match b {
            Boundary::Wrap => self.wrapped(p),
            Boundary::Reflect => self.bounced(p),
        }
    }

    /// What the arena guarantees of a particle after the boundary policy `b`.
    pub open spec fn keeps(self, b: Boundary, p: Particle) -> bool {
        match b {
            Boundary::Wrap => self.holds_centre(p),
            Boundary::Reflect => self.contains(p),
        }
    }

    /// Reflects the particle off any wall that its disc crosses: the disc is
    /// placed against that wall and the velocity component on that axis negated.
    pub fn detect_wall_collision(&self, particle: &mut Particle)
        requires
            self.wf(),
            self.fits(old(particle).radius as int),
            in_flight(*old(particle)),
        ensures
            *final(particle) == self.bounced(*old(particle)),
            self.contains(*final(particle)),
            final(particle).wf(),
    {
        let r = particle.radius as i64;
        if particle.position.x - r < self.min_x {
            particle.position.x = self.min_x + r;
            particle.velocity.x = -particle.velocity.x;
        } else if particle.position.x + r > self.max_x {
            particle.position.x = self.max_x - r;
            particle.velocity.x = -particle.velocity.x;
        }
        if particle.position.y - r < self.min_y {
            particle.position.y = self.min_y + r;
            particle.velocity.y = -particle.velocity.y;
        } else if particle.position.y + r > self.max_y {
            particle.position.y = self.max_y - r;
            particle.velocity.y = -particle.velocity.y;
        }
    }

    /// Translates a centre beyond the arena by whole arena extents back into `[min, max]`.
    pub fn wrap_position(&self, particle: &mut Particle)
        requires
            self.wf(),
            in_flight(*old(particle)),
        ensures
            *final(particle) == self.wrapped(*old(particle)),
            self.holds_centre(*final(particle)),
            final(particle).velocity == old(particle).velocity,
    {
        particle.position.x = wrap_coord(particle.position.x, self.min_x, self.max_x);
        particle.position.y = wrap_coord(particle.position.y, self.min_y, self.max_y);
    }

    /// Applies the boundary policy `boundary` to the particle.
    pub fn confine(&self, boundary: Boundary, particle: &mut Particle)
        requires
            self.wf(),
            boundary == Boundary::Reflect ==> self.fits(old(particle).radius as int),
            in_flight(*old(particle)),
        ensures
            *final(particle) == self.confined(boundary, *old(particle)),
            self.keeps(boundary, *final(particle)),
            final(particle).wf(),
    {
        match boundary {
            Boundary::Wrap => self.wrap_position(particle),
            Boundary::Reflect => self.detect_wall_collision(particle),
        }
    }
}

/// One coordinate wrapped into `[lo, hi]`.
fn wrap_coord(p: i64, lo: i64, hi: i64) -> (r: i64)
    requires
        -COORD_LIMIT <= lo < hi <= COORD_LIMIT,
        within(p as int, 2 * COORD_LIMIT),
    ensures
        r as int == wrap_axis(p as int, lo as int, hi as int),
        lo <= r <= hi,
{
    let w: i64 = hi - lo;
    if p < lo {
        let d: i64 = p - lo;
        match d.checked_rem_euclid(w) {
            Some(m) => {
                proof {
                    vstd::arithmetic::div_mod::lemma_mod_bound(d as int, w as int);
                }
                lo + m
            },
            None => lo,
        }
    } else if p > hi {
        let d: i64 = hi - p;
        match d.checked_rem_euclid(w) {
            Some(m) => {
                proof {
                    vstd::arithmetic::div_mod::lemma_mod_bound(d as int, w as int);
                }
                hi - m
            },
            None => hi,
        }
    } else {
        p
    }
}

/// Advances the particle by one tick of ballistic motion.
pub fn advance(particle: &mut Particle)
    requires
        old(particle).wf(),
    ensures
        *final(particle) == moved(*old(particle)),
        in_flight(*final(particle)),
{
    particle.position.x = particle.position.x + particle.velocity.x;
    particle.position.y = particle.position.y + particle.velocity.y;
}

} // verus!
