use vstd::prelude::*;
use crate::arith::{trunc_div, trunc_div_spec, clamp_spec, clamp_speed, lemma_trunc_div_bound};
use crate::arena::{Arena, Boundary, moved};
use crate::particle::{Particle, SPEED_LIMIT, MASS_LIMIT, all_wf};
use crate::vector::{dist2_spec, floor_sqrt, isqrt, lemma_floor_sqrt};

verus! {

/// Largest gravitational constant (2^20).
pub const G_LIMIT: u64 = 1048576;

/// Largest population (2^20).
pub const POPULATION_LIMIT: usize = 1048576;

/// Largest magnitude of the force between two particles: `G_LIMIT * MASS_LIMIT^2`.
pub open spec fn pair_force_limit() -> int {
    G_LIMIT * MASS_LIMIT * MASS_LIMIT
}

/// A force, in mass times length per tick squared.
#[derive(Clone, Copy, Debug, PartialEq, Eq, Structural)]
pub struct Force {
    pub x: i128,
    pub y: i128,
}

/// Component of the attraction of `source` towards `other` whose offset
/// `other - source` on that axis is `d`: `G m_s m_o d / r^3` with `r` the
/// integer distance, rounded toward zero. Coincident centres attract with no force.
pub open spec fn pair_force(source: Particle, other: Particle, g: int, d: int) -> int {
    let r2 = dist2_spec(source.position, other.position);
    if r2 == 0 {
        0
    } else {
        trunc_div_spec(g * source.mass * other.mass * d, r2 * floor_sqrt(r2))
    }
}

/// Component of the pull of `other` on `source` along x (`x_axis`) or y.
pub open spec fn pair_force_on(source: Particle, other: Particle, g: int, x_axis: bool) -> int {
    if x_axis {
        pair_force(source, other, g, other.position.x - source.position.x)
    } else {
        pair_force(source, other, g, other.position.y - source.position.y)
    }
}

/// Sum of the pulls on particle `i` of the particles `0 .. k` other than `i`,
/// along x (`x_axis`) or y.
pub open spec fn force_upto(ps: Seq<Particle>, i: int, g: int, k: int, x_axis: bool) -> int
    decreases k,
{
    if k <= 0 {
        0
    } else {
        force_upto(ps, i, g, k - 1, x_axis) + if k - 1 == i { 0 } else { pair_force_on(ps[i], ps[k - 1], g, x_axis) }
    }
}

/// Total gravitational force on particle `i`, x component.
pub open spec fn force_x(ps: Seq<Particle>, i: int, g: int) -> int {
    force_upto(ps, i, g, ps.len() as int, true)
}

/// Total gravitational force on particle `i`, y component.
pub open spec fn force_y(ps: Seq<Particle>, i: int, g: int) -> int {
    force_upto(ps, i, g, ps.len() as int, false)
}

/// Velocity of `p` after the force `(fx, fy)` acts for one tick:
/// `v + F / m`, the quotient rounded toward zero, each component limited to `SPEED_LIMIT`.
pub open spec fn accelerated(p: Particle, fx: int, fy: int) -> Particle {
    p.with_velocity(
        clamp_spec(p.velocity.x + trunc_div_spec(fx, p.mass as int), SPEED_LIMIT as int),
        clamp_spec(p.velocity.y + trunc_div_spec(fy, p.mass as int), SPEED_LIMIT as int),
    )
}

/// `p` after one tick under the force `(fx, fy)`: velocity first, then position,
/// then the boundary policy.
pub open spec fn integrated(p: Particle, fx: int, fy: int, arena: Arena, boundary: Boundary) -> Particle {
    arena.confined(boundary, moved(accelerated(p, fx, fy)))
}

/// The population after one gravity tick: every force is read from `ps`, the
/// state before the tick, and then every particle is integrated.
pub open spec fn gravity_step(ps: Seq<Particle>, g: int, arena: Arena, boundary: Boundary) -> Seq<Particle> {
    Seq::new(ps.len(), |i: int| integrated(ps[i], force_x(ps, i, g), force_y(ps, i, g), arena, boundary))
}

proof fn lemma_pair_force_bound(source: Particle, other: Particle, g: int, d: int)
    requires
        source.wf(),
        other.wf(),
        0 <= g <= G_LIMIT,
        d == other.position.x - source.position.x || d == other.position.y - source.position.y,
    ensures
        -pair_force_limit() <= pair_force(source, other, g, d) <= pair_force_limit(),
{
    let r2 = dist2_spec(source.position, other.position);
    if r2 != 0 {
        let dx = source.position.x - other.position.x;
        let dy = source.position.y - other.position.y;
        let r = floor_sqrt(r2);
        assert(dx * dx >= 0 && dy * dy >= 0) by (nonlinear_arith);
        lemma_floor_sqrt(r2);
        assert(r2 >= 1);
        assert(r >= 1) by (nonlinear_arith)
            requires r * r <= r2 < (r + 1) * (r + 1), r >= 0, r2 >= 1;
        assert(d * d <= r2) by (nonlinear_arith)
            requires d == -dx || d == -dy, r2 == dx * dx + dy * dy, dx * dx >= 0, dy * dy >= 0;
        assert(-d <= d * d && d <= d * d) by (nonlinear_arith);
        let den = r2 * r;
        assert(r2 <= den) by (nonlinear_arith) requires den == r2 * r, r >= 1, r2 >= 1;
        let gmm = g * source.mass * other.mass;
        assert(0 <= gmm <= pair_force_limit()) by (nonlinear_arith)
            requires gmm == g * source.mass * other.mass, 0 <= g <= G_LIMIT,
                1 <= source.mass <= MASS_LIMIT, 1 <= other.mass <= MASS_LIMIT;
        assert(-(gmm * den) <= gmm * d <= gmm * den) by (nonlinear_arith)
            requires -den <= d <= den, gmm >= 0;
        assert(gmm * d == g * source.mass * other.mass * d);
        lemma_trunc_div_bound(gmm * d, den, gmm);
    }
}

/// The pull of `other` on `source`, both components.
fn pair_force_of(source: &Particle, other: &Particle, g: u64) -> (f: Force)
    requires
        source.wf(),
        other.wf(),
        g <= G_LIMIT,
    ensures
        f.x as int == pair_force_on(*source, *other, g as int, true),
        f.y as int == pair_force_on(*source, *other, g as int, false),
{
    let dx: i128 = other.position.x as i128 - source.position.x as i128;
    let dy: i128 = other.position.y as i128 - source.position.y as i128;
    let lim: i128 = 0x8000_0000;
    assert(0 <= dx * dx <= lim * lim) by (nonlinear_arith) requires -lim <= dx <= lim;
    assert(0 <= dy * dy <= lim * lim) by (nonlinear_arith) requires -lim <= dy <= lim;
    let qx: i128 = dx * dx;
    let qy: i128 = dy * dy;
    let r2: i128 = qx + qy;
    assert(r2 == dist2_spec(source.position, other.position)) by (nonlinear_arith)
        requires r2 == dx * dx + dy * dy, dx == other.position.x - source.position.x,
            dy == other.position.y - source.position.y;
    if r2 == 0 {
        return Force { x: 0, y: 0 };
    }
    let r: u64 = isqrt(r2 as u64);
    assert(0 <= r2 * r <= (2 * lim * lim) * 4294967295) by (nonlinear_arith)
        requires 0 <= r2 <= 2 * lim * lim, 0 <= r <= 4294967295;
    let den: i128 = r2 * (r as i128);
    assert(den > 0) by (nonlinear_arith) requires den == r2 * r, r2 > 0, r * r <= r2 < (r + 1) * (r + 1), r >= 0;
    assert(0 <= (g as i128) * (source.mass as i128) <= 0x10_0000 * 0x10_0000) by (nonlinear_arith)
        requires 0 <= g <= 0x10_0000, 0 <= source.mass <= 0x10_0000;
    let gm: i128 = (g as i128) * (source.mass as i128);
    assert(0 <= gm * (other.mass as i128) <= 0x10_0000 * 0x10_0000 * 0x10_0000) by (nonlinear_arith)
        requires 0 <= gm <= 0x10_0000 * 0x10_0000, 0 <= other.mass <= 0x10_0000;
    let gmm: i128 = gm * (other.mass as i128);
    let ghost bound: int = 0x1000_0000_0000_0000int;
    assert(-bound * lim <= gmm * dx <= bound * lim) by (nonlinear_arith)
        requires 0 <= gmm <= bound, -lim <= dx <= lim;
    assert(-bound * lim <= gmm * dy <= bound * lim) by (nonlinear_arith)
        requires 0 <= gmm <= bound, -lim <= dy <= lim;
    let fx = trunc_div(gmm * dx, den);
    let fy = trunc_div(gmm * dy, den);
    Force { x: fx, y: fy }
}

proof fn lemma_force_bound(ps: Seq<Particle>, i: int, g: int, k: int)
    requires
        all_wf(ps),
        0 <= i < ps.len(),
        0 <= k <= ps.len(),
        0 <= g <= G_LIMIT,
    ensures
        -(k * pair_force_limit()) <= force_upto(ps, i, g, k, true) <= k * pair_force_limit(),
        -(k * pair_force_limit()) <= force_upto(ps, i, g, k, false) <= k * pair_force_limit(),
    decreases k,
{
    if k > 0 {
        lemma_force_bound(ps, i, g, k - 1);
        lemma_pair_force_bound(ps[i], ps[k - 1], g, ps[k - 1].position.x - ps[i].position.x);
        lemma_pair_force_bound(ps[i], ps[k - 1], g, ps[k - 1].position.y - ps[i].position.y);
        assert(k * pair_force_limit() == (k - 1) * pair_force_limit() + pair_force_limit())
            by (nonlinear_arith);
    }
}

/// The bound on a total force that the population limit implies.
pub open spec fn force_limit() -> int {
    POPULATION_LIMIT * pair_force_limit()
}

/// Total gravitational force on the particle at `source_index`: the sum over
/// every other particle of `G m_s m_o (x_o - x_s) / r^3`, each pull rounded
/// toward zero. The force is read from the particles as they are; nothing changes.
pub fn get_gravitational_force(particles: &Vec<Particle>, source_index: usize, g: u64) -> (f: Force)
    requires
        all_wf(particles@),
        source_index < particles.len() <= POPULATION_LIMIT,
        g <= G_LIMIT,
    ensures
        f.x as int == force_x(particles@, source_index as int, g as int),
        f.y as int == force_y(particles@, source_index as int, g as int),
        -force_limit() <= f.x <= force_limit(),
        -force_limit() <= f.y <= force_limit(),
{
    let n = particles.len();
    let mut fx: i128 = 0;
    let mut fy: i128 = 0;
    let mut j: usize = 0;
    while j < n
        invariant
            n == particles.len() <= POPULATION_LIMIT,
            source_index < n,
            g <= G_LIMIT,
            all_wf(particles@),
            0 <= j <= n,
            fx as int == force_upto(particles@, source_index as int, g as int, j as int, true),
            fy as int == force_upto(particles@, source_index as int, g as int, j as int, false),
        decreases n - j,
    {
        proof {
            lemma_force_bound(particles@, source_index as int, g as int, j as int + 1);
            assert((j + 1) * pair_force_limit() <= force_limit()) by (nonlinear_arith)
                requires j + 1 <= POPULATION_LIMIT, pair_force_limit() >= 0;
        }
        if j != source_index {
            let pf = pair_force_of(&particles[source_index], &particles[j], g);
            fx = fx + pf.x;
            fy = fy + pf.y;
        }
        j = j + 1;
    }
    proof {
        lemma_force_bound(particles@, source_index as int, g as int, n as int);
        assert(n * pair_force_limit() <= force_limit()) by (nonlinear_arith)
            requires n <= POPULATION_LIMIT, pair_force_limit() >= 0;
    }
    Force { x: fx, y: fy }
}

impl Particle {
    /// Integrates one tick under `force`: `v += F / m` (rounded toward zero,
    /// limited to `SPEED_LIMIT`), then `p += v`, then the boundary policy.
    pub fn update(&mut self, arena: &Arena, boundary: Boundary, force: Force)
        requires
            old(self).wf(),
            arena.wf(),
            boundary == Boundary::Reflect ==> arena.fits(old(self).radius as int),
            -force_limit() <= force.x <= force_limit(),
            -force_limit() <= force.y <= force_limit(),
        ensures
            *final(self) == integrated(*old(self), force.x as int, force.y as int, *arena, boundary),
            final(self).wf(),
            arena.keeps(boundary, *final(self)),
    {
        let m = self.mass as i128;
        let ax = trunc_div(force.x, m);
        let ay = trunc_div(force.y, m);
        proof {
            assert(force_limit() <= force_limit() * m) by (nonlinear_arith)
                requires m >= 1, force_limit() >= 0;
            lemma_trunc_div_bound(force.x as int, m as int, force_limit());
            lemma_trunc_div_bound(force.y as int, m as int, force_limit());
        }
        self.velocity.x = clamp_speed(self.velocity.x as i128 + ax, SPEED_LIMIT);
        self.velocity.y = clamp_speed(self.velocity.y as i128 + ay, SPEED_LIMIT);
        crate::arena::advance(self);
        arena.confine(boundary, self);
    }
}

/// A gravity tick: all forces are computed from the state before the tick,
/// then every particle is integrated under its force.
pub fn step_gravity(particles: &mut Vec<Particle>, g: u64, arena: &Arena, boundary: Boundary)
    requires
        all_wf(old(particles)@),
        old(particles).len() <= POPULATION_LIMIT,
        g <= G_LIMIT,
        arena.wf(),
        boundary == Boundary::Reflect ==> forall|i: int| 0 <= i < old(particles).len()
            ==> arena.fits(#[trigger] old(particles)@[i].radius as int),
    ensures
        final(particles)@ == gravity_step(old(particles)@, g as int, *arena, boundary),
        final(particles).len() == old(particles).len(),
        all_wf(final(particles)@),
        boundary == Boundary::Reflect ==> forall|i: int| 0 <= i < final(particles).len()
            ==> arena.fits(#[trigger] final(particles)@[i].radius as int),
        forall|i: int| 0 <= i < final(particles).len() ==> arena.keeps(boundary, #[trigger] final(particles)@[i]),
{
    let ghost start = particles@;
    let n = particles.len();
    let mut forces: Vec<Force> = Vec::new();
    let mut i: usize = 0;
    while i < n
        invariant
            n == particles.len() <= POPULATION_LIMIT,
            particles@ == start,
            all_wf(start),
            g <= G_LIMIT,
            0 <= i <= n,
            forces.len() == i,
            forall|k: int| 0 <= k < i ==> {
                &&& (#[trigger] forces@[k]).x as int == force_x(start, k, g as int)
                &&& forces@[k].y as int == force_y(start, k, g as int)
                &&& -force_limit() <= forces@[k].x <= force_limit()
                &&& -force_limit() <= forces@[k].y <= force_limit()
            },
        decreases n - i,
    {
        let f = get_gravitational_force(particles, i, g);
        forces.push(f);
        i = i + 1;
    }
    let mut i: usize = 0;
    while i < n
        invariant
            n == particles.len() == forces.len(),
            arena.wf(),
            0 <= i <= n,
            start.len() == n,
            all_wf(start),
            boundary == Boundary::Reflect ==> forall|k: int| 0 <= k < n
                ==> arena.fits(#[trigger] start[k].radius as int),
            forall|k: int| 0 <= k < n ==> {
                &&& (#[trigger] forces@[k]).x as int == force_x(start, k, g as int)
                &&& forces@[k].y as int == force_y(start, k, g as int)
                &&& -force_limit() <= forces@[k].x <= force_limit()
                &&& -force_limit() <= forces@[k].y <= force_limit()
            },
            forall|k: int| i <= k < n ==> #[trigger] particles@[k] == start[k],
            forall|k: int| 0 <= k < i ==> #[trigger] particles@[k]
                == integrated(start[k], force_x(start, k, g as int), force_y(start, k, g as int), *arena, boundary),
            forall|k: int| 0 <= k < i ==> (#[trigger] particles@[k]).wf()
                && arena.keeps(boundary, particles@[k]),
        decreases n - i,
    {
        let mut p = particles[i];
        let f = forces[i];
        p.update(arena, boundary, f);
        particles.set(i, p);
        i = i + 1;
    }
    assert(particles@ =~= gravity_step(start, g as int, *arena, boundary));
}

} // verus!
