use vstd::prelude::*;
use crate::gravity::{G_LIMIT, POPULATION_LIMIT};
use crate::particle::{Particle, MASS_LIMIT, SPEED_LIMIT, all_wf};
use crate::vector::{dist2_spec, floor_sqrt, get_euclidean_distance};

verus! {

/// Momentum of `p` along x (`x_axis`) or y.
pub open spec fn momentum_on(p: Particle, x_axis: bool) -> int {
    if x_axis { p.momentum_x() } else { p.momentum_y() }
}

/// Momentum of the particles `0 .. k` along x (`x_axis`) or y.
pub open spec fn momentum_upto(ps: Seq<Particle>, k: int, x_axis: bool) -> int
    decreases k,
{
    if k <= 0 { 0 } else { momentum_upto(ps, k - 1, x_axis) + momentum_on(ps[k - 1], x_axis) }
}

/// `sum m |v|^2` over the particles `0 .. k`: twice their kinetic energy.
pub open spec fn energy2_upto(ps: Seq<Particle>, k: int) -> int
    decreases k,
{
    if k <= 0 { 0 } else { energy2_upto(ps, k - 1) + ps[k - 1].energy2() }
}

/// Total momentum, x component.
pub open spec fn momentum_x(ps: Seq<Particle>) -> int {
    momentum_upto(ps, ps.len() as int, true)
}

/// Total momentum, y component.
pub open spec fn momentum_y(ps: Seq<Particle>) -> int {
    momentum_upto(ps, ps.len() as int, false)
}

/// Gravitational potential of neighbours `a` and `b`: `G m_a m_b / r`,
/// rounded down, with `r` the integer distance; zero at distance zero.
pub open spec fn pair_potential(a: Particle, b: Particle, g: int) -> int {
    let r = floor_sqrt(dist2_spec(a.position, b.position));
    if r == 0 { 0 } else { g * a.mass * b.mass / r }
}

/// Sum of the potentials of the neighbouring pairs `(i, i + 1)` with `i + 1 < k`.
pub open spec fn potential_upto(ps: Seq<Particle>, g: int, k: int) -> int
    decreases k,
{
    if k <= 1 { 0 } else { potential_upto(ps, g, k - 1) + pair_potential(ps[k - 2], ps[k - 1], g) }
}

proof fn lemma_momentum_bound(ps: Seq<Particle>, k: int)
    requires
        all_wf(ps),
        0 <= k <= ps.len(),
    ensures
        -(k * (MASS_LIMIT * SPEED_LIMIT)) <= momentum_upto(ps, k, true) <= k * (MASS_LIMIT * SPEED_LIMIT),
        -(k * (MASS_LIMIT * SPEED_LIMIT)) <= momentum_upto(ps, k, false) <= k * (MASS_LIMIT * SPEED_LIMIT),
        0 <= energy2_upto(ps, k) <= k * (2 * MASS_LIMIT * SPEED_LIMIT * SPEED_LIMIT),
    decreases k,
{
    if k > 0 {
        lemma_momentum_bound(ps, k - 1);
        let p = ps[k - 1];
        assert(p.wf());
        let lim: int = MASS_LIMIT * SPEED_LIMIT;
        assert(-lim <= p.momentum_x() <= lim) by (nonlinear_arith)
            requires 1 <= p.mass <= MASS_LIMIT, -SPEED_LIMIT <= p.velocity.x <= SPEED_LIMIT,
                lim == MASS_LIMIT * SPEED_LIMIT;
        assert(-lim <= p.momentum_y() <= lim) by (nonlinear_arith)
            requires 1 <= p.mass <= MASS_LIMIT, -SPEED_LIMIT <= p.velocity.y <= SPEED_LIMIT,
                lim == MASS_LIMIT * SPEED_LIMIT;
        assert(0 <= p.energy2() <= 2 * MASS_LIMIT * SPEED_LIMIT * SPEED_LIMIT) by (nonlinear_arith)
            requires 1 <= p.mass <= MASS_LIMIT, -SPEED_LIMIT <= p.velocity.x <= SPEED_LIMIT,
                -SPEED_LIMIT <= p.velocity.y <= SPEED_LIMIT;
        assert(k * lim == (k - 1) * lim + lim) by (nonlinear_arith);
        assert(k * (2 * MASS_LIMIT * SPEED_LIMIT * SPEED_LIMIT)
            == (k - 1) * (2 * MASS_LIMIT * SPEED_LIMIT * SPEED_LIMIT)
            + 2 * MASS_LIMIT * SPEED_LIMIT * SPEED_LIMIT) by (nonlinear_arith);
    }
}

/// Total momentum `(sum m v_x, sum m v_y)` of the particles.
pub fn total_momentum(particles: &Vec<Particle>) -> (r: (i128, i128))
    requires
        all_wf(particles@),
        particles.len() <= POPULATION_LIMIT,
    ensures
        r.0 as int == momentum_x(particles@),
        r.1 as int == momentum_y(particles@),
{
    let mut px: i128 = 0;
    let mut py: i128 = 0;
    let mut i: usize = 0;
    while i < particles.len()
        invariant
            all_wf(particles@),
            particles.len() <= POPULATION_LIMIT,
            0 <= i <= particles.len(),
            px as int == momentum_upto(particles@, i as int, true),
            py as int == momentum_upto(particles@, i as int, false),
        decreases particles.len() - i,
    {
        proof {
            lemma_momentum_bound(particles@, i as int + 1);
            assert((i + 1) * (MASS_LIMIT * SPEED_LIMIT) <= POPULATION_LIMIT * (MASS_LIMIT * SPEED_LIMIT))
                by (nonlinear_arith) requires i + 1 <= POPULATION_LIMIT;
        }
        let p = particles[i];
        assert(p.wf());
        assert(-(MASS_LIMIT * SPEED_LIMIT) <= (p.mass as i128) * (p.velocity.x as i128) <= MASS_LIMIT * SPEED_LIMIT)
            by (nonlinear_arith) requires 1 <= p.mass <= MASS_LIMIT, -SPEED_LIMIT <= p.velocity.x <= SPEED_LIMIT;
        assert(-(MASS_LIMIT * SPEED_LIMIT) <= (p.mass as i128) * (p.velocity.y as i128) <= MASS_LIMIT * SPEED_LIMIT)
            by (nonlinear_arith) requires 1 <= p.mass <= MASS_LIMIT, -SPEED_LIMIT <= p.velocity.y <= SPEED_LIMIT;
        assert(momentum_upto(particles@, i + 1, true) == px + p.momentum_x());
        assert(momentum_upto(particles@, i + 1, false) == py + p.momentum_y());
        px = px + (p.mass as i128) * (p.velocity.x as i128);
        py = py + (p.mass as i128) * (p.velocity.y as i128);
        i = i + 1;
    }
    (px, py)
}

/// Twice the kinetic energy of the particles, `sum m |v|^2`, which is exact
/// in integers where the energy itself may end in a half.
pub fn kinetic_energy_doubled(particles: &Vec<Particle>) -> (e: u128)
    requires
        all_wf(particles@),
        particles.len() <= POPULATION_LIMIT,
    ensures
        e as int == energy2_upto(particles@, particles.len() as int),
{
    let mut e: u128 = 0;
    let mut i: usize = 0;
    while i < particles.len()
        invariant
            all_wf(particles@),
            particles.len() <= POPULATION_LIMIT,
            0 <= i <= particles.len(),
            e as int == energy2_upto(particles@, i as int),
        decreases particles.len() - i,
    {
        proof {
            lemma_momentum_bound(particles@, i as int + 1);
            assert((i + 1) * (2 * MASS_LIMIT * SPEED_LIMIT * SPEED_LIMIT)
                <= POPULATION_LIMIT * (2 * MASS_LIMIT * SPEED_LIMIT * SPEED_LIMIT))
                by (nonlinear_arith) requires i + 1 <= POPULATION_LIMIT;
        }
        let p = particles[i];
        let vx = p.velocity.x as i128;
        let vy = p.velocity.y as i128;
        assert(p.wf());
        assert(0 <= vx * vx <= SPEED_LIMIT * SPEED_LIMIT) by (nonlinear_arith)
            requires -SPEED_LIMIT <= vx <= SPEED_LIMIT;
        assert(0 <= vy * vy <= SPEED_LIMIT * SPEED_LIMIT) by (nonlinear_arith)
            requires -SPEED_LIMIT <= vy <= SPEED_LIMIT;
        assert(p.mass * (vx * vx + vy * vy) <= MASS_LIMIT * (2 * SPEED_LIMIT * SPEED_LIMIT)) by (nonlinear_arith)
            requires 1 <= p.mass <= MASS_LIMIT, 0 <= vx * vx + vy * vy <= 2 * SPEED_LIMIT * SPEED_LIMIT;
        let v2 = vx * vx + vy * vy;
        assert(v2 >= 0) by (nonlinear_arith) requires v2 == vx * vx + vy * vy;
        e = e + (p.mass as u128) * (v2 as u128);
        i = i + 1;
    }
    e
}

/// Kinetic energy of the particles, `sum m |v|^2 / 2`, rounded down.
pub fn get_kinetic_energy(particles: &Vec<Particle>) -> (e: u128)
    requires
        all_wf(particles@),
        particles.len() <= POPULATION_LIMIT,
    ensures
        e as int == energy2_upto(particles@, particles.len() as int) / 2,
{
    kinetic_energy_doubled(particles) / 2
}

/// Gravitational potential energy over neighbouring pairs `(i, i + 1)` in
/// creation order: `sum G m_i m_(i+1) / r`, each term rounded down, a pair
/// at distance zero counting nothing.
pub fn get_gravitational_potential_energy(particles: &Vec<Particle>, g: u64) -> (e: u128)
    requires
        all_wf(particles@),
        particles.len() <= POPULATION_LIMIT,
        g <= G_LIMIT,
    ensures
        e as int == potential_upto(particles@, g as int, particles.len() as int),
{
    let n = particles.len();
    let mut e: u128 = 0;
    let mut i: usize = 1;
    if n == 0 {
        return 0;
    }
    while i < n
        invariant
            all_wf(particles@),
            n == particles.len() <= POPULATION_LIMIT,
            g <= G_LIMIT,
            1 <= i <= n,
            e as int == potential_upto(particles@, g as int, i as int),
            0 <= e <= i * (G_LIMIT * MASS_LIMIT * MASS_LIMIT),
        decreases n - i,
    {
        let a = particles[i - 1];
        let b = particles[i];
        let r = get_euclidean_distance(&a.position, &b.position);
        assert(a.wf() && b.wf());
        assert((g as u128) * (a.mass as u128) <= G_LIMIT * MASS_LIMIT) by (nonlinear_arith)
            requires g <= G_LIMIT, a.mass <= MASS_LIMIT;
        assert((g as u128) * (a.mass as u128) * (b.mass as u128) <= G_LIMIT * MASS_LIMIT * MASS_LIMIT)
            by (nonlinear_arith) requires g * a.mass <= G_LIMIT * MASS_LIMIT, b.mass <= MASS_LIMIT;
        let gmm: u128 = (g as u128) * (a.mass as u128) * (b.mass as u128);
        assert(gmm <= G_LIMIT * MASS_LIMIT * MASS_LIMIT) by (nonlinear_arith)
            requires gmm == g * a.mass * b.mass, g <= G_LIMIT, a.mass <= MASS_LIMIT, b.mass <= MASS_LIMIT;
        let term: u128 = if r == 0 { 0 } else { gmm / (r as u128) };
        proof {
            if r != 0 {
                vstd::arithmetic::div_mod::lemma_div_is_ordered_by_denominator(gmm as int, 1, r as int);
            }
            assert((i + 1) * (G_LIMIT * MASS_LIMIT * MASS_LIMIT)
                == i * (G_LIMIT * MASS_LIMIT * MASS_LIMIT) + G_LIMIT * MASS_LIMIT * MASS_LIMIT)
                by (nonlinear_arith);
            assert(i * (G_LIMIT * MASS_LIMIT * MASS_LIMIT) <= POPULATION_LIMIT * (G_LIMIT * MASS_LIMIT * MASS_LIMIT))
                by (nonlinear_arith) requires i <= POPULATION_LIMIT;
        }
        e = e + term;
        i = i + 1;
    }
    e
}

} // verus!
