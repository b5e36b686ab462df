use vstd::prelude::*;
use crate::arith::{trunc_div, trunc_div_spec, clamp_spec, clamp_speed};
use crate::particle::{Particle, SPEED_LIMIT, all_wf};
use crate::vector::{Vec2, dist2_spec};

verus! {

/// The discs of `p1` and `p2` overlap: the distance between the centres is
/// strictly below the sum of the radii (touching discs do not overlap).
pub open spec fn overlapping(p1: Particle, p2: Particle) -> bool {
    dist2_spec(p1.position, p2.position) < (p1.radius + p2.radius) * (p1.radius + p2.radius)
}

/// Change of `p1`'s velocity component `d` (the offset `x1 - x2` on that axis)
/// in an elastic collision with `p2`, before any limit on speed:
/// `-(2 m2 / (m1 + m2)) * (<v1 - v2, x1 - x2> / |x1 - x2|^2) * d`, rounded toward zero.
pub open spec fn kick(p1: Particle, p2: Particle, d: int) -> int {
    let dx = p1.position.x - p2.position.x;
    let dy = p1.position.y - p2.position.y;
    let s = (p1.velocity.x - p2.velocity.x) * dx + (p1.velocity.y - p2.velocity.y) * dy;
    let k = (p1.mass + p2.mass) * (dx * dx + dy * dy);
    -trunc_div_spec(2 * p2.mass * s * d, k)
}

/// Velocity components of `p1` after an elastic collision with `p2`, before any limit on speed.
pub open spec fn raw_response(p1: Particle, p2: Particle) -> (int, int) {
    (p1.velocity.x + kick(p1, p2, p1.position.x - p2.position.x),
     p1.velocity.y + kick(p1, p2, p1.position.y - p2.position.y))
}

/// `p1` after an elastic collision with `p2`: the response of `raw_response`,
/// each component limited to `SPEED_LIMIT`; coincident centres leave it unchanged.
pub open spec fn collided(p1: Particle, p2: Particle) -> Particle {
    if p1.position == p2.position {
        p1
    } else {
        let (vx, vy) = raw_response(p1, p2);
        p1.with_velocity(clamp_spec(vx, SPEED_LIMIT as int), clamp_spec(vy, SPEED_LIMIT as int))
    }
}

/// The population after the pair `(i, j)` is examined: an overlapping pair
/// gets its elastic response, read from the current velocities of both.
pub open spec fn collide_at(ps: Seq<Particle>, i: int, j: int) -> Seq<Particle> {
    if overlapping(ps[i], ps[j]) {
        ps.update(i, collided(ps[i], ps[j])).update(j, collided(ps[j], ps[i]))
    } else {
        ps
    }
}

/// The population after every pair from `(i, j)` on is examined, in
/// ascending order of `i`, then of `j > i`; each pair sees the velocities
/// that earlier pairs of the same pass left.
pub open spec fn resolve_pairs(ps: Seq<Particle>, i: int, j: int) -> Seq<Particle>
    decreases ps.len() - i, ps.len() - j,
{
    if i < 0 || i >= ps.len() || j < 0 {
        ps
    } else if j >= ps.len() {
        resolve_pairs(ps, i + 1, i + 2)
    } else {
        resolve_pairs(collide_at(ps, i, j), i, j + 1)
    }
}

/// Whether the discs of the two particles overlap.
pub fn detect_overlap(particle1: &Particle, particle2: &Particle) -> (r: bool)
    requires
        particle1.wf(),
        particle2.wf(),
    ensures
        r == overlapping(*particle1, *particle2),
{
    let dx: i128 = particle1.position.x as i128 - particle2.position.x as i128;
    let dy: i128 = particle1.position.y as i128 - particle2.position.y as i128;
    let rr: i128 = particle1.radius as i128 + particle2.radius as i128;
    assert(dx * dx <= 2147483648 * 2147483648) by (nonlinear_arith)
        requires -2147483648 <= dx <= 2147483648;
    assert(dy * dy <= 2147483648 * 2147483648) by (nonlinear_arith)
        requires -2147483648 <= dy <= 2147483648;
    assert(rr * rr <= 2147483648 * 2147483648) by (nonlinear_arith)
        requires 0 <= rr <= 2147483648;
    assert(dx * dx >= 0 && dy * dy >= 0) by (nonlinear_arith);
    let a: i128 = dx * dx;
    let b: i128 = dy * dy;
    let c: i128 = rr * rr;
    a + b < c
}

/// Velocity of `particle1` after an elastic collision with `particle2`
/// along the line of centres; coincident centres leave it unchanged.
pub fn resolve_collision(particle1: &Particle, particle2: &Particle) -> (v: Vec2)
    requires
        particle1.wf(),
        particle2.wf(),
    ensures
        v == collided(*particle1, *particle2).velocity,
{
    if particle1.position.x == particle2.position.x && particle1.position.y == particle2.position.y {
        return particle1.velocity;
    }
    let dx: i128 = particle1.position.x as i128 - particle2.position.x as i128;
    let dy: i128 = particle1.position.y as i128 - particle2.position.y as i128;
    let dvx: i128 = particle1.velocity.x as i128 - particle2.velocity.x as i128;
    let dvy: i128 = particle1.velocity.y as i128 - particle2.velocity.y as i128;
    let lim: i128 = 0x8000_0000;
    assert(-lim * lim <= dvx * dx <= lim * lim) by (nonlinear_arith)
        requires -lim <= dvx <= lim, -lim <= dx <= lim;
    assert(-lim * lim <= dvy * dy <= lim * lim) by (nonlinear_arith)
        requires -lim <= dvy <= lim, -lim <= dy <= lim;
    assert(0 <= dx * dx <= lim * lim) by (nonlinear_arith) requires -lim <= dx <= lim;
    assert(0 <= dy * dy <= lim * lim) by (nonlinear_arith) requires -lim <= dy <= lim;
    let px: i128 = dvx * dx;
    let py: i128 = dvy * dy;
    let s: i128 = px + py;
    let qx: i128 = dx * dx;
    let qy: i128 = dy * dy;
    let d2: i128 = qx + qy;
    let m: i128 = particle1.mass as i128 + particle2.mass as i128;
    assert(0 <= m * d2 <= 0x20_0000 * (2 * lim * lim)) by (nonlinear_arith)
        requires 0 <= m <= 0x20_0000, 0 <= d2 <= 2 * lim * lim;
    let k: i128 = m * d2;
    assert(d2 > 0) by (nonlinear_arith)
        requires dx != 0 || dy != 0, d2 == dx * dx + dy * dy;
    assert(k > 0) by (nonlinear_arith)
        requires k == m * d2, d2 > 0, m > 0;
    assert(-0x20_0000 * (2 * lim * lim) <= 2 * (particle2.mass as i128) * s
        <= 0x20_0000 * (2 * lim * lim)) by (nonlinear_arith)
        requires 0 <= particle2.mass <= 0x10_0000, -(2 * lim * lim) <= s <= 2 * lim * lim;
    let f: i128 = 2 * (particle2.mass as i128) * s;
    let ghost big: int = 0x20_0000 * (2 * lim * lim);
    assert(-big * lim <= f * dx <= big * lim) by (nonlinear_arith)
        requires -big <= f <= big, -lim <= dx <= lim, big >= 0;
    assert(-big * lim <= f * dy <= big * lim) by (nonlinear_arith)
        requires -big <= f <= big, -lim <= dy <= lim, big >= 0;
    let kx: i128 = trunc_div(f * dx, k);
    let ky: i128 = trunc_div(f * dy, k);
    proof {
        vstd::arithmetic::div_mod::lemma_div_is_ordered_by_denominator(
            if f * dx >= 0 { f * dx } else { -(f * dx) }, 1, k as int);
        vstd::arithmetic::div_mod::lemma_div_is_ordered_by_denominator(
            if f * dy >= 0 { f * dy } else { -(f * dy) }, 1, k as int);
    }
    let vx = clamp_speed(particle1.velocity.x as i128 - kx, SPEED_LIMIT);
    let vy = clamp_speed(particle1.velocity.y as i128 - ky, SPEED_LIMIT);
    Vec2 { x: vx, y: vy }
}

/// `b` is `a` with at most its velocity changed.
pub open spec fn same_body(a: Particle, b: Particle) -> bool {
    &&& a.id == b.id
    &&& a.mass == b.mass
    &&& a.radius == b.radius
    &&& a.position == b.position
}

/// `b` holds the bodies of `a`, in the same order, with at most their velocities changed.
pub open spec fn same_bodies(a: Seq<Particle>, b: Seq<Particle>) -> bool {
    &&& a.len() == b.len()
    &&& forall|i: int| 0 <= i < a.len() ==> same_body(#[trigger] a[i], b[i])
}

proof fn lemma_collided_wf(p1: Particle, p2: Particle)
    requires
        p1.wf(),
    ensures
        collided(p1, p2).wf(),
        same_body(p1, collided(p1, p2)),
{
}

/// A pass of pairwise resolution keeps every body and its limits; only velocities change.
pub proof fn lemma_resolve_pairs_keeps(ps: Seq<Particle>, i: int, j: int)
    requires
        all_wf(ps),
    ensures
        all_wf(resolve_pairs(ps, i, j)),
        same_bodies(ps, resolve_pairs(ps, i, j)),
    decreases ps.len() - i, ps.len() - j,
{
    if i < 0 || i >= ps.len() || j < 0 {
    } else if j >= ps.len() {
        lemma_resolve_pairs_keeps(ps, i + 1, i + 2);
    } else {
        let next = collide_at(ps, i, j);
        lemma_collided_wf(ps[i], ps[j]);
        lemma_collided_wf(ps[j], ps[i]);
        assert(all_wf(next));
        assert(same_bodies(ps, next));
        lemma_resolve_pairs_keeps(next, i, j + 1);
        let fin = resolve_pairs(next, i, j + 1);
        assert forall|k: int| 0 <= k < ps.len() implies same_body(#[trigger] ps[k], fin[k]) by {
            assert(same_body(ps[k], next[k]));
            assert(same_body(next[k], fin[k]));
        }
    }
}

/// Resolves every overlapping pair `(i, j)`, `i < j`, in ascending order of
/// `i` and then `j`, replacing both velocities by the elastic response. A
/// later pair reads the velocities that earlier pairs of this pass produced.
pub fn detect_particle_collisions(particles: &mut Vec<Particle>)
    requires
        all_wf(old(particles)@),
    ensures
        final(particles)@ == resolve_pairs(old(particles)@, 0, 1),
        all_wf(final(particles)@),
        same_bodies(old(particles)@, final(particles)@),
{
    let ghost target = resolve_pairs(particles@, 0, 1);
    let ghost start = particles@;
    let n = particles.len();
    let mut i: usize = 0;
    while i < n
        invariant
            n == particles.len(),
            0 <= i <= n,
            resolve_pairs(particles@, i as int, i + 1) == target,
            all_wf(particles@),
            same_bodies(start, particles@),
        decreases n - i,
    {
        let mut j: usize = i + 1;
        while j < n
            invariant
                n == particles.len(),
                0 <= i < n,
                i + 1 <= j <= n,
                resolve_pairs(particles@, i as int, j as int) == target,
                all_wf(particles@),
                same_bodies(start, particles@),
            decreases n - j,
        {
            let ghost before = particles@;
            if detect_overlap(&particles[i], &particles[j]) {
                let a = resolve_collision(&particles[i], &particles[j]);
                let b = resolve_collision(&particles[j], &particles[i]);
                proof {
                    lemma_collided_wf(before[i as int], before[j as int]);
                    lemma_collided_wf(before[j as int], before[i as int]);
                }
                let mut pi = particles[i];
                pi.velocity = a;
                particles.set(i, pi);
                let mut pj = particles[j];
                pj.velocity = b;
                particles.set(j, pj);
                assert(particles@ == collide_at(before, i as int, j as int));
            }
            j = j + 1;
        }
        i = i + 1;
    }
}

} // verus!
