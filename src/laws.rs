use vstd::prelude::*;
use crate::arith::{trunc_div_spec, lemma_trunc_div_neg, lemma_trunc_div_error};
use crate::collision::{kick, raw_response, collided, overlapping, resolve_pairs, collide_at};
use crate::arena::{Arena, Boundary};
use crate::energy::{momentum_on, momentum_upto};
use crate::gravity::{pair_force_on, force_upto, force_x, force_y, gravity_step};
use crate::particle::{Particle, SPEED_LIMIT, within};
use crate::simulation::{Mode, valid_state};
use crate::vector::{Vec2, dist2_spec};

verus! {

/// Velocity components of `p1` after an elastic collision with `p2` in exact
/// arithmetic, multiplied by the common denominator `k = (m1 + m2) |x1 - x2|^2`:
/// `k v1 - 2 m2 <v1 - v2, x1 - x2> (x1 - x2)`.
pub open spec fn scaled_response(p1: Particle, p2: Particle) -> (int, int) {
    let dx = p1.position.x - p2.position.x;
    let dy = p1.position.y - p2.position.y;
    let s = (p1.velocity.x - p2.velocity.x) * dx + (p1.velocity.y - p2.velocity.y) * dy;
    let k = (p1.mass + p2.mass) * (dx * dx + dy * dy);
    (k * p1.velocity.x - 2 * p2.mass * s * dx, k * p1.velocity.y - 2 * p2.mass * s * dy)
}

/// The common denominator `(m1 + m2) |x1 - x2|^2` of an elastic collision.
pub open spec fn response_scale(p1: Particle, p2: Particle) -> int {
    let dx = p1.position.x - p2.position.x;
    let dy = p1.position.y - p2.position.y;
    (p1.mass + p2.mass) * (dx * dx + dy * dy)
}

proof fn lemma_kick_pair(p1: Particle, p2: Particle, d: int)
    requires
        p1.mass >= 1,
        p2.mass >= 1,
        p1.position != p2.position,
        d == p1.position.x - p2.position.x || d == p1.position.y - p2.position.y,
    ensures
        -(p1.mass + p2.mass) < p1.mass * kick(p1, p2, d) + p2.mass * kick(p2, p1, -d) < p1.mass + p2.mass,
{
    let dx = p1.position.x - p2.position.x;
    let dy = p1.position.y - p2.position.y;
    let ex = p2.position.x - p1.position.x;
    let ey = p2.position.y - p1.position.y;
    let s = (p1.velocity.x - p2.velocity.x) * dx + (p1.velocity.y - p2.velocity.y) * dy;
    let s2 = (p2.velocity.x - p1.velocity.x) * ex + (p2.velocity.y - p1.velocity.y) * ey;
    assert(s2 == s) by (nonlinear_arith)
        requires s2 == (p2.velocity.x - p1.velocity.x) * ex + (p2.velocity.y - p1.velocity.y) * ey,
            s == (p1.velocity.x - p2.velocity.x) * dx + (p1.velocity.y - p2.velocity.y) * dy,
            ex == -dx, ey == -dy;
    let k = (p1.mass + p2.mass) * (dx * dx + dy * dy);
    let k2 = (p2.mass + p1.mass) * (ex * ex + ey * ey);
    assert(k2 == k) by (nonlinear_arith)
        requires k2 == (p2.mass + p1.mass) * (ex * ex + ey * ey),
            k == (p1.mass + p2.mass) * (dx * dx + dy * dy), ex == -dx, ey == -dy;
    assert(dx * dx + dy * dy > 0) by (nonlinear_arith) requires dx != 0 || dy != 0;
    assert(k > 0) by (nonlinear_arith)
        requires k == (p1.mass + p2.mass) * (dx * dx + dy * dy), dx * dx + dy * dy > 0,
            p1.mass + p2.mass > 0;
    let m1 = p1.mass as int;
    let m2 = p2.mass as int;
    let a1 = 2 * m2 * s * d;
    let a2 = 2 * m1 * s * d;
    assert(2 * m1 * s2 * (-d) == -a2) by (nonlinear_arith) requires s2 == s, a2 == 2 * m1 * s * d;
    lemma_trunc_div_neg(a2, k);
    let q1 = trunc_div_spec(a1, k);
    let q2 = trunc_div_spec(a2, k);
    assert(kick(p1, p2, d) == -q1);
    assert(kick(p2, p1, -d) == -trunc_div_spec(2 * m1 * s2 * (-d), k2));
    assert(kick(p2, p1, -d) == q2);
    lemma_trunc_div_error(a1, k);
    lemma_trunc_div_error(a2, k);
    let e1 = k * q1 - a1;
    let e2 = k * q2 - a2;
    assert(-k < e1 < k);
    assert(-k < e2 < k);
    let sd = s * d;
    assert(a1 == 2 * m2 * sd && a2 == 2 * m1 * sd) by (nonlinear_arith)
        requires a1 == 2 * m2 * s * d, a2 == 2 * m1 * s * d, sd == s * d;
    assert(m1 * a1 == m2 * a2) by (nonlinear_arith)
        requires a1 == 2 * m2 * sd, a2 == 2 * m1 * sd;
    let x = m2 * q2 - m1 * q1;
    assert(k * x == m2 * (k * q2) - m1 * (k * q1)) by (nonlinear_arith)
        requires x == m2 * q2 - m1 * q1;
    assert(m2 * (k * q2) == m2 * e2 + m2 * a2) by (nonlinear_arith) requires e2 == k * q2 - a2;
    assert(m1 * (k * q1) == m1 * e1 + m1 * a1) by (nonlinear_arith) requires e1 == k * q1 - a1;
    assert(-(m1 + m2) * k < m2 * e2 - m1 * e1 < (m1 + m2) * k) by (nonlinear_arith)
        requires -k < e1 < k, -k < e2 < k, m1 >= 1, m2 >= 1;
    assert(-(m1 + m2) < x < m1 + m2) by (nonlinear_arith)
        requires k * x == m2 * e2 - m1 * e1, -(m1 + m2) * k < m2 * e2 - m1 * e1 < (m1 + m2) * k, k > 0;
    assert(m1 * kick(p1, p2, d) + m2 * kick(p2, p1, -d) == x) by (nonlinear_arith)
        requires kick(p1, p2, d) == -q1, kick(p2, p1, -d) == q2, x == m2 * q2 - m1 * q1;
}

/// An elastic collision conserves momentum up to rounding: along each axis,
/// `m1 v1' + m2 v2'` differs from `m1 v1 + m2 v2` by less than `m1 + m2`,
/// that is by less than one velocity unit for each unit of mass.
pub proof fn lemma_collision_momentum(p1: Particle, p2: Particle)
    requires
        p1.wf(),
        p2.wf(),
        p1.position != p2.position,
    ensures
        ({
            let (v1x, v1y) = raw_response(p1, p2);
            let (v2x, v2y) = raw_response(p2, p1);
            let m1 = p1.mass as int;
            let m2 = p2.mass as int;
            &&& -(m1 + m2) < (m1 * v1x + m2 * v2x) - (p1.momentum_x() + p2.momentum_x()) < m1 + m2
            &&& -(m1 + m2) < (m1 * v1y + m2 * v2y) - (p1.momentum_y() + p2.momentum_y()) < m1 + m2
        }),
{
    let dx = p1.position.x - p2.position.x;
    let dy = p1.position.y - p2.position.y;
    lemma_kick_pair(p1, p2, dx);
    lemma_kick_pair(p1, p2, dy);
    assert(p2.position.x - p1.position.x == -dx);
    assert(p2.position.y - p1.position.y == -dy);
    let m1 = p1.mass as int;
    let m2 = p2.mass as int;
    let (v1x, v1y) = raw_response(p1, p2);
    let (v2x, v2y) = raw_response(p2, p1);
    vstd::arithmetic::mul::lemma_mul_is_distributive_add(m1, p1.velocity.x as int, kick(p1, p2, dx));
    vstd::arithmetic::mul::lemma_mul_is_distributive_add(m2, p2.velocity.x as int, kick(p2, p1, -dx));
    vstd::arithmetic::mul::lemma_mul_is_distributive_add(m1, p1.velocity.y as int, kick(p1, p2, dy));
    vstd::arithmetic::mul::lemma_mul_is_distributive_add(m2, p2.velocity.y as int, kick(p2, p1, -dy));
}

proof fn lemma_square_expand(k: int, a: int, b: int, d: int)
    ensures
        (k * a - b * d) * (k * a - b * d) == (k * k) * (a * a) - (2 * k * b) * (a * d) + (b * b) * (d * d),
{
    assert((k * a - b * d) * (k * a - b * d) == (k * a) * (k * a) - 2 * (k * a) * (b * d) + (b * d) * (b * d))
        by (nonlinear_arith);
    assert((k * a) * (k * a) == (k * k) * (a * a)) by (nonlinear_arith);
    assert((k * a) * (b * d) == (k * b) * (a * d)) by (nonlinear_arith);
    assert((b * d) * (b * d) == (b * b) * (d * d)) by (nonlinear_arith);
    assert(2 * (k * a) * (b * d) == (2 * k * b) * (a * d)) by (nonlinear_arith)
        requires (k * a) * (b * d) == (k * b) * (a * d);
}

proof fn lemma_sum3(p: int, q: int, r: int, a1: int, b1: int, c1: int, a2: int, b2: int, c2: int)
    ensures
        (p * a1 - q * b1 + r * c1) + (p * a2 - q * b2 + r * c2)
            == p * (a1 + a2) - q * (b1 + b2) + r * (c1 + c2),
{
    vstd::arithmetic::mul::lemma_mul_is_distributive_add(p, a1, a2);
    vstd::arithmetic::mul::lemma_mul_is_distributive_add(q, b1, b2);
    vstd::arithmetic::mul::lemma_mul_is_distributive_add(r, c1, c2);
}

proof fn lemma_scale3(m: int, p: int, a: int, q: int, b: int, u: int, c: int)
    ensures
        m * (p * a + q * b * u + b * c) == p * (m * a) + q * (m * b) * u + (m * b) * c,
{
    assert(m * (p * a + q * b * u + b * c) == m * (p * a) + m * (q * b * u) + m * (b * c)) by (nonlinear_arith);
    assert(m * (p * a) == p * (m * a)) by (nonlinear_arith);
    assert(m * (q * b * u) == q * (m * b) * u) by (nonlinear_arith);
    assert(m * (b * c) == (m * b) * c) by (nonlinear_arith);
}

/// The elastic response in exact arithmetic conserves momentum and kinetic
/// energy: with every velocity scaled by the common denominator `k`,
/// `m1 w1 + m2 w2 = k (m1 v1 + m2 v2)` on each axis and
/// `m1 |w1|^2 + m2 |w2|^2 = k^2 (m1 |v1|^2 + m2 |v2|^2)`.
pub proof fn lemma_collision_exact_conservation(p1: Particle, p2: Particle)
    ensures
        ({
            let (w1x, w1y) = scaled_response(p1, p2);
            let (w2x, w2y) = scaled_response(p2, p1);
            let k = response_scale(p1, p2);
            let m1 = p1.mass as int;
            let m2 = p2.mass as int;
            &&& response_scale(p2, p1) == k
            &&& m1 * w1x + m2 * w2x == k * (p1.momentum_x() + p2.momentum_x())
            &&& m1 * w1y + m2 * w2y == k * (p1.momentum_y() + p2.momentum_y())
            &&& m1 * (w1x * w1x + w1y * w1y) + m2 * (w2x * w2x + w2y * w2y)
                == k * k * (p1.energy2() + p2.energy2())
        }),
{
    let m1 = p1.mass as int;
    let m2 = p2.mass as int;
    let a = p1.velocity.x as int;
    let b = p1.velocity.y as int;
    let c = p2.velocity.x as int;
    let e = p2.velocity.y as int;
    let dx = p1.position.x - p2.position.x;
    let dy = p1.position.y - p2.position.y;
    let s = (a - c) * dx + (b - e) * dy;
    let d2 = dx * dx + dy * dy;
    let k = (m1 + m2) * d2;
    let s2 = (c - a) * (-dx) + (e - b) * (-dy);
    assert(s2 == s) by (nonlinear_arith)
        requires s2 == (c - a) * (-dx) + (e - b) * (-dy), s == (a - c) * dx + (b - e) * dy;
    assert((m2 + m1) * ((-dx) * (-dx) + (-dy) * (-dy)) == k) by (nonlinear_arith)
        requires k == (m1 + m2) * d2, d2 == dx * dx + dy * dy;
    let b1 = 2 * m2 * s;
    let b2 = 2 * m1 * s;
    let w1x = k * a - b1 * dx;
    let w1y = k * b - b1 * dy;
    let w2x = k * c + b2 * dx;
    let w2y = k * e + b2 * dy;
    assert(w1x == k * a - 2 * m2 * s * dx && w1y == k * b - 2 * m2 * s * dy) by (nonlinear_arith)
        requires b1 == 2 * m2 * s, w1x == k * a - b1 * dx, w1y == k * b - b1 * dy;
    assert(w2x == k * c - 2 * m1 * s * (-dx) && w2y == k * e - 2 * m1 * s * (-dy)) by (nonlinear_arith)
        requires b2 == 2 * m1 * s, w2x == k * c + b2 * dx, w2y == k * e + b2 * dy;
    // m1 b1 = m2 b2 = 2 m1 m2 s
    let cc = m1 * b1;
    assert(m2 * b2 == cc) by (nonlinear_arith) requires cc == m1 * b1, b1 == 2 * m2 * s, b2 == 2 * m1 * s;
    // momentum
    assert(m1 * w1x == k * (m1 * a) - cc * dx) by (nonlinear_arith)
        requires w1x == k * a - b1 * dx, cc == m1 * b1;
    assert(m2 * w2x == k * (m2 * c) + cc * dx) by (nonlinear_arith)
        requires w2x == k * c + b2 * dx, cc == m2 * b2;
    assert(m1 * w1y == k * (m1 * b) - cc * dy) by (nonlinear_arith)
        requires w1y == k * b - b1 * dy, cc == m1 * b1;
    assert(m2 * w2y == k * (m2 * e) + cc * dy) by (nonlinear_arith)
        requires w2y == k * e + b2 * dy, cc == m2 * b2;
    vstd::arithmetic::mul::lemma_mul_is_distributive_add(k, m1 * a, m2 * c);
    vstd::arithmetic::mul::lemma_mul_is_distributive_add(k, m1 * b, m2 * e);
    // energy
    let u1 = a * dx + b * dy;
    let u2 = c * dx + e * dy;
    let va = a * a + b * b;
    let vc = c * c + e * e;
    assert(s == u1 - u2) by (nonlinear_arith)
        requires s == (a - c) * dx + (b - e) * dy, u1 == a * dx + b * dy, u2 == c * dx + e * dy;
    let kk = k * k;
    lemma_square_expand(k, a, b1, dx);
    lemma_square_expand(k, b, b1, dy);
    lemma_square_expand(k, c, -b2, dx);
    lemma_square_expand(k, e, -b2, dy);
    assert(w2x == k * c - (-b2) * dx && w2y == k * e - (-b2) * dy) by (nonlinear_arith)
        requires w2x == k * c + b2 * dx, w2y == k * e + b2 * dy;
    lemma_sum3(kk, 2 * k * b1, b1 * b1, a * a, a * dx, dx * dx, b * b, b * dy, dy * dy);
    lemma_sum3(kk, 2 * k * (-b2), (-b2) * (-b2), c * c, c * dx, dx * dx, e * e, e * dy, dy * dy);
    assert((-b2) * (-b2) == b2 * b2 && 2 * k * (-b2) * u2 == -(2 * k * b2 * u2)) by (nonlinear_arith);
    assert(w1x * w1x + w1y * w1y == kk * va - 2 * k * b1 * u1 + b1 * b1 * d2);
    assert(w2x * w2x + w2y * w2y == kk * vc + 2 * k * b2 * u2 + b2 * b2 * d2);
    lemma_scale3(m1, kk, va, -(2 * k), b1, u1, b1 * d2);
    lemma_scale3(m2, kk, vc, 2 * k, b2, u2, b2 * d2);
    assert(-(2 * k) * b1 * u1 == -(2 * k * b1 * u1) && b1 * b1 * d2 == b1 * (b1 * d2)
        && b2 * b2 * d2 == b2 * (b2 * d2)) by (nonlinear_arith);
    assert(-(2 * k) * cc * u1 == -(2 * k * cc * u1) && cc * (b1 * d2) == cc * b1 * d2
        && cc * (b2 * d2) == cc * b2 * d2) by (nonlinear_arith);
    assert(m1 * (kk * va - 2 * k * b1 * u1 + b1 * b1 * d2)
        == kk * (m1 * va) - 2 * k * cc * u1 + cc * b1 * d2);
    assert(m2 * (kk * vc + 2 * k * b2 * u2 + b2 * b2 * d2)
        == kk * (m2 * vc) + 2 * k * cc * u2 + cc * b2 * d2);
    assert(2 * k * cc * u1 - 2 * k * cc * u2 == 2 * k * cc * s) by (nonlinear_arith)
        requires s == u1 - u2;
    assert(b1 + b2 == 2 * s * (m1 + m2)) by (nonlinear_arith)
        requires b1 == 2 * m2 * s, b2 == 2 * m1 * s;
    assert(cc * b1 * d2 + cc * b2 * d2 == cc * (b1 + b2) * d2) by (nonlinear_arith);
    assert(cc * (2 * s * (m1 + m2)) * d2 == 2 * cc * s * ((m1 + m2) * d2)) by (nonlinear_arith);
    assert(cc * b1 * d2 + cc * b2 * d2 == 2 * cc * s * k);
    assert(2 * k * cc * s == 2 * cc * s * k) by (nonlinear_arith);
    vstd::arithmetic::mul::lemma_mul_is_distributive_add(kk, m1 * va, m2 * vc);
    assert(p1.energy2() == m1 * va && p2.energy2() == m2 * vc);
}

/// Sum over the particles `0 .. a` of their pulls from the particles `0 .. b`,
/// along x (`x_axis`) or y.
pub open spec fn total_force_upto(ps: Seq<Particle>, g: int, a: int, b: int, x_axis: bool) -> int
    decreases a,
{
    if a <= 0 { 0 } else { total_force_upto(ps, g, a - 1, b, x_axis) + force_upto(ps, a - 1, g, b, x_axis) }
}

/// Sum of the pulls of particle `j` on the particles `0 .. a` other than `j`.
pub open spec fn column_upto(ps: Seq<Particle>, g: int, a: int, j: int, x_axis: bool) -> int
    decreases a,
{
    if a <= 0 {
        0
    } else {
        column_upto(ps, g, a - 1, j, x_axis) + if a - 1 == j { 0 } else { pair_force_on(ps[a - 1], ps[j], g, x_axis) }
    }
}

/// The sum of the gravitational forces on all particles, along x (`x_axis`) or y.
pub open spec fn net_force(ps: Seq<Particle>, g: int, x_axis: bool) -> int {
    total_force_upto(ps, g, ps.len() as int, ps.len() as int, x_axis)
}

proof fn lemma_dist2_symmetric(a: Vec2, b: Vec2)
    ensures
        dist2_spec(a, b) == dist2_spec(b, a),
{
    let dx = a.x - b.x;
    let dy = a.y - b.y;
    assert(dx * dx == (-dx) * (-dx) && dy * dy == (-dy) * (-dy)) by (nonlinear_arith);
}

/// The pull of `q` on `p` is the opposite of the pull of `p` on `q`, exactly:
/// both round toward zero from opposite values.
pub proof fn lemma_pair_force_antisymmetric(p: Particle, q: Particle, g: int, x_axis: bool)
    ensures
        pair_force_on(p, q, g, x_axis) == -pair_force_on(q, p, g, x_axis),
{
    lemma_dist2_symmetric(p.position, q.position);
    let r2 = dist2_spec(p.position, q.position);
    if r2 != 0 {
        let d = if x_axis { q.position.x - p.position.x } else { q.position.y - p.position.y };
        let m = g * p.mass * q.mass;
        assert(g * q.mass * p.mass * (-d) == -(m * d)) by (nonlinear_arith) requires m == g * p.mass * q.mass;
        assert(g * p.mass * q.mass * d == m * d);
        let ex = p.position.x - q.position.x;
        let ey = p.position.y - q.position.y;
        assert(ex * ex + ey * ey >= 0) by (nonlinear_arith);
        assert(r2 == ex * ex + ey * ey);
        crate::vector::lemma_floor_sqrt(r2);
        let fs = crate::vector::floor_sqrt(r2);
        assert(fs >= 1) by (nonlinear_arith)
            requires crate::vector::is_floor_sqrt(r2, fs), r2 >= 1;
        assert(r2 * fs > 0) by (nonlinear_arith)
            requires r2 >= 1, fs >= 1;
        lemma_trunc_div_neg(m * d, r2 * fs);
    }
}

proof fn lemma_total_extend(ps: Seq<Particle>, g: int, a: int, b: int, x_axis: bool)
    requires
        a >= 0,
        b >= 0,
    ensures
        total_force_upto(ps, g, a, b + 1, x_axis)
            == total_force_upto(ps, g, a, b, x_axis) + column_upto(ps, g, a, b, x_axis),
    decreases a,
{
    if a > 0 {
        lemma_total_extend(ps, g, a - 1, b, x_axis);
    }
}

proof fn lemma_column_row(ps: Seq<Particle>, g: int, m: int, k: int, x_axis: bool)
    requires
        0 <= m <= k,
    ensures
        column_upto(ps, g, m, k, x_axis) == -force_upto(ps, k, g, m, x_axis),
    decreases m,
{
    if m > 0 {
        lemma_column_row(ps, g, m - 1, k, x_axis);
        lemma_pair_force_antisymmetric(ps[m - 1], ps[k], g, x_axis);
    }
}

proof fn lemma_total_square_zero(ps: Seq<Particle>, g: int, k: int, x_axis: bool)
    requires
        k >= 0,
    ensures
        total_force_upto(ps, g, k, k, x_axis) == 0,
    decreases k,
{
    if k > 0 {
        lemma_total_square_zero(ps, g, k - 1, x_axis);
        lemma_total_extend(ps, g, k - 1, k - 1, x_axis);
        lemma_column_row(ps, g, k - 1, k - 1, x_axis);
    }
}

/// Gravitational forces cancel: the forces on all particles sum to zero on
/// each axis, exactly, since every pull is met by the opposite pull.
pub proof fn lemma_forces_cancel(ps: Seq<Particle>, g: int)
    ensures
        net_force(ps, g, true) == 0,
        net_force(ps, g, false) == 0,
{
    lemma_total_square_zero(ps, g, ps.len() as int, true);
    lemma_total_square_zero(ps, g, ps.len() as int, false);
}

/// Total mass of the particles `0 .. k`.
pub open spec fn mass_upto(ps: Seq<Particle>, k: int) -> int
    decreases k,
{
    if k <= 0 { 0 } else { mass_upto(ps, k - 1) + ps[k - 1].mass }
}

/// Velocity of `p` along x (`x_axis`) or y.
pub open spec fn velocity_on(p: Particle, x_axis: bool) -> int {
    if x_axis { p.velocity.x as int } else { p.velocity.y as int }
}

/// In a gravity tick of `ps`, no velocity component reaches past `SPEED_LIMIT`,
/// so none is limited.
pub open spec fn speed_limit_unreached(ps: Seq<Particle>, g: int) -> bool {
    forall|i: int| 0 <= i < ps.len() ==> {
        &&& within(#[trigger] ps[i].velocity.x + trunc_div_spec(force_x(ps, i, g), ps[i].mass as int),
            SPEED_LIMIT as int)
        &&& within(ps[i].velocity.y + trunc_div_spec(force_y(ps, i, g), ps[i].mass as int),
            SPEED_LIMIT as int)
    }
}

proof fn lemma_particle_impulse(ps: Seq<Particle>, g: int, arena: Arena, i: int, x_axis: bool)
    requires
        0 <= i < ps.len(),
        ps[i].mass >= 1,
        speed_limit_unreached(ps, g),
    ensures
        ({
            let new = gravity_step(ps, g, arena, Boundary::Wrap);
            let f = force_upto(ps, i, g, ps.len() as int, x_axis);
            let m = ps[i].mass as int;
            &&& -m < momentum_on(new[i], x_axis) - momentum_on(ps[i], x_axis) - f < m
        }),
{
    let new = gravity_step(ps, g, arena, Boundary::Wrap);
    let f = force_upto(ps, i, g, ps.len() as int, x_axis);
    let m = ps[i].mass as int;
    let t = trunc_div_spec(f, m);
    let p = ps[i];
    assert(within(p.velocity.x + trunc_div_spec(force_x(ps, i, g), m), SPEED_LIMIT as int));
    assert(new[i].mass == p.mass);
    assert(velocity_on(new[i], x_axis) == velocity_on(p, x_axis) + t);
    assert(momentum_on(new[i], x_axis) == m * velocity_on(new[i], x_axis));
    assert(momentum_on(p, x_axis) == m * velocity_on(p, x_axis));
    vstd::arithmetic::mul::lemma_mul_is_distributive_add(m, velocity_on(p, x_axis), t);
    lemma_trunc_div_error(f, m);
    assert(m * t == t * m) by (nonlinear_arith);
}

proof fn lemma_momentum_drift(ps: Seq<Particle>, g: int, arena: Arena, k: int, x_axis: bool)
    requires
        0 <= k <= ps.len(),
        forall|i: int| 0 <= i < ps.len() ==> (#[trigger] ps[i]).mass >= 1,
        speed_limit_unreached(ps, g),
    ensures
        ({
            let new = gravity_step(ps, g, arena, Boundary::Wrap);
            let drift = momentum_upto(new, k, x_axis) - momentum_upto(ps, k, x_axis)
                - total_force_upto(ps, g, k, ps.len() as int, x_axis);
            -mass_upto(ps, k) <= drift <= mass_upto(ps, k)
        }),
    decreases k,
{
    if k > 0 {
        lemma_momentum_drift(ps, g, arena, k - 1, x_axis);
        lemma_particle_impulse(ps, g, arena, k - 1, x_axis);
    }
}

/// A gravity tick with a wrapping boundary conserves momentum up to
/// rounding: on each axis the total momentum changes by at most the total
/// mass, that is by at most one velocity unit per unit of mass, provided no
/// velocity reaches the speed limit. The forces themselves cancel exactly
/// (`lemma_forces_cancel`); what remains is the rounding of `F / m`.
pub proof fn lemma_gravity_momentum(ps: Seq<Particle>, g: u64, arena: Arena)
    requires
        valid_state(ps, arena, Mode::Gravity { g, boundary: Boundary::Wrap }),
        speed_limit_unreached(ps, g as int),
    ensures
        ({
            let new = gravity_step(ps, g as int, arena, Boundary::Wrap);
            let n = ps.len() as int;
            &&& -mass_upto(ps, n) <= momentum_upto(new, n, true) - momentum_upto(ps, n, true) <= mass_upto(ps, n)
            &&& -mass_upto(ps, n) <= momentum_upto(new, n, false) - momentum_upto(ps, n, false)
                <= mass_upto(ps, n)
        }),
{
    assert forall|i: int| 0 <= i < ps.len() implies (#[trigger] ps[i]).mass >= 1 by {
        assert(ps[i].wf());
    }
    lemma_momentum_drift(ps, g as int, arena, ps.len() as int, true);
    lemma_momentum_drift(ps, g as int, arena, ps.len() as int, false);
    lemma_forces_cancel(ps, g as int);
}

/// The lattice response is the exact response to within one velocity unit:
/// `|k v' - w| < k` on each axis, where `w` is `scaled_response` and `k` its scale.
pub proof fn lemma_collision_rounding(p1: Particle, p2: Particle)
    requires
        p1.mass >= 1,
        p2.mass >= 1,
        p1.position != p2.position,
    ensures
        ({
            let (vx, vy) = raw_response(p1, p2);
            let (wx, wy) = scaled_response(p1, p2);
            let k = response_scale(p1, p2);
            &&& k > 0
            &&& -k < k * vx - wx < k
            &&& -k < k * vy - wy < k
        }),
{
    let dx = p1.position.x - p2.position.x;
    let dy = p1.position.y - p2.position.y;
    let s = (p1.velocity.x - p2.velocity.x) * dx + (p1.velocity.y - p2.velocity.y) * dy;
    let k = response_scale(p1, p2);
    assert(dx * dx + dy * dy > 0) by (nonlinear_arith) requires dx != 0 || dy != 0;
    assert(k > 0) by (nonlinear_arith)
        requires k == (p1.mass + p2.mass) * (dx * dx + dy * dy), dx * dx + dy * dy > 0,
            p1.mass + p2.mass > 0;
    let ax = 2 * p2.mass * s * dx;
    let ay = 2 * p2.mass * s * dy;
    lemma_trunc_div_error(ax, k);
    lemma_trunc_div_error(ay, k);
    let qx = trunc_div_spec(ax, k);
    let qy = trunc_div_spec(ay, k);
    let (vx, vy) = raw_response(p1, p2);
    assert(vx == p1.velocity.x - qx && vy == p1.velocity.y - qy);
    vstd::arithmetic::mul::lemma_mul_is_distributive_sub(k, p1.velocity.x as int, qx);
    vstd::arithmetic::mul::lemma_mul_is_distributive_sub(k, p1.velocity.y as int, qy);
}

/// With `G = 0` every partial sum of pulls on a particle is zero, so
/// `get_gravitational_force` returns the zero force.
pub proof fn lemma_zero_gravity_force(ps: Seq<Particle>, i: int, k: int, x_axis: bool)
    ensures
        force_upto(ps, i, 0, k, x_axis) == 0,
    decreases k,
{
    if k > 0 {
        lemma_zero_gravity_force(ps, i, k - 1, x_axis);
        let p = ps[i];
        let q = ps[k - 1];
        let d = if x_axis { q.position.x - p.position.x } else { q.position.y - p.position.y };
        assert(0 * p.mass * q.mass * d == 0) by (nonlinear_arith);
        assert(0int / 1 == 0);
        let r2 = dist2_spec(p.position, q.position);
        if r2 != 0 {
            let ex = p.position.x - q.position.x;
            let ey = p.position.y - q.position.y;
            assert(ex * ex + ey * ey >= 0) by (nonlinear_arith);
            crate::vector::lemma_floor_sqrt(r2);
            let fs = crate::vector::floor_sqrt(r2);
            assert(fs >= 1) by (nonlinear_arith)
                requires crate::vector::is_floor_sqrt(r2, fs), r2 >= 1;
            let den = r2 * fs;
            assert(den > 0) by (nonlinear_arith) requires r2 >= 1, fs >= 1, den == r2 * fs;
            assert(trunc_div_spec(0, den) == 0int / den);
            vstd::arithmetic::div_mod::lemma_div_of0(den);
        }
    }
}

/// With no gravity (`G = 0`) a gravity tick is pure ballistic motion: every
/// particle keeps its velocity and advances by it, then meets the boundary.
pub proof fn lemma_zero_gravity(ps: Seq<Particle>, arena: Arena, boundary: Boundary)
    requires
        crate::particle::all_wf(ps),
    ensures
        gravity_step(ps, 0, arena, boundary)
            == Seq::new(ps.len(), |i: int| arena.confined(boundary, crate::arena::moved(ps[i]))),
{
    let lhs = gravity_step(ps, 0, arena, boundary);
    let rhs = Seq::new(ps.len(), |i: int| arena.confined(boundary, crate::arena::moved(ps[i])));
    assert forall|i: int| 0 <= i < ps.len() implies lhs[i] == rhs[i] by {
        lemma_zero_gravity_force(ps, i, ps.len() as int, true);
        lemma_zero_gravity_force(ps, i, ps.len() as int, false);
        let p = ps[i];
        assert(p.wf());
        assert(trunc_div_spec(0, p.mass as int) == 0) by {
            vstd::arithmetic::div_mod::lemma_div_of0(p.mass as int);
        }
        assert(crate::gravity::accelerated(p, 0, 0) == p);
    }
    assert(lhs =~= rhs);
}

/// Neither response of the pair reaches past `SPEED_LIMIT`, so none is limited.
pub open spec fn response_unclamped(p1: Particle, p2: Particle) -> bool {
    let (v1x, v1y) = raw_response(p1, p2);
    let (v2x, v2y) = raw_response(p2, p1);
    &&& within(v1x, SPEED_LIMIT as int) && within(v1y, SPEED_LIMIT as int)
    &&& within(v2x, SPEED_LIMIT as int) && within(v2y, SPEED_LIMIT as int)
}

/// The collision pass over two particles conserves momentum up to rounding:
/// on each axis the total momentum after `resolve_pairs` differs from the
/// one before by less than `m1 + m2`, provided no velocity reaches the speed
/// limit. A pair that does not overlap keeps its velocities.
pub proof fn lemma_pair_pass_momentum(p1: Particle, p2: Particle)
    requires
        p1.wf(),
        p2.wf(),
        response_unclamped(p1, p2),
    ensures
        ({
            let ps = seq![p1, p2];
            let out = resolve_pairs(ps, 0, 1);
            let m = p1.mass + p2.mass;
            &&& out.len() == 2
            &&& -m < momentum_upto(out, 2, true) - momentum_upto(ps, 2, true) < m
            &&& -m < momentum_upto(out, 2, false) - momentum_upto(ps, 2, false) < m
            &&& !overlapping(p1, p2) ==> out == ps
        }),
{
    let ps = seq![p1, p2];
    let mid = collide_at(ps, 0, 1);
    assert(resolve_pairs(ps, 0, 1) == resolve_pairs(mid, 0, 2));
    assert(resolve_pairs(mid, 0, 2) == resolve_pairs(mid, 1, 2));
    assert(resolve_pairs(mid, 1, 2) == resolve_pairs(mid, 2, 3));
    let out = resolve_pairs(ps, 0, 1);
    assert(out == mid);
    assert(ps[0] == p1 && ps[1] == p2);
    if overlapping(p1, p2) && p1.position != p2.position {
        lemma_collision_momentum(p1, p2);
        let a = collided(p1, p2);
        let b = collided(p2, p1);
        assert(p2.position != p1.position);
        assert(mid =~= seq![a, b]);
        assert(out[0] == a && out[1] == b);
    } else if overlapping(p1, p2) {
        assert(collided(p1, p2) == p1 && collided(p2, p1) == p2);
        assert(mid =~= ps);
    }
    assert(momentum_upto(out, 0, true) == 0 && momentum_upto(out, 0, false) == 0);
    assert(momentum_upto(out, 1, true) == out[0].momentum_x());
    assert(momentum_upto(out, 1, false) == out[0].momentum_y());
    assert(momentum_upto(out, 2, true) == out[0].momentum_x() + out[1].momentum_x());
    assert(momentum_upto(ps, 0, true) == 0 && momentum_upto(ps, 0, false) == 0);
    assert(momentum_upto(ps, 1, true) == p1.momentum_x());
    assert(momentum_upto(ps, 1, false) == p1.momentum_y());
    assert(momentum_upto(ps, 2, true) == p1.momentum_x() + p2.momentum_x());
    assert(momentum_upto(out, 2, false) == out[0].momentum_y() + out[1].momentum_y());
    assert(momentum_upto(ps, 2, false) == p1.momentum_y() + p2.momentum_y());
}

/// Two bodies pull each other with exactly opposite forces: what
/// `get_gravitational_force` returns for one is the negation of the other.
pub proof fn lemma_two_body_forces(ps: Seq<Particle>, g: int)
    requires
        ps.len() == 2,
    ensures
        force_x(ps, 0, g) == -force_x(ps, 1, g),
        force_y(ps, 0, g) == -force_y(ps, 1, g),
{
    lemma_pair_force_antisymmetric(ps[0], ps[1], g, true);
    lemma_pair_force_antisymmetric(ps[0], ps[1], g, false);
    assert(force_upto(ps, 0, g, 0, true) == 0 && force_upto(ps, 0, g, 0, false) == 0);
    assert(force_upto(ps, 1, g, 0, true) == 0 && force_upto(ps, 1, g, 0, false) == 0);
    assert(force_upto(ps, 0, g, 1, true) == 0 && force_upto(ps, 0, g, 1, false) == 0);
    assert(force_upto(ps, 1, g, 1, true) == pair_force_on(ps[1], ps[0], g, true));
    assert(force_upto(ps, 1, g, 1, false) == pair_force_on(ps[1], ps[0], g, false));
}

/// A lone particle feels no force, whatever `G` is.
pub proof fn lemma_lone_particle_force(ps: Seq<Particle>, g: int)
    requires
        ps.len() == 1,
    ensures
        force_x(ps, 0, g) == 0,
        force_y(ps, 0, g) == 0,
{
    assert(force_upto(ps, 0, g, 0, true) == 0 && force_upto(ps, 0, g, 0, false) == 0);
}

/// Absolute value.
pub open spec fn abs(x: int) -> int {
    if x < 0 { -x } else { x }
}

proof fn lemma_square_error(v: int, w: int, k: int)
    requires
        k > 0,
        -k < k * v - w < k,
    ensures
        -(k * (2 * abs(w) + k)) <= k * k * (v * v) - w * w <= k * (2 * abs(w) + k),
{
    let e = k * v - w;
    let t = 2 * w + e;
    assert(k * k * (v * v) - w * w == e * t) by (nonlinear_arith)
        requires e == k * v - w, t == 2 * w + e;
    assert(-(2 * abs(w) + k) <= t <= 2 * abs(w) + k);
    assert(-(k * (2 * abs(w) + k)) <= e * t <= k * (2 * abs(w) + k)) by (nonlinear_arith)
        requires -k < e < k, -(2 * abs(w) + k) <= t <= 2 * abs(w) + k, k > 0;
}

/// The lattice response keeps the kinetic energy within rounding: with `k`
/// the common denominator and `w` the exact scaled velocities, twice the
/// kinetic energy after the collision, `E'`, and before it, `E`, satisfy
/// `k |E' - E| <= m1 (2 |w1x| + 2 |w1y| + 2k) + m2 (2 |w2x| + 2 |w2y| + 2k)`,
/// that is a relative error of order one velocity unit over the speed.
pub proof fn lemma_collision_energy_rounding(p1: Particle, p2: Particle)
    requires
        p1.mass >= 1,
        p2.mass >= 1,
        p1.position != p2.position,
    ensures
        ({
            let (v1x, v1y) = raw_response(p1, p2);
            let (v2x, v2y) = raw_response(p2, p1);
            let (w1x, w1y) = scaled_response(p1, p2);
            let (w2x, w2y) = scaled_response(p2, p1);
            let k = response_scale(p1, p2);
            let m1 = p1.mass as int;
            let m2 = p2.mass as int;
            let after = m1 * (v1x * v1x + v1y * v1y) + m2 * (v2x * v2x + v2y * v2y);
            let before = p1.energy2() + p2.energy2();
            let bound = m1 * (2 * abs(w1x) + 2 * abs(w1y) + 2 * k) + m2 * (2 * abs(w2x) + 2 * abs(w2y) + 2 * k);
            k * abs(after - before) <= bound
        }),
{
    let (v1x, v1y) = raw_response(p1, p2);
    let (v2x, v2y) = raw_response(p2, p1);
    let (w1x, w1y) = scaled_response(p1, p2);
    let (w2x, w2y) = scaled_response(p2, p1);
    let k = response_scale(p1, p2);
    let m1 = p1.mass as int;
    let m2 = p2.mass as int;
    lemma_collision_exact_conservation(p1, p2);
    lemma_collision_rounding(p1, p2);
    lemma_collision_rounding(p2, p1);
    lemma_square_error(v1x, w1x, k);
    lemma_square_error(v1y, w1y, k);
    lemma_square_error(v2x, w2x, k);
    lemma_square_error(v2y, w2y, k);
    let a1 = k * k * (v1x * v1x) - w1x * w1x + (k * k * (v1y * v1y) - w1y * w1y);
    let a2 = k * k * (v2x * v2x) - w2x * w2x + (k * k * (v2y * v2y) - w2y * w2y);
    let b1 = k * (2 * abs(w1x) + k) + k * (2 * abs(w1y) + k);
    let b2 = k * (2 * abs(w2x) + k) + k * (2 * abs(w2y) + k);
    assert(-b1 <= a1 <= b1);
    assert(-b2 <= a2 <= b2);
    assert(-(m1 * b1) <= m1 * a1 <= m1 * b1) by (nonlinear_arith) requires -b1 <= a1 <= b1, m1 >= 1;
    assert(-(m2 * b2) <= m2 * a2 <= m2 * b2) by (nonlinear_arith) requires -b2 <= a2 <= b2, m2 >= 1;
    let after = m1 * (v1x * v1x + v1y * v1y) + m2 * (v2x * v2x + v2y * v2y);
    let before = p1.energy2() + p2.energy2();
    let kk = k * k;
    let s1 = v1x * v1x + v1y * v1y;
    let s2 = v2x * v2x + v2y * v2y;
    let q1 = w1x * w1x + w1y * w1y;
    let q2 = w2x * w2x + w2y * w2y;
    vstd::arithmetic::mul::lemma_mul_is_distributive_add(kk, v1x * v1x, v1y * v1y);
    vstd::arithmetic::mul::lemma_mul_is_distributive_add(kk, v2x * v2x, v2y * v2y);
    assert(a1 == kk * s1 - q1);
    assert(a2 == kk * s2 - q2);
    vstd::arithmetic::mul::lemma_mul_is_distributive_sub(m1, kk * s1, q1);
    vstd::arithmetic::mul::lemma_mul_is_distributive_sub(m2, kk * s2, q2);
    assert(m1 * (kk * s1) == kk * (m1 * s1)) by (nonlinear_arith);
    assert(m2 * (kk * s2) == kk * (m2 * s2)) by (nonlinear_arith);
    vstd::arithmetic::mul::lemma_mul_is_distributive_add(kk, m1 * s1, m2 * s2);
    assert(after == m1 * s1 + m2 * s2);
    assert(m1 * a1 + m2 * a2 == kk * after - (m1 * q1 + m2 * q2));
    assert(m1 * q1 + m2 * q2 == kk * before);
    let d = after - before;
    vstd::arithmetic::mul::lemma_mul_is_distributive_sub(kk, after, before);
    let bound = m1 * (2 * abs(w1x) + 2 * abs(w1y) + 2 * k) + m2 * (2 * abs(w2x) + 2 * abs(w2y) + 2 * k);
    let c1 = 2 * abs(w1x) + 2 * abs(w1y) + 2 * k;
    let c2 = 2 * abs(w2x) + 2 * abs(w2y) + 2 * k;
    vstd::arithmetic::mul::lemma_mul_is_distributive_add(k, 2 * abs(w1x) + k, 2 * abs(w1y) + k);
    vstd::arithmetic::mul::lemma_mul_is_distributive_add(k, 2 * abs(w2x) + k, 2 * abs(w2y) + k);
    assert(b1 == k * c1 && b2 == k * c2);
    assert(m1 * (k * c1) == k * (m1 * c1)) by (nonlinear_arith);
    assert(m2 * (k * c2) == k * (m2 * c2)) by (nonlinear_arith);
    vstd::arithmetic::mul::lemma_mul_is_distributive_add(k, m1 * c1, m2 * c2);
    assert(m1 * b1 + m2 * b2 == k * bound);
    assert(-(k * bound) <= kk * d <= k * bound);
    if d < 0 {
        vstd::arithmetic::mul::lemma_mul_unary_negation(kk, -d);
        assert(kk * abs(d) == -(kk * d));
    }
    assert(kk * abs(d) <= k * bound);
    assert(k * abs(d) <= bound) by (nonlinear_arith)
        requires kk * abs(d) <= k * bound, kk == k * k, k > 0;
}

} // verus!
