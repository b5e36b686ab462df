use vstd::prelude::*;
use crate::arena::{Arena, Boundary, moved, advance, in_flight};
use crate::collision::{resolve_pairs, detect_particle_collisions, same_bodies, same_body, lemma_resolve_pairs_keeps};
use crate::gravity::{G_LIMIT, POPULATION_LIMIT, gravity_step, step_gravity};
use crate::particle::{Particle, COORD_LIMIT, SPEED_LIMIT, MASS_LIMIT, all_wf};
use crate::factory::{Config, SimError, config_error, generated, create_particles, drawable, placement_outcome};
use rand::rngs::StdRng;

verus! {

/// The physics that drives a simulation.
#[derive(Clone, Copy, Debug, PartialEq, Eq, Structural)]
pub enum Mode {
    /// N-body attraction with gravitational constant `g` and a boundary policy.
    Gravity { g: u64, boundary: Boundary },
    /// Ballistic motion, wall reflection and elastic collisions between discs.
    Collision,
}

/// What a particle owes the arena under `mode`.
pub open spec fn mode_keeps(arena: Arena, mode: Mode, p: Particle) -> bool {
    match mode {
        Mode::Collision => arena.fits(p.radius as int) && arena.contains(p),
        Mode::Gravity { g, boundary } => {
            &&& boundary == Boundary::Reflect ==> arena.fits(p.radius as int)
            &&& arena.keeps(boundary, p)
        },
    }
}

/// A population that the kernel can advance under `mode` in `arena`.
pub open spec fn valid_state(ps: Seq<Particle>, arena: Arena, mode: Mode) -> bool {
    &&& arena.wf()
    &&& ps.len() <= POPULATION_LIMIT
    &&& all_wf(ps)
    &&& forall|i: int| 0 <= i < ps.len() ==> mode_keeps(arena, mode, #[trigger] ps[i])
    &&& mode is Gravity ==> mode->g <= G_LIMIT
}

/// The population after one collision tick: every particle moves by its
/// velocity and is reflected off the walls, then overlapping pairs are
/// resolved in ascending order.
pub open spec fn collision_step(ps: Seq<Particle>, arena: Arena) -> Seq<Particle> {
    resolve_pairs(Seq::new(ps.len(), |i: int| arena.bounced(moved(ps[i]))), 0, 1)
}

/// The population after one tick under `mode`.
pub open spec fn next_particles(ps: Seq<Particle>, arena: Arena, mode: Mode) -> Seq<Particle> {
    match mode {
        Mode::Gravity { g, boundary } => gravity_step(ps, g as int, arena, boundary),
        Mode::Collision => collision_step(ps, arena),
    }
}

/// The population after `n` ticks under `mode`.
pub open spec fn run(ps: Seq<Particle>, arena: Arena, mode: Mode, n: nat) -> Seq<Particle>
    decreases n,
{
    if n == 0 {
        ps
    } else {
        next_particles(run(ps, arena, mode, (n - 1) as nat), arena, mode)
    }
}

/// A collision tick: ballistic motion, wall reflection, then pairwise resolution.
pub fn step_collision(particles: &mut Vec<Particle>, arena: &Arena)
    requires
        arena.wf(),
        all_wf(old(particles)@),
        forall|i: int| 0 <= i < old(particles).len()
            ==> arena.fits(#[trigger] old(particles)@[i].radius as int),
    ensures
        final(particles)@ == collision_step(old(particles)@, *arena),
        final(particles).len() == old(particles).len(),
        all_wf(final(particles)@),
        forall|i: int| 0 <= i < final(particles).len() ==> {
            &&& arena.contains(#[trigger] final(particles)@[i])
            &&& arena.fits(final(particles)@[i].radius as int)
        },
{
    let ghost start = particles@;
    let n = particles.len();
    let mut i: usize = 0;
    while i < n
        invariant
            n == particles.len() == start.len(),
            arena.wf(),
            0 <= i <= n,
            all_wf(start),
            forall|k: int| 0 <= k < n ==> arena.fits(#[trigger] start[k].radius as int),
            forall|k: int| i <= k < n ==> #[trigger] particles@[k] == start[k],
            forall|k: int| 0 <= k < i ==> #[trigger] particles@[k] == arena.bounced(moved(start[k])),
            forall|k: int| 0 <= k < i ==> (#[trigger] particles@[k]).wf() && arena.contains(particles@[k]),
        decreases n - i,
    {
        let mut p = particles[i];
        advance(&mut p);
        arena.detect_wall_collision(&mut p);
        particles.set(i, p);
        i = i + 1;
    }
    let ghost moved_all = particles@;
    assert(moved_all =~= Seq::new(start.len(), |k: int| arena.bounced(moved(start[k]))));
    detect_particle_collisions(particles);
    assert forall|k: int| 0 <= k < particles.len() implies {
        &&& arena.contains(#[trigger] particles@[k])
        &&& arena.fits(particles@[k].radius as int)
    } by {
        assert(same_bodies(moved_all, particles@));
        assert(arena.contains(moved_all[k]) && arena.fits(moved_all[k].radius as int));
        assert(same_body(moved_all[k], particles@[k]));
    }
}

/// The first reason why `ps` cannot be advanced under `mode` in `arena`, if any.
pub open spec fn state_error(ps: Seq<Particle>, arena: Arena, mode: Mode) -> Option<SimError> {
    if !arena.wf() {
        Some(SimError::InvalidArena)
    } else if ps.len() == 0 {
        Some(SimError::EmptyPopulation)
    } else if ps.len() > POPULATION_LIMIT {
        Some(SimError::TooManyParticles)
    } else if mode is Gravity && mode->g > G_LIMIT {
        Some(SimError::InvalidGravity)
    } else if exists|i: int| 0 <= i < ps.len() && !((#[trigger] ps[i]).wf() && mode_keeps(arena, mode, ps[i])) {
        Some(SimError::InvalidParticle)
    } else {
        None
    }
}

/// Whether `p` is within the limits and placed as `mode` asks in `arena`.
fn particle_fits(p: &Particle, arena: &Arena, mode: Mode) -> (r: bool)
    requires
        arena.wf(),
    ensures
        r == (p.wf() && mode_keeps(*arena, mode, *p)),
{
    let wf = 1 <= p.mass && p.mass <= MASS_LIMIT && p.radius <= COORD_LIMIT as u64
        && -COORD_LIMIT <= p.position.x && p.position.x <= COORD_LIMIT
        && -COORD_LIMIT <= p.position.y && p.position.y <= COORD_LIMIT
        && -SPEED_LIMIT <= p.velocity.x && p.velocity.x <= SPEED_LIMIT
        && -SPEED_LIMIT <= p.velocity.y && p.velocity.y <= SPEED_LIMIT;
    if !wf {
        return false;
    }
    let r = p.radius as i64;
    let fits = 2 * r <= arena.max_x - arena.min_x && 2 * r <= arena.max_y - arena.min_y;
    let contains = arena.min_x <= p.position.x - r && p.position.x + r <= arena.max_x
        && arena.min_y <= p.position.y - r && p.position.y + r <= arena.max_y;
    let centre = arena.min_x <= p.position.x && p.position.x <= arena.max_x
        && arena.min_y <= p.position.y && p.position.y <= arena.max_y;
    match mode {
        Mode::Collision => fits && contains,
        Mode::Gravity { g, boundary } => match boundary {
            Boundary::Reflect => fits && contains,
            Boundary::Wrap => centre,
        },
    }
}

/// A particle population in an arena, advanced one tick at a time under one mode.
pub struct Simulation {
    particles: Vec<Particle>,
    arena: Arena,
    mode: Mode,
    time: u64,
}

impl Simulation {
    /// The particles, in creation order.
    pub closed spec fn particles_spec(&self) -> Seq<Particle> {
        self.particles@
    }

    /// The arena.
    pub closed spec fn arena_spec(&self) -> Arena {
        self.arena
    }

    /// The active physics.
    pub closed spec fn mode_spec(&self) -> Mode {
        self.mode
    }

    /// The number of ticks taken.
    pub closed spec fn time_spec(&self) -> u64 {
        self.time
    }

    /// The state can be advanced.
    pub open spec fn wf(&self) -> bool {
        valid_state(self.particles_spec(), self.arena_spec(), self.mode_spec())
    }

    /// Advances the simulation by one tick under its mode and counts the tick
    /// (the counter stops at `u64::MAX`).
    pub fn step(&mut self)
        requires
            old(self).wf(),
        ensures
            final(self).wf(),
            final(self).particles_spec() == next_particles(old(self).particles_spec(),
                old(self).arena_spec(), old(self).mode_spec()),
            final(self).arena_spec() == old(self).arena_spec(),
            final(self).mode_spec() == old(self).mode_spec(),
            old(self).mode_spec() == Mode::Collision ==> forall|i: int|
                0 <= i < final(self).particles_spec().len()
                ==> old(self).arena_spec().contains(#[trigger] final(self).particles_spec()[i]),
            final(self).time_spec() == if old(self).time_spec() < u64::MAX {
                old(self).time_spec() + 1
            } else {
                old(self).time_spec() as int
            },
    {
        match self.mode {
            Mode::Gravity { g, boundary } => {
                step_gravity(&mut self.particles, g, &self.arena, boundary);
            },
            Mode::Collision => {
                step_collision(&mut self.particles, &self.arena);
            },
        }
        self.time = self.time.saturating_add(1);
    }

    /// A simulation of the given particles, with the tick counter at zero.
    /// Fails when the state cannot be advanced, with the first reason of `state_error`.
    pub fn from_particles(particles: Vec<Particle>, arena: Arena, mode: Mode) -> (r: Result<Simulation, SimError>)
        ensures
            state_error(particles@, arena, mode) is Some
                ==> r == Err::<Simulation, SimError>(state_error(particles@, arena, mode)->0),
            state_error(particles@, arena, mode) is None ==> r is Ok,
            r is Ok ==> {
                &&& r->Ok_0.wf()
                &&& r->Ok_0.particles_spec() == particles@
                &&& r->Ok_0.arena_spec() == arena
                &&& r->Ok_0.mode_spec() == mode
                &&& r->Ok_0.time_spec() == 0
            },
    {
        if !(-COORD_LIMIT <= arena.min_x && arena.min_x < arena.max_x && arena.max_x <= COORD_LIMIT
            && -COORD_LIMIT <= arena.min_y && arena.min_y < arena.max_y && arena.max_y <= COORD_LIMIT) {
            return Err(SimError::InvalidArena);
        }
        if particles.len() == 0 {
            return Err(SimError::EmptyPopulation);
        }
        if particles.len() > POPULATION_LIMIT {
            return Err(SimError::TooManyParticles);
        }
        match mode {
            Mode::Gravity { g, boundary } => {
                if g > G_LIMIT {
                    return Err(SimError::InvalidGravity);
                }
            },
            Mode::Collision => {},
        }
        let mut i: usize = 0;
        while i < particles.len()
            invariant
                arena.wf(),
                particles.len() <= POPULATION_LIMIT,
                mode is Gravity ==> mode->g <= G_LIMIT,
                0 <= i <= particles.len(),
                forall|k: int| 0 <= k < i ==> (#[trigger] particles@[k]).wf()
                    && mode_keeps(arena, mode, particles@[k]),
            decreases particles.len() - i,
        {
            if !particle_fits(&particles[i], &arena, mode) {
                return Err(SimError::InvalidParticle);
            }
            i = i + 1;
        }
        Ok(Simulation { particles, arena, mode, time: 0 })
    }

    /// A simulation of a random population drawn by `create_particles`
    /// from `config` and `rng`, with the tick counter at zero.
    pub fn new(config: &Config, rng: &mut StdRng) -> (r: Result<Simulation, SimError>)
        ensures
            config_error(*config) is Some
                ==> r == Err::<Simulation, SimError>(config_error(*config)->0),
            config_error(*config) is None ==> exists|drawn: Seq<Particle>| {
                &&& drawn.len() <= config.num_particles * config.max_attempts
                &&& forall|i: int| 0 <= i < drawn.len() ==> drawable(*config, #[trigger] drawn[i])
                &&& placement_outcome(*config, drawn) == Some(match r {
                    Ok(s) => Ok::<Seq<Particle>, SimError>(s.particles_spec()),
                    Err(e) => Err(e),
                })
            },
            config_error(*config) is None ==> match r {
                Ok(s) => {
                    &&& s.wf()
                    &&& generated(*config, s.particles_spec())
                    &&& s.arena_spec() == config.arena
                    &&& s.mode_spec() == config.mode
                    &&& s.time_spec() == 0
                },
                Err(e) => e == SimError::PlacementExhausted,
            },
            config_error(*config) is None && config.max_attempts == 0
                ==> r == Err::<Simulation, SimError>(SimError::PlacementExhausted),
            config_error(*config) is None && config.max_attempts > 0
                && (config.mode != Mode::Collision || config.num_particles == 1) ==> r is Ok,
    {
        match create_particles(config, rng) {
            Ok(particles) => Ok(Simulation { particles, arena: config.arena, mode: config.mode, time: 0 }),
            Err(e) => Err(e),
        }
    }

    /// The particles, in creation order.
    pub fn particles(&self) -> (r: &Vec<Particle>)
        ensures
            r@ == self.particles_spec(),
    {
        &self.particles
    }

    /// The arena.
    pub fn arena(&self) -> (r: Arena)
        ensures
            r == self.arena_spec(),
    {
        self.arena
    }

    /// The active physics.
    pub fn mode(&self) -> (r: Mode)
        ensures
            r == self.mode_spec(),
    {
        self.mode
    }

    /// The number of ticks taken.
    pub fn time(&self) -> (r: u64)
        ensures
            r == self.time_spec(),
    {
        self.time
    }
}

/// The kernel is deterministic: equal populations advanced under the same
/// mode in the same arena for the same number of ticks end equal.
pub proof fn lemma_run_deterministic(ps1: Seq<Particle>, ps2: Seq<Particle>, arena: Arena, mode: Mode, n: nat)
    requires
        ps1 == ps2,
    ensures
        run(ps1, arena, mode, n) == run(ps2, arena, mode, n),
    decreases n,
{
    if n > 0 {
        lemma_run_deterministic(ps1, ps2, arena, mode, (n - 1) as nat);
    }
}

proof fn lemma_bounce_keeps(arena: Arena, p: Particle)
    requires
        arena.wf(),
        arena.fits(p.radius as int),
        p.wf(),
    ensures
        arena.bounced(moved(p)).wf(),
        arena.contains(arena.bounced(moved(p))),
        arena.fits(arena.bounced(moved(p)).radius as int),
{
    assert(in_flight(moved(p)));
}

/// A collision tick keeps a valid state valid.
pub proof fn lemma_collision_step_valid(ps: Seq<Particle>, arena: Arena)
    requires
        valid_state(ps, arena, Mode::Collision),
    ensures
        valid_state(collision_step(ps, arena), arena, Mode::Collision),
{
    let mid = Seq::new(ps.len(), |i: int| arena.bounced(moved(ps[i])));
    assert forall|i: int| 0 <= i < mid.len() implies {
        &&& (#[trigger] mid[i]).wf()
        &&& mode_keeps(arena, Mode::Collision, mid[i])
    } by {
        assert(mode_keeps(arena, Mode::Collision, ps[i]));
        lemma_bounce_keeps(arena, ps[i]);
    }
    lemma_resolve_pairs_keeps(mid, 0, 1);
    let fin = resolve_pairs(mid, 0, 1);
    assert forall|i: int| 0 <= i < fin.len() implies mode_keeps(arena, Mode::Collision, #[trigger] fin[i]) by {
        assert(same_body(mid[i], fin[i]));
        assert(mode_keeps(arena, Mode::Collision, mid[i]));
    }
}

/// Wall containment holds at every tick: from a valid collision state, after
/// any number of ticks every disc lies wholly inside the arena.
pub proof fn lemma_collision_run_contained(ps: Seq<Particle>, arena: Arena, n: nat)
    requires
        valid_state(ps, arena, Mode::Collision),
    ensures
        valid_state(run(ps, arena, Mode::Collision, n), arena, Mode::Collision),
        forall|i: int| 0 <= i < run(ps, arena, Mode::Collision, n).len()
            ==> arena.contains(#[trigger] run(ps, arena, Mode::Collision, n)[i]),
    decreases n,
{
    if n > 0 {
        lemma_collision_run_contained(ps, arena, (n - 1) as nat);
        lemma_collision_step_valid(run(ps, arena, Mode::Collision, (n - 1) as nat), arena);
    }
    let r = run(ps, arena, Mode::Collision, n);
    assert forall|i: int| 0 <= i < r.len() implies arena.contains(#[trigger] r[i]) by {
        assert(mode_keeps(arena, Mode::Collision, r[i]));
    }
}

} // verus!
