use vstd::prelude::*;
use rand::Rng;
use rand::rngs::StdRng;
use crate::arena::{Arena, Boundary};
use crate::collision::{overlapping, detect_overlap};
use crate::gravity::{G_LIMIT, POPULATION_LIMIT};
use crate::particle::{Particle, COORD_LIMIT, SPEED_LIMIT, MASS_LIMIT, all_wf};
use crate::simulation::{Mode, mode_keeps, valid_state};
use crate::vector::Vec2;

verus! {

/// The seeded generator `rand::rngs::StdRng`, carried through as an opaque value.
#[verifier::external_type_specification]
#[verifier::external_body]
pub struct ExStdRng(StdRng);

/// Relies on `rand::Rng::gen_range` over the inclusive range `lo..=hi`
/// (rand 0.8): the value lies in `[lo, hi]`. The call panics on an empty
/// range, which `lo <= hi` rules out.
#[verifier::external_body]
fn draw(rng: &mut StdRng, lo: i64, hi: i64) -> (r: i64)
    requires
        lo <= hi,
    ensures
        lo <= r <= hi,
{
    rng.gen_range(lo..=hi)
}

/// Why a simulation could not be built.
#[derive(Clone, Copy, Debug, PartialEq, Eq, Structural)]
pub enum SimError {
    /// The population is empty.
    EmptyPopulation,
    /// The population exceeds `POPULATION_LIMIT`.
    TooManyParticles,
    /// The mass range is empty, starts at zero or exceeds `MASS_LIMIT`.
    InvalidMass,
    /// The radius is zero in collision mode, exceeds `COORD_LIMIT`, or the disc does not fit the arena.
    InvalidRadius,
    /// The speed bound is negative or exceeds `SPEED_LIMIT`.
    InvalidVelocity,
    /// The arena bounds are unordered or beyond `COORD_LIMIT`.
    InvalidArena,
    /// The gravitational constant exceeds `G_LIMIT`.
    InvalidGravity,
    /// A given particle breaks the limits or lies outside the arena.
    InvalidParticle,
    /// No free spot was found for a particle within the attempt budget.
    PlacementExhausted,
}

/// Parameters of a randomly generated population.
#[derive(Clone, Copy, Debug, PartialEq, Eq, Structural)]
pub struct Config {
    pub num_particles: usize,
    pub min_mass: u64,
    pub max_mass: u64,
    /// Velocity components are drawn from `[-max_velocity, max_velocity]`.
    pub max_velocity: i64,
    pub radius: u64,
    pub arena: Arena,
    pub mode: Mode,
    /// Candidates drawn for one particle before placement gives up.
    pub max_attempts: u64,
}

/// The particles must stay clear of the walls: collision mode, or a reflecting boundary.
pub open spec fn has_walls(mode: Mode) -> bool {
    match mode {
        Mode::Collision => true,
        Mode::Gravity { g, boundary } => boundary == Boundary::Reflect,
    }
}

/// The first configuration error of `c`, checked in the order listed.
pub open spec fn config_error(c: Config) -> Option<SimError> {
    if c.num_particles == 0 {
        Some(SimError::EmptyPopulation)
    } else if c.num_particles > POPULATION_LIMIT {
        Some(SimError::TooManyParticles)
    } else if c.min_mass == 0 || c.min_mass > c.max_mass || c.max_mass > MASS_LIMIT {
        Some(SimError::InvalidMass)
    } else if c.max_velocity < 0 || c.max_velocity > SPEED_LIMIT {
        Some(SimError::InvalidVelocity)
    } else if !c.arena.wf() {
        Some(SimError::InvalidArena)
    } else if c.radius > COORD_LIMIT || (c.mode == Mode::Collision && c.radius == 0)
        || (has_walls(c.mode) && !c.arena.fits(c.radius as int)) {
        Some(SimError::InvalidRadius)
    } else if c.mode is Gravity && c.mode->g > G_LIMIT {
        Some(SimError::InvalidGravity)
    } else {
        None
    }
}

/// Range `[lo, hi]` of spawn positions on an axis `[min, max]` for a disc of radius `r`:
/// the whole disc inside where there are walls, else the centre in `[min, max]`.
pub open spec fn spawn_range(min: int, max: int, r: int, walls: bool) -> (int, int) {
    if walls {
        (min + r, max - r)
    } else {
        (min, max)
    }
}

/// The ranges that particles are drawn from are well formed: the mass,
/// velocity, arena and radius settings of `c` are valid.
pub open spec fn draw_ranges_ok(c: Config) -> bool {
    &&& 1 <= c.min_mass <= c.max_mass <= MASS_LIMIT
    &&& 0 <= c.max_velocity <= SPEED_LIMIT
    &&& c.arena.wf()
    &&& c.radius <= COORD_LIMIT
    &&& !(c.mode == Mode::Collision && c.radius == 0)
    &&& has_walls(c.mode) ==> c.arena.fits(c.radius as int)
}

/// `p` is a particle that the configuration `c` may generate as number `id`.
pub open spec fn spawned(c: Config, p: Particle, id: int) -> bool {
    &&& p.id == id
    &&& drawable(c, p)
}

/// `p` has mass, radius, position and velocity in the ranges that `c` sets.
pub open spec fn drawable(c: Config, p: Particle) -> bool {
    let walls = has_walls(c.mode);
    let (xlo, xhi) = spawn_range(c.arena.min_x as int, c.arena.max_x as int, c.radius as int, walls);
    let (ylo, yhi) = spawn_range(c.arena.min_y as int, c.arena.max_y as int, c.radius as int, walls);
    &&& c.min_mass <= p.mass <= c.max_mass
    &&& p.radius == c.radius
    &&& xlo <= p.position.x <= xhi
    &&& ylo <= p.position.y <= yhi
    &&& -c.max_velocity <= p.velocity.x <= c.max_velocity
    &&& -c.max_velocity <= p.velocity.y <= c.max_velocity
}

/// No two discs of `ps` overlap.
pub open spec fn separated(ps: Seq<Particle>) -> bool {
    forall|i: int, j: int| 0 <= i < j < ps.len() ==> !overlapping(#[trigger] ps[i], #[trigger] ps[j])
}

/// Whether the placement rule accepts `candidate` next to the particles
/// `accepted`: in collision mode only if its disc overlaps none of theirs.
pub open spec fn admits(c: Config, accepted: Seq<Particle>, candidate: Particle) -> bool {
    c.mode != Mode::Collision
        || !exists|j: int| 0 <= j < accepted.len() && overlapping(#[trigger] accepted[j], candidate)
}

/// `p` renumbered as particle `id`.
pub open spec fn numbered(p: Particle, id: int) -> Particle {
    Particle { id: id as u64, ..p }
}

/// Placement is decided: every particle is placed, or the attempts for the
/// next one are used up.
pub open spec fn decided(c: Config, accepted: Seq<Particle>, tries: int) -> bool {
    accepted.len() >= c.num_particles || tries >= c.max_attempts
}

/// One step of the placement rule: the accepted particles and the failed
/// attempts for the next one, after `candidate` is offered. Once placement is
/// decided, further candidates change nothing.
pub open spec fn placement_step(c: Config, accepted: Seq<Particle>, tries: int, candidate: Particle)
    -> (Seq<Particle>, int)
{
    if decided(c, accepted, tries) {
        (accepted, tries)
    } else if admits(c, accepted, candidate) {
        (accepted.push(numbered(candidate, accepted.len() as int)), 0)
    } else {
        (accepted, tries + 1)
    }
}

/// The placement state after the candidates `cands` are offered in order.
pub open spec fn placed_after(c: Config, cands: Seq<Particle>) -> (Seq<Particle>, int)
    decreases cands.len(),
{
    if cands.len() == 0 {
        (Seq::empty(), 0)
    } else {
        let (accepted, tries) = placed_after(c, cands.drop_last());
        placement_step(c, accepted, tries, cands.last())
    }
}

/// What placing the candidates `cands` yields: the configuration error if
/// any; the population once every particle is placed; `PlacementExhausted`
/// once `max_attempts` candidates in a row for one particle were refused;
/// `None` if the candidates run out before either happens.
pub open spec fn placement_outcome(c: Config, cands: Seq<Particle>) -> Option<Result<Seq<Particle>, SimError>> {
    if config_error(c) is Some {
        Some(Err(config_error(c)->0))
    } else {
        let (accepted, tries) = placed_after(c, cands);
        if accepted.len() >= c.num_particles {
            Some(Ok(accepted))
        } else if tries >= c.max_attempts {
            Some(Err(SimError::PlacementExhausted))
        } else {
            None
        }
    }
}

/// A result whose population is given as a sequence.
pub open spec fn result_view(r: Result<Vec<Particle>, SimError>) -> Result<Seq<Particle>, SimError> {
    match r {
        Ok(v) => Ok(v@),
        Err(e) => Err(e),
    }
}

/// What a generated population satisfies.
pub open spec fn generated(c: Config, ps: Seq<Particle>) -> bool {
    &&& ps.len() == c.num_particles
    &&& forall|i: int| 0 <= i < ps.len() ==> spawned(c, #[trigger] ps[i], i)
    &&& c.mode == Mode::Collision ==> separated(ps)
    &&& valid_state(ps, c.arena, c.mode)
}

/// The first configuration error of `config`, if any.
pub fn check_config(config: &Config) -> (r: Option<SimError>)
    ensures
        r == config_error(*config),
{
    if config.num_particles == 0 {
        Some(SimError::EmptyPopulation)
    } else if config.num_particles > POPULATION_LIMIT {
        Some(SimError::TooManyParticles)
    } else if config.min_mass == 0 || config.min_mass > config.max_mass || config.max_mass > MASS_LIMIT {
        Some(SimError::InvalidMass)
    } else if config.max_velocity < 0 || config.max_velocity > SPEED_LIMIT {
        Some(SimError::InvalidVelocity)
    } else if !(-COORD_LIMIT <= config.arena.min_x && config.arena.min_x < config.arena.max_x
        && config.arena.max_x <= COORD_LIMIT && -COORD_LIMIT <= config.arena.min_y
        && config.arena.min_y < config.arena.max_y && config.arena.max_y <= COORD_LIMIT) {
        Some(SimError::InvalidArena)
    } else {
        let walls = match config.mode {
            Mode::Collision => true,
            Mode::Gravity { g, boundary } => match boundary {
                Boundary::Reflect => true,
                Boundary::Wrap => false,
            },
        };
        let collision = match config.mode {
            Mode::Collision => true,
            Mode::Gravity { .. } => false,
        };
        let fits = config.radius <= COORD_LIMIT as u64
            && 2 * (config.radius as i64) <= config.arena.max_x - config.arena.min_x
            && 2 * (config.radius as i64) <= config.arena.max_y - config.arena.min_y;
        if config.radius > COORD_LIMIT as u64 || (collision && config.radius == 0) || (walls && !fits) {
            Some(SimError::InvalidRadius)
        } else {
            match config.mode {
                Mode::Gravity { g, boundary } => {
                    if g > G_LIMIT {
                        Some(SimError::InvalidGravity)
                    } else {
                        None
                    }
                },
                Mode::Collision => None,
            }
        }
    }
}

/// Whether the disc of `candidate` overlaps that of any particle of `particles`.
pub fn overlaps_any(particles: &Vec<Particle>, candidate: &Particle) -> (r: bool)
    requires
        all_wf(particles@),
        candidate.wf(),
    ensures
        r == exists|j: int| 0 <= j < particles.len() && overlapping(#[trigger] particles@[j], *candidate),
{
    let mut j: usize = 0;
    while j < particles.len()
        invariant
            all_wf(particles@),
            candidate.wf(),
            0 <= j <= particles.len(),
            forall|k: int| 0 <= k < j ==> !overlapping(#[trigger] particles@[k], *candidate),
        decreases particles.len() - j,
    {
        if detect_overlap(&particles[j], candidate) {
            return true;
        }
        j = j + 1;
    }
    false
}

proof fn lemma_drawable_fits(c: Config, p: Particle)
    requires
        draw_ranges_ok(c),
        drawable(c, p),
    ensures
        p.wf(),
        mode_keeps(c.arena, c.mode, p),
{
}

/// Every population that the placement rule builds from drawable candidates
/// is numbered in order, within the limits, placed as the mode asks and, in
/// collision mode, free of overlaps.
pub proof fn lemma_placed_after_sound(c: Config, cands: Seq<Particle>)
    requires
        config_error(c) is None,
        forall|i: int| 0 <= i < cands.len() ==> drawable(c, #[trigger] cands[i]),
    ensures
        ({
            let (accepted, tries) = placed_after(c, cands);
            &&& accepted.len() <= c.num_particles
            &&& 0 <= tries <= c.max_attempts
            &&& forall|i: int| 0 <= i < accepted.len() ==> spawned(c, #[trigger] accepted[i], i)
            &&& all_wf(accepted)
            &&& forall|i: int| 0 <= i < accepted.len() ==> mode_keeps(c.arena, c.mode, #[trigger] accepted[i])
            &&& c.mode == Mode::Collision ==> separated(accepted)
        }),
    decreases cands.len(),
{
    if cands.len() > 0 {
        let prev = cands.drop_last();
        assert forall|i: int| 0 <= i < prev.len() implies drawable(c, #[trigger] prev[i]) by {
            assert(prev[i] == cands[i]);
        }
        lemma_placed_after_sound(c, prev);
        let (accepted, tries) = placed_after(c, prev);
        let x = cands.last();
        assert(drawable(c, cands[cands.len() - 1]));
        lemma_drawable_fits(c, x);
        if !decided(c, accepted, tries) && admits(c, accepted, x) {
            let next = accepted.push(numbered(x, accepted.len() as int));
            assert(placed_after(c, cands) == (next, 0int));
            assert forall|i: int| 0 <= i < next.len() implies spawned(c, #[trigger] next[i], i) by {
                if i < accepted.len() {
                    assert(next[i] == accepted[i]);
                }
            }
            assert forall|i: int| 0 <= i < next.len() implies (#[trigger] next[i]).wf()
                && mode_keeps(c.arena, c.mode, next[i]) by {
                if i < accepted.len() {
                    assert(next[i] == accepted[i]);
                }
            }
            if c.mode == Mode::Collision {
                assert forall|i: int, j: int| 0 <= i < j < next.len() implies
                    !overlapping(#[trigger] next[i], #[trigger] next[j]) by {
                    assert(next[i] == accepted[i]);
                    if j < accepted.len() {
                        assert(next[j] == accepted[j]);
                    } else {
                        assert(!overlapping(accepted[i], x));
                    }
                }
            }
        }
    }
}

/// Offers `candidate` to the placement rule: unless placement is already
/// decided, a candidate that `admits` accepts is appended as the next
/// particle and the attempt count restarts; a refused one counts an attempt.
pub fn offer_candidate(config: &Config, accepted: &mut Vec<Particle>, tries: &mut u64, candidate: Particle)
    requires
        config_error(*config) is None,
        drawable(*config, candidate),
        all_wf(old(accepted)@),
        *old(tries) <= config.max_attempts,
        old(accepted).len() <= config.num_particles,
    ensures
        (final(accepted)@, *final(tries) as int)
            == placement_step(*config, old(accepted)@, *old(tries) as int, candidate),
{
    if accepted.len() >= config.num_particles || *tries >= config.max_attempts {
        return;
    }
    proof {
        lemma_drawable_fits(*config, candidate);
    }
    let collision = match config.mode {
        Mode::Collision => true,
        Mode::Gravity { .. } => false,
    };
    if !collision || !overlaps_any(accepted, &candidate) {
        let id = accepted.len() as u64;
        accepted.push(Particle { id, ..candidate });
        *tries = 0;
    } else {
        *tries = *tries + 1;
    }
}

/// Places a population from the candidates `candidates`, offered in order:
/// the result is `placement_outcome`, that is the configuration error, the
/// population, `PlacementExhausted` when `max_attempts` candidates in a row
/// are refused for one particle, or `None` when the candidates run out first.
pub fn place_particles(config: &Config, candidates: &Vec<Particle>) -> (r: Option<Result<Vec<Particle>, SimError>>)
    requires
        config_error(*config) is None ==> forall|i: int| 0 <= i < candidates.len()
            ==> drawable(*config, #[trigger] candidates@[i]),
    ensures
        match r {
            None => placement_outcome(*config, candidates@) is None,
            Some(res) => placement_outcome(*config, candidates@) == Some(result_view(res)),
        },
        r matches Some(Ok(ps)) ==> generated(*config, ps@),
{
    match check_config(config) {
        Some(e) => {
            return Some(Err(e));
        },
        None => {},
    }
    let mut accepted: Vec<Particle> = Vec::new();
    let mut tries: u64 = 0;
    let mut k: usize = 0;
    while k < candidates.len()
        invariant
            config_error(*config) is None,
            forall|i: int| 0 <= i < candidates.len() ==> drawable(*config, #[trigger] candidates@[i]),
            0 <= k <= candidates.len(),
            (accepted@, tries as int) == placed_after(*config, candidates@.take(k as int)),
        decreases candidates.len() - k,
    {
        proof {
            let pre = candidates@.take(k as int);
            assert forall|i: int| 0 <= i < pre.len() implies drawable(*config, #[trigger] pre[i]) by {
                assert(pre[i] == candidates@[i]);
            }
            lemma_placed_after_sound(*config, pre);
            assert(candidates@.take(k + 1).drop_last() =~= pre);
        }
        offer_candidate(config, &mut accepted, &mut tries, candidates[k]);
        k = k + 1;
    }
    proof {
        assert(candidates@.take(k as int) =~= candidates@);
        lemma_placed_after_sound(*config, candidates@);
    }
    if accepted.len() >= config.num_particles {
        Some(Ok(accepted))
    } else if tries >= config.max_attempts {
        Some(Err(SimError::PlacementExhausted))
    } else {
        None
    }
}

impl Particle {
    /// A random candidate for particle number `id`: mass, position and
    /// velocity drawn uniformly from the ranges that `config` sets.
    pub fn new(rng: &mut StdRng, id: usize, config: &Config) -> (p: Particle)
        requires
            draw_ranges_ok(*config),
        ensures
            spawned(*config, p, id as int),
            p.wf(),
            mode_keeps(config.arena, config.mode, p),
    {
        let walls = match config.mode {
            Mode::Collision => true,
            Mode::Gravity { g, boundary } => match boundary {
                Boundary::Reflect => true,
                Boundary::Wrap => false,
            },
        };
        let r = config.radius as i64;
        let a = config.arena;
        let (xlo, xhi, ylo, yhi) = if walls {
            (a.min_x + r, a.max_x - r, a.min_y + r, a.max_y - r)
        } else {
            (a.min_x, a.max_x, a.min_y, a.max_y)
        };
        let mass = draw(rng, config.min_mass as i64, config.max_mass as i64);
        let x = draw(rng, xlo, xhi);
        let y = draw(rng, ylo, yhi);
        let vx = draw(rng, -config.max_velocity, config.max_velocity);
        let vy = draw(rng, -config.max_velocity, config.max_velocity);
        Particle {
            id: id as u64,
            mass: mass as u64,
            radius: config.radius,
            position: Vec2 { x, y },
            velocity: Vec2 { x: vx, y: vy },
        }
    }
}

/// Generates `num_particles` particles with ids `0, 1, ...`, drawing each
/// quantity uniformly from its configured range. Candidates are drawn one at
/// a time and offered to the placement rule (`placement_outcome`) until it
/// decides: in collision mode a candidate that overlaps an accepted particle
/// is refused, and `max_attempts` refusals in a row for one particle end the
/// placement with `PlacementExhausted`.
pub fn create_particles(config: &Config, rng: &mut StdRng) -> (r: Result<Vec<Particle>, SimError>)
    ensures
        config_error(*config) is Some ==> r == Err::<Vec<Particle>, SimError>(config_error(*config)->0),
        config_error(*config) is None ==> exists|drawn: Seq<Particle>| {
            &&& drawn.len() <= config.num_particles * config.max_attempts
            &&& forall|i: int| 0 <= i < drawn.len() ==> drawable(*config, #[trigger] drawn[i])
            &&& placement_outcome(*config, drawn) == Some(result_view(r))
        },
        config_error(*config) is None ==> match r {
            Ok(ps) => generated(*config, ps@),
            Err(e) => e == SimError::PlacementExhausted,
        },
        config_error(*config) is None && config.max_attempts == 0
            ==> r == Err::<Vec<Particle>, SimError>(SimError::PlacementExhausted),
        config_error(*config) is None && config.max_attempts > 0
            && (config.mode != Mode::Collision || config.num_particles == 1) ==> r is Ok,
{
    match check_config(config) {
        Some(e) => {
            return Err(e);
        },
        None => {},
    }
    let n = config.num_particles;
    let mut accepted: Vec<Particle> = Vec::new();
    let mut tries: u64 = 0;
    let ghost mut drawn: Seq<Particle> = Seq::empty();
    while accepted.len() < n && tries < config.max_attempts
        invariant
            config_error(*config) is None,
            n == config.num_particles,
            forall|i: int| 0 <= i < drawn.len() ==> drawable(*config, #[trigger] drawn[i]),
            (accepted@, tries as int) == placed_after(*config, drawn),
            accepted.len() <= n,
            tries <= config.max_attempts,
            config.max_attempts > 0 && (config.mode != Mode::Collision || n == 1) ==> tries == 0,
            config.max_attempts == 0 ==> accepted.len() == 0,
            drawn.len() <= accepted.len() * config.max_attempts + tries,
            accepted.len() >= n ==> tries == 0,
        decreases n - accepted.len(), config.max_attempts - tries,
    {
        proof {
            lemma_placed_after_sound(*config, drawn);
        }
        let candidate = Particle::new(rng, accepted.len(), config);
        let ghost before = accepted@;
        let ghost tries_before = tries;
        offer_candidate(config, &mut accepted, &mut tries, candidate);
        proof {
            if accepted.len() > before.len() {
                assert(accepted.len() == before.len() + 1 && tries == 0);
                assert(before.len() * config.max_attempts + config.max_attempts
                    == accepted.len() * config.max_attempts) by (nonlinear_arith)
                    requires accepted.len() == before.len() + 1;
            }
            if config.mode != Mode::Collision || n == 1 {
                assert(before.len() == 0 || config.mode != Mode::Collision);
                assert(admits(*config, before, candidate));
            }
            let next = drawn.push(candidate);
            assert(next.drop_last() =~= drawn);
            drawn = next;
        }
    }
    proof {
        lemma_placed_after_sound(*config, drawn);
        assert(accepted.len() * config.max_attempts + tries <= n * config.max_attempts) by (nonlinear_arith)
            requires
                accepted.len() <= n,
                tries <= config.max_attempts,
                accepted.len() >= n ==> tries == 0,
                accepted.len() < n ==> accepted.len() + 1 <= n;
    }
    let r = if accepted.len() >= n {
        Ok(accepted)
    } else {
        Err(SimError::PlacementExhausted)
    };
    assert(placement_outcome(*config, drawn) == Some(result_view(r)));
    r
}

} // verus!
