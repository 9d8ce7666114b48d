//! The lifecycle: metabolic drain, aging, density-dependent reproduction,
//! the death transition into a corpse, and corpse decay and removal.

use vstd::prelude::*;
use crate::fixed::div_tz;
use crate::geom::{Vec2m, length_spec, wrap_coord_spec, wrap_coord};
use crate::organism::{Organism, Species, Genome, Stamina, Waypoint, same_except_energy};
use crate::config::{ENERGY_FLOOR, ENERGY_CEIL, AGE_CAP, MAX_AGE, CORPSE_DECAY_TIME, MAX_TICK,
    MAX_ORGANISMS, VEL_MAX};
use crate::world::{World, count_species, ids_unique, ids_below, lemma_push_fresh_id, ID_LIMIT};
use crate::rng::{rand_i64_range, bernoulli_ppm};

verus! {

/// The energy a mobile organism pays over a tick: a basal cost of
/// metabolism times size, plus a motion surcharge of a hundredth of the
/// speed, both scaled by the elapsed time.
pub open spec fn drain_cost_spec(o: Organism, dt: int) -> int {
    o.genome.metabolism * o.genome.size * dt / 1_000_000_000 + length_spec(
        o.vel.x as int,
        o.vel.y as int,
    ) * dt / 100_000_000
}

/// Whether the metabolic drain applies: it covers the mobile species.
/// Which species each lifecycle pass covers is a run design decision; here
/// plants are exempt, banking sunlight and losing energy only by being
/// consumed, which keeps the food base from wasting away.
pub open spec fn pays_drain(o: Organism) -> bool {
    o.species == Species::Prey || o.species == Species::Predator || o.species
        == Species::Scavenger
}

/// How one organism leaves the consumption pass: a mobile one pays its
/// drain (never below the numeric floor); plants and corpses are
/// untouched.
pub open spec fn drained_rel(o: Organism, n: Organism, dt: int) -> bool {
    if pays_drain(o) {
        same_except_energy(o, n) && n.energy == if o.energy - drain_cost_spec(o, dt)
            >= ENERGY_FLOOR {
            o.energy - drain_cost_spec(o, dt)
        } else {
            ENERGY_FLOOR as int
        }
    } else {
        n == o
    }
}

/// Every mobile organism pays its metabolic and motion cost; plants and
/// corpses are untouched and nothing is added or removed.
pub fn energy_consumption_system(w: &mut World, dt: i64)
    requires
        old(w).wf(),
        0 <= dt <= MAX_TICK,
    ensures
        final(w).wf(),
        final(w).organisms@.len() == old(w).organisms@.len(),
        forall|i: int|
            0 <= i < old(w).organisms@.len() ==> drained_rel(
                old(w).organisms@[i],
                #[trigger] final(w).organisms@[i],
                dt as int,
            ),
        final(w).config == old(w).config,
        final(w).next_id == old(w).next_id,
        final(w).sunlight == old(w).sunlight,
        final(w).stats == old(w).stats,
        final(w).history == old(w).history,
{
    let n = w.organisms.len();
    let mut out: Vec<Organism> = Vec::new();
    let mut i: usize = 0;
    while i < n
        invariant
            w == old(w),
            w.wf(),
            0 <= dt <= MAX_TICK,
            n == w.organisms@.len(),
            i <= n,
            out@.len() == i,
            forall|j: int|
                0 <= j < i ==> (#[trigger] out@[j]).wf(&w.config) && out@[j].id
                    == w.organisms@[j].id && drained_rel(w.organisms@[j], out@[j], dt as int),
        decreases n - i,
    {
        let o = w.organisms[i];
        if o.species == Species::Prey || o.species == Species::Predator || o.species
            == Species::Scavenger {
            proof {
                assert(0 <= o.genome.metabolism * o.genome.size <= 6_000_000 && 0
                    <= o.genome.metabolism * o.genome.size * dt <= 6_000_000 * MAX_TICK)
                    by (nonlinear_arith)
                    requires
                        0 <= o.genome.metabolism <= 2_000,
                        0 <= o.genome.size <= 3_000,
                        0 <= dt <= MAX_TICK,
                ;
            }
            let base: i64 = (o.genome.metabolism * o.genome.size * dt) / 1_000_000_000;
            let vlen = crate::geom::length(o.vel.x, o.vel.y);
            proof {
                assert(0 <= (vlen as int) * dt <= 0x1_0000_0000 * MAX_TICK) by (nonlinear_arith)
                    requires
                        0 <= vlen <= 0x1_0000_0000,
                        0 <= dt <= MAX_TICK,
                ;
            }
            let motion: i64 = (vlen * dt) / 100_000_000;
            let e = crate::fixed::max_i64(o.energy - (base + motion), ENERGY_FLOOR);
            out.push(Organism { energy: e, ..o });
        } else {
            out.push(o);
        }
        i = i + 1;
    }
    w.organisms = out;
    proof {
        assert forall|i2: int, j2: int|
            0 <= i2 < j2 < w.organisms@.len() implies w.organisms@[i2].id
            != w.organisms@[j2].id by {
            assert(w.organisms@[i2].id == old(w).organisms@[i2].id);
            assert(w.organisms@[j2].id == old(w).organisms@[j2].id);
        }
    }
}

/// How one organism leaves the aging pass: a living one is older by the
/// tick (saturating at the numeric cap), a corpse does not age.
pub open spec fn aged_rel(o: Organism, n: Organism, dt: int) -> bool {
    if o.is_living() {
        n == (Organism { age: n.age, ..o }) && n.age == if o.age + dt <= AGE_CAP {
            o.age + dt
        } else {
            AGE_CAP as int
        }
    } else {
        n == o
    }
}

/// Every living organism ages by the elapsed tick, unconditionally.
pub fn age_system(w: &mut World, dt: i64)
    requires
        old(w).wf(),
        0 <= dt <= MAX_TICK,
    ensures
        final(w).wf(),
        final(w).organisms@.len() == old(w).organisms@.len(),
        forall|i: int|
            0 <= i < old(w).organisms@.len() ==> aged_rel(
                old(w).organisms@[i],
                #[trigger] final(w).organisms@[i],
                dt as int,
            ),
        final(w).config == old(w).config,
        final(w).next_id == old(w).next_id,
        final(w).sunlight == old(w).sunlight,
        final(w).stats == old(w).stats,
        final(w).history == old(w).history,
{
    let n = w.organisms.len();
    let mut out: Vec<Organism> = Vec::new();
    let mut i: usize = 0;
    while i < n
        invariant
            w == old(w),
            w.wf(),
            0 <= dt <= MAX_TICK,
            n == w.organisms@.len(),
            i <= n,
            out@.len() == i,
            forall|j: int|
                0 <= j < i ==> (#[trigger] out@[j]).wf(&w.config) && out@[j].id
                    == w.organisms@[j].id && aged_rel(w.organisms@[j], out@[j], dt as int),
        decreases n - i,
    {
        let o = w.organisms[i];
        if o.species != Species::Corpse {
            let a = crate::fixed::min_i64(o.age + dt, AGE_CAP);
            out.push(Organism { age: a, ..o });
        } else {
            out.push(o);
        }
        i = i + 1;
    }
    w.organisms = out;
    proof {
        assert forall|i2: int, j2: int|
            0 <= i2 < j2 < w.organisms@.len() implies w.organisms@[i2].id
            != w.organisms@[j2].id by {
            assert(w.organisms@[i2].id == old(w).organisms@[i2].id);
            assert(w.organisms@[j2].id == old(w).organisms@[j2].id);
        }
    }
}

/// The corpse an organism becomes at death: the living tag and all
/// locomotion and behavioral state are stripped, the decay timer starts
/// full, and identity, genome, energy, age and position are retained.
pub open spec fn corpse_of(o: Organism) -> Organism {
    Organism {
        species: Species::Corpse,
        vel: Vec2m { x: 0, y: 0 },
        stamina: None,
        hunt_target: None,
        waypoint: None,
        decay_timer: CORPSE_DECAY_TIME as i64,
        ..o
    }
}

/// Whether a living organism dies now: energy at or below zero, or age
/// beyond the maximum.
pub open spec fn dies_now(o: Organism) -> bool {
    o.is_living() && (o.energy <= 0 || o.age > MAX_AGE)
}

/// How one organism leaves the death pass: one that dies becomes exactly
/// its corpse; everything else is untouched.
pub open spec fn death_rel(o: Organism, n: Organism) -> bool {
    if dies_now(o) {
        n == corpse_of(o)
    } else {
        n == o
    }
}

/// A living organism whose energy has reached zero or whose age has passed
/// the maximum converts to a corpse: it is not removed, it keeps its
/// energy, age and position, and its behavioral state is stripped.
pub fn death_system(w: &mut World)
    requires
        old(w).wf(),
    ensures
        final(w).wf(),
        final(w).organisms@.len() == old(w).organisms@.len(),
        forall|i: int|
            0 <= i < old(w).organisms@.len() ==> death_rel(
                old(w).organisms@[i],
                #[trigger] final(w).organisms@[i],
            ),
        final(w).config == old(w).config,
        final(w).next_id == old(w).next_id,
        final(w).sunlight == old(w).sunlight,
        final(w).stats == old(w).stats,
        final(w).history == old(w).history,
{
    let n = w.organisms.len();
    let mut out: Vec<Organism> = Vec::new();
    let mut i: usize = 0;
    while i < n
        invariant
            w == old(w),
            w.wf(),
            n == w.organisms@.len(),
            i <= n,
            out@.len() == i,
            forall|j: int|
                0 <= j < i ==> (#[trigger] out@[j]).wf(&w.config) && out@[j].id
                    == w.organisms@[j].id && death_rel(w.organisms@[j], out@[j]),
        decreases n - i,
    {
        let o = w.organisms[i];
        if o.species != Species::Corpse && (o.energy <= 0 || o.age > MAX_AGE) {
            out.push(
                Organism {
                    species: Species::Corpse,
                    vel: Vec2m { x: 0, y: 0 },
                    stamina: None,
                    hunt_target: None,
                    waypoint: None,
                    decay_timer: CORPSE_DECAY_TIME,
                    ..o
                },
            );
        } else {
            out.push(o);
        }
        i = i + 1;
    }
    w.organisms = out;
    proof {
        assert forall|i2: int, j2: int|
            0 <= i2 < j2 < w.organisms@.len() implies w.organisms@[i2].id
            != w.organisms@[j2].id by {
            assert(w.organisms@[i2].id == old(w).organisms@[i2].id);
            assert(w.organisms@[j2].id == old(w).organisms@[j2].id);
        }
    }
}

/// The reproduction probability for a species, in parts per million:
/// plants a fixed one percent, density-independent; animals a base rate
/// doubled while their population is below ten.
pub open spec fn reproduction_ppm_spec(sp: Species, prey_n: int, pred_n: int, scav_n: int) -> int {
    match sp {
        Species::Plant => 10_000,
        Species::Prey => if prey_n < 10 {
            10_000
        } else {
            5_000
        },
        Species::Predator => if pred_n < 10 {
            6_000
        } else {
            3_000
        },
        Species::Scavenger => if scav_n < 10 {
            8_000
        } else {
            4_000
        },
        Species::Corpse => 0,
    }
}

/// The probability handed to each organism's reproduction trial, pinned to
/// `reproduction_ppm_spec`.
pub fn reproduction_trial_ppm(sp: Species, prey_n: usize, pred_n: usize, scav_n: usize) -> (r:
    i64)
    ensures
        r == reproduction_ppm_spec(sp, prey_n as int, pred_n as int, scav_n as int),
{
    if sp == Species::Plant {
        10_000
    } else if sp == Species::Prey {
        if prey_n < 10 {
            10_000
        } else {
            5_000
        }
    } else if sp == Species::Predator {
        if pred_n < 10 {
            6_000
        } else {
            3_000
        }
    } else if sp == Species::Scavenger {
        if scav_n < 10 {
            8_000
        } else {
            4_000
        }
    } else {
        0
    }
}

/// How a parent leaves the reproduction pass when it reproduced: it was
/// living with energy above its genome's threshold, and its energy is
/// exactly halved (rounding down); everything else is retained.
pub open spec fn reproduced_rel(o: Organism, n: Organism) -> bool {
    &&& o.is_living()
    &&& o.energy > o.genome.reproduction_threshold
    &&& same_except_energy(o, n)
    &&& n.energy == div_tz(o.energy as int, 2)
}

/// What an offspring looks like: the parent's species and genome, exactly
/// half the parent's pre-split energy, fresh age, default behavioral state
/// for its species, and a position within a small offset of the parent's,
/// wrapped into the world. The offset bound is 30 units for plants and 20
/// for animals.
pub open spec fn offspring_matches(c: Organism, p: Organism, half_w: int, half_h: int) -> bool {
    &&& c.species == p.species
    &&& c.genome == p.genome
    &&& c.energy == div_tz(p.energy as int, 2)
    &&& c.age == 0
    &&& c.vel == (Vec2m { x: 0, y: 0 })
    &&& c.decay_timer == 0
    &&& (p.species == Species::Prey ==> c.stamina == Some(
        Stamina { current: 100_000, max: 100_000, regen_rate: 10_000 },
    ))
    &&& (p.species != Species::Prey ==> c.stamina is None)
    &&& c.hunt_target is None
    &&& ((p.species == Species::Predator || p.species == Species::Scavenger) <==> c.waypoint
        is Some)
    &&& (c.waypoint is Some ==> crate::movement::waypoint_from(
        c.waypoint->Some_0,
        c.pos.x as int,
        c.pos.y as int,
        half_w,
        half_h,
    ))
    &&& exists|ox: int, oy: int|
        {
            let b = if p.species == Species::Plant {
                30_000int
            } else {
                20_000int
            };
            &&& -b <= ox <= b
            &&& -b <= oy <= b
            &&& c.pos.x == #[trigger] wrap_coord_spec(p.pos.x + ox, half_w)
            &&& c.pos.y == #[trigger] wrap_coord_spec(p.pos.y + oy, half_h)
        }
}

/// Conservation at birth: for any reproduction event, the offspring's
/// energy and the parent's post-split energy are each exactly the
/// truncating half of the parent's pre-split energy, so together they
/// carry twice that half and no more.
pub proof fn lemma_conservation_at_birth(p: Organism, n: Organism, c: Organism, half_w: int, half_h: int)
    requires
        p.genome.wf(),
        reproduced_rel(p, n),
        offspring_matches(c, p, half_w, half_h),
    ensures
        c.energy == div_tz(p.energy as int, 2),
        n.energy == div_tz(p.energy as int, 2),
        c.energy == n.energy,
        n.energy + c.energy <= p.energy,
        p.energy - (n.energy + c.energy) <= 1,
{
    assert(p.energy > p.genome.reproduction_threshold >= 0);
    assert(div_tz(p.energy as int, 2) == p.energy as int / 2);
    assert(p.energy / 2 + p.energy / 2 <= p.energy && p.energy - (p.energy / 2 + p.energy / 2)
        <= 1) by (nonlinear_arith)
        requires
            p.energy >= 0,
    ;
}

/// Conservation at birth over a whole reproduction pass: whenever the
/// pass's postcondition links a changed parent at index `i` to an
/// offspring at index `j`, both carry exactly the truncating half of the
/// parent's pre-pass energy.
pub proof fn lemma_pass_conserves_energy_at_birth(
    before: Seq<Organism>,
    after: Seq<Organism>,
    i: int,
    j: int,
    half_w: int,
    half_h: int,
)
    requires
        0 <= i < before.len() <= after.len(),
        before[i].genome.wf(),
        reproduced_rel(before[i], after[i]),
        0 <= j < after.len(),
        offspring_matches(after[j], before[i], half_w, half_h),
    ensures
        after[i].energy == div_tz(before[i].energy as int, 2),
        after[j].energy == div_tz(before[i].energy as int, 2),
        after[i].energy == after[j].energy,
        after[i].energy + after[j].energy <= before[i].energy,
        before[i].energy - (after[i].energy + after[j].energy) <= 1,
{
    lemma_conservation_at_birth(before[i], after[i], after[j], half_w, half_h);
}

/// Each living organism whose energy exceeds its genome's reproduction
/// threshold may reproduce, at the species' density-dependent rate
/// `reproduction_trial_ppm` over the pass's starting counts. On
/// success the parent's energy is exactly halved and one offspring with
/// the other half, a cloned genome, fresh age and default behavioral
/// state appears near the parent. Energy is conserved at the instant of
/// birth: both halves are exactly the truncating half of the parent's
/// pre-split energy.
#[verifier::rlimit(100)]
pub fn reproduction_system(w: &mut World)
    requires
        old(w).wf(),
    ensures
        final(w).wf(),
        old(w).organisms@.len() <= final(w).organisms@.len() <= 2 * old(w).organisms@.len(),
        forall|i: int|
            0 <= i < old(w).organisms@.len() ==> (#[trigger] final(w).organisms@[i]
                == old(w).organisms@[i] || (reproduced_rel(
                old(w).organisms@[i],
                final(w).organisms@[i],
            ) && exists|j: int|
                old(w).organisms@.len() <= j < final(w).organisms@.len() && offspring_matches(
                    #[trigger] final(w).organisms@[j],
                    old(w).organisms@[i],
                    old(w).config.half_w(),
                    old(w).config.half_h(),
                ))),
        forall|j: int|
            old(w).organisms@.len() <= j < final(w).organisms@.len() ==> exists|i: int|
                0 <= i < old(w).organisms@.len() && offspring_matches(
                    #[trigger] final(w).organisms@[j],
                    old(w).organisms@[i],
                    old(w).config.half_w(),
                    old(w).config.half_h(),
                ) && reproduced_rel(old(w).organisms@[i], final(w).organisms@[i]),
        forall|j: int|
            old(w).organisms@.len() <= j < final(w).organisms@.len()
                ==> (#[trigger] final(w).organisms@[j]).id >= old(w).next_id,
        final(w).next_id >= old(w).next_id,
        final(w).config == old(w).config,
        final(w).sunlight == old(w).sunlight,
        final(w).stats == old(w).stats,
        final(w).history == old(w).history,
{
    let prey_n = w.count_of(Species::Prey);
    let pred_n = w.count_of(Species::Predator);
    let scav_n = w.count_of(Species::Scavenger);
    let hw = w.config.half_width();
    let hh = w.config.half_height();
    let n = w.organisms.len();
    let ghost id0 = w.next_id;
    let mut out: Vec<Organism> = Vec::new();
    let mut born: Vec<Organism> = Vec::new();
    let mut i: usize = 0;
    while i < n
        invariant
            w.organisms == old(w).organisms,
            w.config == old(w).config,
            w.sunlight == old(w).sunlight,
            w.stats == old(w).stats,
            w.history == old(w).history,
            w.wf(),
            hw == w.config.half_w(),
            hh == w.config.half_h(),
            n == w.organisms@.len(),
            i <= n,
            out@.len() == i,
            born@.len() <= i,
            n + born@.len() <= MAX_ORGANISMS,
            w.next_id == id0 + born@.len(),
            w.next_id <= ID_LIMIT,
            ids_below(w.organisms@, id0),
            forall|j: int|
                0 <= j < i ==> (#[trigger] out@[j]).wf(&w.config) && out@[j].id
                    == w.organisms@[j].id && (out@[j] == w.organisms@[j] || (reproduced_rel(
                    w.organisms@[j],
                    out@[j],
                ) && exists|k: int|
                    0 <= k < born@.len() && offspring_matches(
                        #[trigger] born@[k],
                        w.organisms@[j],
                        hw as int,
                        hh as int,
                    ))),
            forall|k: int|
                0 <= k < born@.len() ==> (#[trigger] born@[k]).wf(&w.config) && born@[k].id == id0
                    + k && exists|j: int|
                    0 <= j < i && offspring_matches(
                        born@[k],
                        #[trigger] w.organisms@[j],
                        hw as int,
                        hh as int,
                    ) && reproduced_rel(w.organisms@[j], out@[j]),
        decreases n - i,
    {
        let o = w.organisms[i];
        let ghost born0 = born@;
        let mut parent = o;
        if o.species != Species::Corpse && o.energy > o.genome.reproduction_threshold && n
            + born.len() < MAX_ORGANISMS && w.next_id < ID_LIMIT {
            let ppm = reproduction_trial_ppm(o.species, prey_n, pred_n, scav_n);
            if bernoulli_ppm(ppm) {
                let half_e = crate::fixed::div_fx(o.energy, 2);
                parent = Organism { energy: half_e, ..o };
                let b: i64 = if o.species == Species::Plant {
                    30_000
                } else {
                    20_000
                };
                let ox = rand_i64_range(-b, b + 1);
                let oy = rand_i64_range(-b, b + 1);
                let cx = wrap_coord(o.pos.x + ox, hw);
                let cy = wrap_coord(o.pos.y + oy, hh);
                let wp: Option<Waypoint> = if o.species == Species::Predator || o.species
                    == Species::Scavenger {
                    Some(crate::movement::fresh_waypoint(cx, cy, hw, hh))
                } else {
                    None
                };
                let st: Option<Stamina> = if o.species == Species::Prey {
                    Some(Stamina { current: 100_000, max: 100_000, regen_rate: 10_000 })
                } else {
                    None
                };
                let c = Organism {
                    id: w.next_id,
                    species: o.species,
                    genome: o.genome,
                    energy: half_e,
                    age: 0,
                    pos: Vec2m { x: cx, y: cy },
                    vel: Vec2m { x: 0, y: 0 },
                    stamina: st,
                    hunt_target: None,
                    waypoint: wp,
                    decay_timer: 0,
                };
                proof {
                    crate::fixed::lemma_div_tz_magnitude(o.energy as int, 2);
                    assert(c.pos.x == wrap_coord_spec(o.pos.x + ox, hw as int) && c.pos.y
                        == wrap_coord_spec(o.pos.y + oy, hh as int));
                    assert(offspring_matches(c, o, hw as int, hh as int));
                }
                born.push(c);
                w.next_id = w.next_id + 1;
            }
        }
        proof {
            if born@.len() > born0.len() {
                assert(born@.drop_last() =~= born0);
                assert(reproduced_rel(o, parent));
                assert(offspring_matches(born@[born0.len() as int], o, hw as int, hh as int));
            } else {
                assert(born@ =~= born0);
            }
        }
        out.push(parent);
        i = i + 1;
    }
    let ghost parents = out@;
    let mut k: usize = 0;
    let m = born.len();
    while k < m
        invariant
            k <= m,
            m == born@.len(),
            out@ == parents + born@.subrange(0, k as int),
        decreases m - k,
    {
        let c = born[k];
        out.push(c);
        proof {
            assert(out@ =~= parents + born@.subrange(0, k + 1));
        }
        k = k + 1;
    }
    proof {
        assert(out@ =~= parents + born@);
    }
    w.organisms = out;
    proof {
        let orgs = old(w).organisms@;
        let fin = w.organisms@;
        assert forall|j: int| 0 <= j < fin.len() implies (#[trigger] fin[j]).wf(&w.config) by {
            if j < n {
                assert(fin[j] == parents[j]);
            } else {
                assert(fin[j] == born@[j - n]);
            }
        }
        assert forall|i2: int, j2: int| 0 <= i2 < j2 < fin.len() implies fin[i2].id
            != fin[j2].id by {
            if j2 < n {
                assert(fin[i2] == parents[i2] && fin[j2] == parents[j2]);
                assert(fin[i2].id == orgs[i2].id && fin[j2].id == orgs[j2].id);
            } else if i2 < n {
                assert(fin[i2] == parents[i2] && fin[i2].id == orgs[i2].id);
                assert(fin[j2] == born@[j2 - n] && fin[j2].id == id0 + j2 - n);
            } else {
                assert(fin[i2] == born@[i2 - n] && fin[j2] == born@[j2 - n]);
            }
        }
        assert forall|j: int| 0 <= j < fin.len() implies (#[trigger] fin[j]).id < w.next_id by {
            if j < n {
                assert(fin[j] == parents[j] && fin[j].id == orgs[j].id);
            } else {
                assert(fin[j] == born@[j - n]);
            }
        }
        assert forall|i2: int| 0 <= i2 < n implies (#[trigger] fin[i2] == orgs[i2] || (
        reproduced_rel(orgs[i2], fin[i2]) && exists|j: int|
            n <= j < fin.len() && offspring_matches(
                #[trigger] fin[j],
                orgs[i2],
                w.config.half_w(),
                w.config.half_h(),
            ))) by {
            assert(fin[i2] == parents[i2]);
            if parents[i2] != orgs[i2] {
                let k2 = choose|k2: int|
                    0 <= k2 < born@.len() && offspring_matches(
                        #[trigger] born@[k2],
                        orgs[i2],
                        hw as int,
                        hh as int,
                    );
                assert(fin[n + k2] == born@[k2]);
            }
        }
        assert forall|j: int| n <= j < fin.len() implies exists|i2: int|
            0 <= i2 < n && offspring_matches(
                #[trigger] fin[j],
                orgs[i2],
                w.config.half_w(),
                w.config.half_h(),
            ) && reproduced_rel(orgs[i2], fin[i2]) by {
            assert(fin[j] == born@[j - n]);
            let i2 = choose|i2: int|
                0 <= i2 < n && offspring_matches(
                    born@[j - n],
                    #[trigger] orgs[i2],
                    hw as int,
                    hh as int,
                ) && reproduced_rel(orgs[i2], parents[i2]);
            assert(fin[i2] == parents[i2]);
        }
    }
}

/// What remains after the decay pass over a prefix of the arena: every
/// corpse's timer is decremented by the tick, corpses whose timers reach
/// zero are removed, and everything living is kept unchanged.
pub open spec fn decay_survivors(s: Seq<Organism>, dt: int) -> Seq<Organism>
    decreases s.len(),
{
    if s.len() == 0 {
        Seq::empty()
    } else {
        let rest = decay_survivors(s.drop_last(), dt);
        let o = s.last();
        if o.species == Species::Corpse {
            if o.decay_timer - dt > 0 {
                rest.push(Organism { decay_timer: (o.decay_timer - dt) as i64, ..o })
            } else {
                rest
            }
        } else {
            rest.push(o)
        }
    }
}

/// Whether a decay survivor matches some source entry: unchanged if
/// living, or a corpse with its timer lowered by the tick.
pub open spec fn decay_trace(m: Organism, o: Organism, dt: int) -> bool {
    ||| (o.species != Species::Corpse && m == o)
    ||| (o.species == Species::Corpse && m == (Organism {
        decay_timer: (o.decay_timer - dt) as i64,
        ..o
    }))
}

/// Every entry left by the decay pass traces back to some source entry.
pub proof fn lemma_decay_source(s: Seq<Organism>, dt: int)
    ensures
        decay_survivors(s, dt).len() <= s.len(),
        forall|k2: int|
            0 <= k2 < decay_survivors(s, dt).len() ==> exists|j: int|
                0 <= j < s.len() && decay_trace(#[trigger] decay_survivors(s, dt)[k2], s[j], dt),
    decreases s.len(),
{
    if s.len() > 0 {
        lemma_decay_source(s.drop_last(), dt);
        let rest = decay_survivors(s.drop_last(), dt);
        let cur = decay_survivors(s, dt);
        assert forall|k2: int| 0 <= k2 < cur.len() implies exists|j: int|
            0 <= j < s.len() && decay_trace(#[trigger] cur[k2], s[j], dt) by {
            if k2 < rest.len() {
                assert(cur[k2] == rest[k2]);
                let j = choose|j: int|
                    0 <= j < s.drop_last().len() && decay_trace(
                        #[trigger] rest[k2],
                        s.drop_last()[j],
                        dt,
                    );
                assert(s.drop_last()[j] == s[j]);
                assert(decay_trace(cur[k2], s[j], dt));
            } else {
                assert(decay_trace(cur[k2], s[s.len() - 1], dt));
            }
        }
    }
}

/// Every corpse's decay timer falls by the elapsed tick; a corpse whose
/// timer reaches zero is permanently removed. The timer of every surviving
/// corpse is strictly smaller than before.
pub fn corpse_decay_system(w: &mut World, dt: i64)
    requires
        old(w).wf(),
        0 <= dt <= MAX_TICK,
    ensures
        final(w).wf(),
        final(w).organisms@ == decay_survivors(old(w).organisms@, dt as int),
        final(w).config == old(w).config,
        final(w).next_id == old(w).next_id,
        final(w).sunlight == old(w).sunlight,
        final(w).stats == old(w).stats,
        final(w).history == old(w).history,
{
    let n = w.organisms.len();
    let mut out: Vec<Organism> = Vec::new();
    let ghost mut picked: Seq<int> = Seq::empty();
    let mut i: usize = 0;
    while i < n
        invariant
            w == old(w),
            w.wf(),
            0 <= dt <= MAX_TICK,
            n == w.organisms@.len(),
            i <= n,
            out@ == decay_survivors(w.organisms@.subrange(0, i as int), dt as int),
            out@.len() <= i,
            picked.len() == out@.len(),
            forall|k: int| 0 <= k < picked.len() ==> 0 <= #[trigger] picked[k] < i,
            forall|k1: int, k2: int| 0 <= k1 < k2 < picked.len() ==> picked[k1] < picked[k2],
            forall|k: int|
                0 <= k < picked.len() ==> (#[trigger] out@[k]).id == w.organisms@[picked[k]].id
                    && out@[k].wf(&w.config),
        decreases n - i,
    {
        let o = w.organisms[i];
        proof {
            assert(w.organisms@.subrange(0, i + 1).drop_last() =~= w.organisms@.subrange(
                0,
                i as int,
            ));
            assert(w.organisms@.subrange(0, i + 1).last() == o);
        }
        if o.species == Species::Corpse {
            if o.decay_timer - dt > 0 {
                out.push(Organism { decay_timer: o.decay_timer - dt, ..o });
                proof {
                    picked = picked.push(i as int);
                }
            }
        } else {
            out.push(o);
            proof {
                picked = picked.push(i as int);
            }
        }
        i = i + 1;
    }
    proof {
        assert(w.organisms@.subrange(0, n as int) =~= w.organisms@);
    }
    w.organisms = out;
    proof {
        assert forall|i2: int, j2: int|
            0 <= i2 < j2 < w.organisms@.len() implies w.organisms@[i2].id
            != w.organisms@[j2].id by {
            assert(w.organisms@[i2].id == old(w).organisms@[picked[i2]].id);
            assert(w.organisms@[j2].id == old(w).organisms@[picked[j2]].id);
            assert(picked[i2] < picked[j2]);
        }
        assert forall|i2: int| 0 <= i2 < w.organisms@.len() implies (#[trigger] w.organisms@[i2]).id
            < w.next_id by {
            assert(w.organisms@[i2].id == old(w).organisms@[picked[i2]].id);
        }
    }
}

} // verus!
